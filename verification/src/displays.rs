//! Monitor enumeration.
//!
//! Layout changes (docking a laptop, unplugging a screen) are picked up by
//! polling: it costs a single cheap syscall a second and avoids a platform
//! specific display-change event path on three operating systems. What the
//! system reports is made into the list that everybody else sees here.

use vstd::prelude::*;

use crate::order;
use crate::order::Ranked;
use crate::protocol::Display;
use crate::text;

pub mod laws;

verus! {

/// A monitor as the system reports it.
#[derive(Debug)]
pub struct Monitor {
    pub id: u32,
    pub name: String,
    /// What the maker calls it; empty where the system does not know.
    pub friendly_name: String,
    pub x: i32,
    pub y: i32,
    pub width: u32,
    pub height: u32,
    /// The scale factor, as the bits of an IEEE-754 single.
    pub scale_bits: u32,
    pub primary: bool,
}

/// The bits of the single `1`.
pub const SCALE_ONE: u32 = 0x3F80_0000;

/// Primary first, then left to right, then top to bottom.
impl Ranked for Display {
    open spec fn before(&self, other: &Self) -> bool {
        if self.primary != other.primary {
            self.primary
        } else if self.x != other.x {
            self.x < other.x
        } else {
            self.y < other.y
        }
    }

    fn is_before(&self, other: &Self) -> bool {
        if self.primary != other.primary {
            self.primary
        } else if self.x != other.x {
            self.x < other.x
        } else {
            self.y < other.y
        }
    }

    proof fn asymmetric(a: &Self, b: &Self) {
    }

    proof fn transitive(a: &Self, b: &Self, c: &Self) {
    }
}

/// The monitor as everybody else sees it.
pub open spec fn named(m: Monitor) -> Display {
    Display {
        id: m.id,
        name: if m.friendly_name@.len() == 0 {
            m.name
        } else {
            m.friendly_name
        },
        x: m.x,
        y: m.y,
        width: m.width,
        height: m.height,
        scale_bits: m.scale_bits,
        primary: m.primary,
    }
}

/// The single virtual screen of a machine that reports no monitor.
pub open spec fn is_stand_in(d: Display) -> bool {
    &&& d.id == 0
    &&& d.name@ == "Display"@
    &&& d.x == 0
    &&& d.y == 0
    &&& d.width == 1920
    &&& d.height == 1080
    &&& d.scale_bits == SCALE_ONE
    &&& d.primary
}

/// The monitors as everybody else sees them: primary first, then left to right,
/// which gives the UI a stable order to draw. There is always at least one: on a
/// headless machine, or a platform that could not be queried, a single virtual
/// screen keeps the layout maths well defined.
pub fn enumerate(monitors: Vec<Monitor>) -> (r: Vec<Display>)
    ensures
        if monitors@.len() == 0 {
            r@.len() == 1 && is_stand_in(r@[0])
        } else {
            r@ == order::in_order(monitors@.map_values(|m: Monitor| named(m)))
        },
        r@.len() >= 1,
{
    let ghost all = monitors@;
    let ghost goal = all.map_values(|m: Monitor| named(m));
    let mut monitors = monitors;
    let mut displays: Vec<Display> = Vec::new();
    let ghost mut done: int = 0;
    assert(monitors@ =~= all.skip(0));
    assert(displays@ =~= goal.take(0));
    while monitors.len() > 0
        invariant
            0 <= done <= all.len(),
            monitors@ == all.skip(done),
            goal == all.map_values(|m: Monitor| named(m)),
            displays@ == goal.take(done),
        decreases monitors@.len(),
    {
        let m = monitors.remove(0);
        assert(m == all[done]);
        assert(monitors@ =~= all.skip(done + 1));
        let name = if text::has_text(m.friendly_name.as_str()) {
            m.friendly_name
        } else {
            m.name
        };
        displays.push(
            Display {
                id: m.id,
                name,
                x: m.x,
                y: m.y,
                width: m.width,
                height: m.height,
                scale_bits: m.scale_bits,
                primary: m.primary,
            },
        );
        assert(displays@ =~= goal.take(done + 1));
        proof {
            done = done + 1;
        }
    }
    assert(displays@ =~= goal);
    proof {
        order::sorting_sorts(goal);
    }
    let mut displays = order::sort(displays);
    if displays.len() == 0 {
        displays.push(
            Display {
                id: 0,
                name: "Display".to_owned(),
                x: 0,
                y: 0,
                width: 1920,
                height: 1080,
                scale_bits: SCALE_ONE,
                primary: true,
            },
        );
    }
    displays
}

} // verus!
