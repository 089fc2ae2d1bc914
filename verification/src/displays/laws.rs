//! What the list of monitors promises.

use vstd::prelude::*;

use crate::displays;
use crate::displays::Monitor;
use crate::order::Ranked;
use crate::protocol::Display;

verus! {

/// A monitor is listed before another if it is the primary one and the other is not;
/// and otherwise from the left, and of two equally far left from the top.
pub proof fn monitors_are_listed_in_reading_order(a: Display, b: Display)
    ensures
        a.before(&b) <==> {
            ||| a.primary && !b.primary
            ||| a.primary == b.primary && a.x < b.x
            ||| a.primary == b.primary && a.x == b.x && a.y < b.y
        },
{
}

/// A monitor is shown as it is, under the name its maker gave it where there is one.
pub proof fn monitors_are_shown_as_they_are(m: Monitor)
    ensures
        ({
            let d = displays::named(m);
            &&& d.id == m.id
            &&& d.x == m.x && d.y == m.y
            &&& d.width == m.width && d.height == m.height
            &&& d.scale_bits == m.scale_bits
            &&& d.primary == m.primary
            &&& m.friendly_name@.len() > 0 ==> d.name == m.friendly_name
            &&& m.friendly_name@.len() == 0 ==> d.name == m.name
        }),
{
}

/// The screen of a machine without monitors is full HD, at the origin, primary and
/// not scaled.
pub proof fn the_stand_in_is_full_hd(d: Display)
    requires
        displays::is_stand_in(d),
    ensures
        d.x == 0 && d.y == 0,
        d.width == 1920 && d.height == 1080,
        d.primary,
        d.scale_bits == 0x3F80_0000,
        d.id == 0,
        d.name@ == "Display"@,
{
}

} // verus!
