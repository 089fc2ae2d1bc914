//! Display layout and cursor routing.
//!
//! Every device reports its monitors in its own virtual-desktop pixels. The
//! host places each device's bounding box at an offset inside one shared "wall"
//! coordinate space, so a single cursor position can be expressed globally and
//! translated back into whichever device currently owns the pointer.
//!
//! The host does all of this maths; clients only ever receive final absolute
//! coordinates in their own pixels.
//!
//! Specifications speak of rectangles over unbounded integers ([`Area`]). The
//! executable code works in machine integers, wide enough that only a *result*
//! that does not fit its type is ruled out by a precondition.

use vstd::prelude::*;

use crate::protocol;
use crate::protocol::{DeviceId, Display};

pub mod laws;

verus! {

/// Gap left between devices when auto-arranging, in wall pixels. It has to be
/// zero: motion that lands in a gap is kept on the current device, so a gap
/// between two devices is a wall the pointer can never cross.
pub const AUTO_GAP: i32 = 0;

/// Whether an integer is a coordinate a machine word can hold.
pub open spec fn fits(n: int) -> bool {
    i32::MIN <= n <= i32::MAX
}

/// `n` moved into `lo..=hi`.
pub open spec fn clamped(n: int, lo: int, hi: int) -> int {
    if n < lo {
        lo
    } else if n > hi {
        hi
    } else {
        n
    }
}

pub open spec fn min_of(a: int, b: int) -> int {
    if a <= b {
        a
    } else {
        b
    }
}

pub open spec fn max_of(a: int, b: int) -> int {
    if a >= b {
        a
    } else {
        b
    }
}

/// The distance of an integer from zero.
pub open spec fn abs_of(n: int) -> int {
    if n < 0 {
        -n
    } else {
        n
    }
}

/// Half of `n`, rounded towards zero.
pub open spec fn half(n: int) -> int {
    if n >= 0 {
        n / 2
    } else {
        -((-n) / 2)
    }
}

/// A rectangle over unbounded integers: the model of [`Rect`].
pub struct Area {
    pub x: int,
    pub y: int,
    pub w: int,
    pub h: int,
}

impl Area {
    pub open spec fn right(self) -> int {
        self.x + self.w
    }

    pub open spec fn bottom(self) -> int {
        self.y + self.h
    }

    /// Half-open containment: the right and bottom edges belong to the
    /// neighbour.
    pub open spec fn contains(self, px: int, py: int) -> bool {
        self.x <= px < self.right() && self.y <= py < self.bottom()
    }

    /// The smallest rectangle around both.
    pub open spec fn union(self, other: Area) -> Area {
        let x = min_of(self.x, other.x);
        let y = min_of(self.y, other.y);
        Area {
            x,
            y,
            w: max_of(self.right(), other.right()) - x,
            h: max_of(self.bottom(), other.bottom()) - y,
        }
    }

    /// The point of the rectangle that is nearest to `(px, py)`.
    pub open spec fn clamp(self, px: int, py: int) -> (int, int) {
        (clamped(px, self.x, self.right() - 1), clamped(py, self.y, self.bottom() - 1))
    }

    /// Squared distance from `(px, py)` to the nearest point.
    pub open spec fn distance_sq(self, px: int, py: int) -> int {
        let (cx, cy) = self.clamp(px, py);
        (px - cx) * (px - cx) + (py - cy) * (py - cy)
    }

    pub open spec fn shifted(self, dx: int, dy: int) -> Area {
        Area { x: self.x + dx, y: self.y + dy, w: self.w, h: self.h }
    }

    /// At least one pixel in each direction.
    pub open spec fn solid(self) -> bool {
        self.w >= 1 && self.h >= 1
    }

    /// Origin and size are machine integers.
    pub open spec fn fits(self) -> bool {
        fits(self.x) && fits(self.y) && fits(self.w) && fits(self.h)
    }

    /// All four edges are machine integers.
    pub open spec fn edges_fit(self) -> bool {
        fits(self.x) && fits(self.y) && fits(self.right()) && fits(self.bottom())
    }
}

#[derive(Clone, Copy, Debug, PartialEq, Eq, Structural)]
pub struct Rect {
    pub x: i32,
    pub y: i32,
    pub w: i32,
    pub h: i32,
}

impl View for Rect {
    type V = Area;

    open spec fn view(&self) -> Area {
        Area { x: self.x as int, y: self.y as int, w: self.w as int, h: self.h as int }
    }
}

fn min_wide(a: i64, b: i64) -> (r: i64)
    ensures
        r == min_of(a as int, b as int),
{
    if a <= b {
        a
    } else {
        b
    }
}

fn max_wide(a: i64, b: i64) -> (r: i64)
    ensures
        r == max_of(a as int, b as int),
{
    if a >= b {
        a
    } else {
        b
    }
}

fn clamp_wide(n: i64, lo: i64, hi: i64) -> (r: i64)
    ensures
        r == clamped(n as int, lo as int, hi as int),
{
    if n < lo {
        lo
    } else if n > hi {
        hi
    } else {
        n
    }
}

fn half_wide(n: i64) -> (r: i64)
    requires
        n > i64::MIN,
    ensures
        r == half(n as int),
{
    if n >= 0 {
        n / 2
    } else {
        let m: i64 = -n;
        -(m / 2)
    }
}

fn abs_wide(n: i64) -> (r: i64)
    requires
        n > i64::MIN,
    ensures
        r == abs_of(n as int),
{
    if n < 0 {
        -n
    } else {
        n
    }
}

/// The square of a distance that is below two to the thirty-third.
fn square_wide(n: i64) -> (r: i128)
    requires
        -0x2_0000_0000 <= n <= 0x2_0000_0000,
    ensures
        r == n * n,
        0 <= r <= 0x4_0000_0000_0000_0000,
{
    let m: i128 = n as i128;
    assert(0 <= m * m <= 0x4_0000_0000_0000_0000) by (nonlinear_arith)
        requires
            -0x2_0000_0000 <= m <= 0x2_0000_0000,
    ;
    m * m
}

impl Rect {
    pub fn right(&self) -> (r: i32)
        requires
            fits(self@.right()),
        ensures
            r == self@.right(),
    {
        self.x + self.w
    }

    pub fn bottom(&self) -> (r: i32)
        requires
            fits(self@.bottom()),
        ensures
            r == self@.bottom(),
    {
        self.y + self.h
    }

    pub fn contains(&self, px: i32, py: i32) -> (r: bool)
        ensures
            r == self@.contains(px as int, py as int),
    {
        px >= self.x && (px as i64) < self.x as i64 + self.w as i64 && py >= self.y && (py as i64)
            < self.y as i64 + self.h as i64
    }

    /// The smallest rectangle around both.
    pub fn union(self, other: Rect) -> (r: Rect)
        requires
            self@.union(other@).fits(),
        ensures
            r@ == self@.union(other@),
    {
        let x = min_wide(self.x as i64, other.x as i64);
        let y = min_wide(self.y as i64, other.y as i64);
        let right = max_wide(
            self.x as i64 + self.w as i64,
            other.x as i64 + other.w as i64,
        );
        let bottom = max_wide(
            self.y as i64 + self.h as i64,
            other.y as i64 + other.h as i64,
        );
        Rect { x: x as i32, y: y as i32, w: (right - x) as i32, h: (bottom - y) as i32 }
    }

    /// Nearest point inside this rect, used when a crossing lands in the gap
    /// between two monitors.
    pub fn clamp(&self, px: i32, py: i32) -> (r: (i32, i32))
        requires
            self@.solid(),
        ensures
            (r.0 as int, r.1 as int) == self@.clamp(px as int, py as int),
    {
        let cx = clamp_wide(px as i64, self.x as i64, self.x as i64 + self.w as i64 - 1);
        let cy = clamp_wide(py as i64, self.y as i64, self.y as i64 + self.h as i64 - 1);
        (cx as i32, cy as i32)
    }

    /// Squared distance to the nearest point inside this rect.
    pub fn distance_sq(&self, px: i32, py: i32) -> (r: i128)
        requires
            self@.solid(),
        ensures
            r == self@.distance_sq(px as int, py as int),
    {
        let (cx, cy) = self.clamp(px, py);
        square_wide(px as i64 - cx as i64) + square_wide(py as i64 - cy as i64)
    }
}

/// Where one monitor lies, in its device's own pixels.
pub open spec fn display_area(d: Display) -> Area {
    Area { x: d.x as int, y: d.y as int, w: (d.width as i32) as int, h: (d.height as i32) as int }
}

/// The smallest rectangle around a non-empty run of rectangles.
pub open spec fn union_all(areas: Seq<Area>) -> Area
    decreases areas.len(),
{
    if areas.len() <= 1 {
        areas[0]
    } else {
        union_all(areas.drop_last()).union(areas.last())
    }
}

pub open spec fn display_areas(displays: Seq<Display>) -> Seq<Area> {
    displays.map_values(|d: Display| display_area(d))
}

/// The bounding box of a device's monitors, with a full-HD placeholder for a
/// device that reports none.
pub open spec fn bounds_area(displays: Seq<Display>) -> Area {
    if displays.len() == 0 {
        Area { x: 0, y: 0, w: 1920, h: 1080 }
    } else {
        union_all(display_areas(displays))
    }
}

/// A rectangle encloses another when it reaches at least as far on all sides.
pub open spec fn encloses(outer: Area, inner: Area) -> bool {
    outer.x <= inner.x && outer.y <= inner.y && inner.right() <= outer.right() && inner.bottom()
        <= outer.bottom()
}

/// The bounding box encloses every rectangle it was built from, and no smaller
/// rectangle does.
pub proof fn union_all_is_least(areas: Seq<Area>)
    requires
        areas.len() > 0,
    ensures
        forall|i: int| 0 <= i < areas.len() ==> encloses(union_all(areas), #[trigger] areas[i]),
        forall|outer: Area|
            (forall|i: int| 0 <= i < areas.len() ==> encloses(outer, #[trigger] areas[i]))
                ==> #[trigger] encloses(outer, union_all(areas)),
    decreases areas.len(),
{
    if areas.len() > 1 {
        let rest = areas.drop_last();
        union_all_is_least(rest);
        assert forall|i: int| 0 <= i < areas.len() implies encloses(
            union_all(areas),
            #[trigger] areas[i],
        ) by {
            if i < rest.len() {
                assert(areas[i] == rest[i]);
            }
        }
        assert forall|outer: Area|
            (forall|i: int|
                0 <= i < areas.len() ==> encloses(outer, #[trigger] areas[i])) implies #[trigger] encloses(
            outer,
            union_all(areas),
        ) by {
            assert forall|i: int| 0 <= i < rest.len() implies encloses(
                outer,
                #[trigger] rest[i],
            ) by {
                assert(areas[i] == rest[i]);
            }
            assert(encloses(outer, areas.last()));
            assert(encloses(outer, union_all(rest)));
        }
    }
}

fn rect_of(d: &Display) -> (r: Rect)
    ensures
        r@ == display_area(*d),
{
    Rect { x: d.x, y: d.y, w: d.width as i32, h: d.height as i32 }
}

proof fn union_all_grows(areas: Seq<Area>, n: int)
    requires
        1 <= n <= areas.len(),
    ensures
        encloses(union_all(areas), union_all(areas.take(n))),
    decreases areas.len() - n,
{
    if n == areas.len() {
        assert(areas.take(n) =~= areas);
    } else {
        union_all_grows(areas, n + 1);
        assert(areas.take(n + 1).drop_last() =~= areas.take(n));
    }
}

fn bounds_of(displays: &Vec<Display>) -> (r: Rect)
    requires
        bounds_area(displays@).fits(),
    ensures
        r@ == bounds_area(displays@),
{
    if displays.len() == 0 {
        // A peer that reports nothing still needs a usable placeholder.
        return Rect { x: 0, y: 0, w: 1920, h: 1080 };
    }
    let ghost areas = display_areas(displays@);
    let mut r = rect_of(&displays[0]);
    let mut i: usize = 1;
    assert(areas.take(1)[0] == areas[0]);
    while i < displays.len()
        invariant
            1 <= i <= displays@.len(),
            areas == display_areas(displays@),
            union_all(areas).fits(),
            r@ == union_all(areas.take(i as int)),
        decreases displays@.len() - i,
    {
        let next = rect_of(&displays[i]);
        proof {
            assert(areas.take(i + 1).drop_last() =~= areas.take(i as int));
            assert(areas.take(i + 1).last() == next@);
            union_all_grows(areas, i + 1);
        }
        r = r.union(next);
        i += 1;
    }
    assert(areas.take(areas.len() as int) =~= areas);
    r
}

/// Whether the bounding box of some monitors can be held in machine integers.
pub fn bounds_fit(displays: &Vec<Display>) -> (r: bool)
    ensures
        r == bounds_area(displays@).fits(),
{
    if displays.len() == 0 {
        return true;
    }
    let ghost areas = display_areas(displays@);
    let first = rect_of(&displays[0]);
    let mut x: i64 = first.x as i64;
    let mut y: i64 = first.y as i64;
    let mut right: i64 = first.x as i64 + first.w as i64;
    let mut bottom: i64 = first.y as i64 + first.h as i64;
    let mut i: usize = 1;
    assert(areas.take(1)[0] == areas[0]);
    while i < displays.len()
        invariant
            1 <= i <= displays@.len(),
            areas == display_areas(displays@),
            -0x8000_0000 <= x <= 0x8000_0000,
            -0x8000_0000 <= y <= 0x8000_0000,
            -0x1_0000_0000 <= right <= 0x1_0000_0000,
            -0x1_0000_0000 <= bottom <= 0x1_0000_0000,
            union_all(areas.take(i as int)) == (Area {
                x: x as int,
                y: y as int,
                w: right - x,
                h: bottom - y,
            }),
        decreases displays@.len() - i,
    {
        let next = rect_of(&displays[i]);
        assert(areas.take(i + 1).drop_last() =~= areas.take(i as int));
        assert(areas.take(i + 1).last() == next@);
        x = min_wide(x, next.x as i64);
        y = min_wide(y, next.y as i64);
        right = max_wide(right, next.x as i64 + next.w as i64);
        bottom = max_wide(bottom, next.y as i64 + next.h as i64);
        i += 1;
    }
    assert(areas.take(areas.len() as int) =~= areas);
    in_range(x) && in_range(y) && in_range(right - x) && in_range(bottom - y)
}

/// One device as placed on the wall.
#[derive(Debug)]
pub struct Device {
    pub id: DeviceId,
    pub name: String,
    /// Where this device's local origin sits in wall space.
    pub offset: (i32, i32),
    pub displays: Vec<Display>,
    /// False for a device that is remembered but not currently connected. Such
    /// a device still draws in the layout editor and can still be dragged, but
    /// the pointer must not be able to cross onto it.
    pub online: bool,
    /// Bounding box of `displays`, in the device's own local pixels.
    pub local_bounds: Rect,
}

/// The index of the rectangle nearest to a point; of several equally near, the
/// first.
pub open spec fn nearest(areas: Seq<Area>, px: int, py: int) -> int
    decreases areas.len(),
{
    if areas.len() <= 1 {
        0
    } else {
        let k = nearest(areas.drop_last(), px, py);
        if areas.last().distance_sq(px, py) < areas[k].distance_sq(px, py) {
            areas.len() - 1
        } else {
            k
        }
    }
}

/// The nearest rectangle is at most as far as any other, and strictly nearer
/// than every one listed before it.
pub proof fn nearest_is_first_minimum(areas: Seq<Area>, px: int, py: int)
    requires
        areas.len() > 0,
    ensures
        0 <= nearest(areas, px, py) < areas.len(),
        forall|i: int|
            0 <= i < areas.len() ==> areas[nearest(areas, px, py)].distance_sq(px, py) <= (
            #[trigger] areas[i]).distance_sq(px, py),
        forall|i: int|
            0 <= i < nearest(areas, px, py) ==> areas[nearest(areas, px, py)].distance_sq(px, py)
                < (#[trigger] areas[i]).distance_sq(px, py),
    decreases areas.len(),
{
    if areas.len() > 1 {
        let rest = areas.drop_last();
        nearest_is_first_minimum(rest, px, py);
        assert forall|i: int| 0 <= i < rest.len() implies areas[i] == rest[i] by {}
    }
}

impl Device {
    /// Bounding box in the device's own pixels.
    pub open spec fn bounds(&self) -> Area {
        self.local_bounds@
    }

    /// The stored bounding box is that of the monitors.
    pub open spec fn wf(&self) -> bool {
        self.bounds() == bounds_area(self.displays@)
    }

    /// Bounding box in wall space.
    pub open spec fn wall_area(&self) -> Area {
        self.bounds().shifted(self.offset.0 as int, self.offset.1 as int)
    }

    /// Monitors in wall space.
    pub open spec fn wall_areas(&self) -> Seq<Area> {
        self.displays@.map_values(
            |d: Display| display_area(d).shifted(self.offset.0 as int, self.offset.1 as int),
        )
    }

    /// Whether some monitor contains the wall position.
    pub open spec fn covers_at(&self, px: int, py: int) -> bool {
        exists|i: int|
            0 <= i < self.wall_areas().len() && (#[trigger] self.wall_areas()[i]).contains(px, py)
    }

    /// The rectangle that [`Device::snap`] snaps onto.
    pub open spec fn snap_area(&self, px: int, py: int) -> Area {
        if self.displays@.len() == 0 {
            self.wall_area()
        } else {
            self.wall_areas()[nearest(self.wall_areas(), px, py)]
        }
    }

    /// The closest point on the device to a wall position.
    pub open spec fn snap_at(&self, px: int, py: int) -> (int, int) {
        self.snap_area(px, py).clamp(px, py)
    }

    /// Every rectangle that the pointer can be snapped onto has at least one
    /// pixel, and its edges in wall space are machine integers.
    pub open spec fn placed(&self) -> bool {
        if self.displays@.len() == 0 {
            self.wall_area().solid() && self.wall_area().edges_fit()
        } else {
            forall|i: int|
                0 <= i < self.wall_areas().len() ==> (#[trigger] self.wall_areas()[i]).solid()
                    && self.wall_areas()[i].edges_fit()
        }
    }

    /// Everything but the offset is the same.
    pub open spec fn same_but_offset(&self, other: Device) -> bool {
        &&& self.id == other.id
        &&& self.name == other.name
        &&& self.displays == other.displays
        &&& self.online == other.online
        &&& self.bounds() == other.bounds()
    }

    pub fn new(id: DeviceId, name: String, displays: Vec<Display>) -> (r: Self)
        requires
            bounds_area(displays@).fits(),
        ensures
            r.wf(),
            r.id == id,
            r.name == name,
            r.displays == displays,
            r.offset == (0i32, 0i32),
            r.online,
    {
        let local_bounds = bounds_of(&displays);
        Device { id, name, offset: (0, 0), displays, online: true, local_bounds }
    }

    pub fn set_displays(&mut self, displays: Vec<Display>)
        requires
            bounds_area(displays@).fits(),
        ensures
            final(self).wf(),
            final(self).displays == displays,
            final(self).id == old(self).id,
            final(self).name == old(self).name,
            final(self).offset == old(self).offset,
            final(self).online == old(self).online,
    {
        self.local_bounds = bounds_of(&displays);
        self.displays = displays;
    }

    /// Bounding box in wall space.
    pub fn wall_bounds(&self) -> (r: Rect)
        requires
            self.wall_area().fits(),
        ensures
            r@ == self.wall_area(),
    {
        Rect {
            x: self.local_bounds.x + self.offset.0,
            y: self.local_bounds.y + self.offset.1,
            w: self.local_bounds.w,
            h: self.local_bounds.h,
        }
    }

    /// Individual monitors in wall space. Used instead of the bounding box for
    /// hit-testing so an L-shaped setup does not swallow the cursor in its gap.
    pub fn wall_displays(&self) -> (r: Vec<Rect>)
        requires
            forall|i: int|
                0 <= i < self.wall_areas().len() ==> (#[trigger] self.wall_areas()[i]).fits(),
        ensures
            r@.len() == self.displays@.len(),
            forall|i: int| 0 <= i < r@.len() ==> (#[trigger] r@[i])@ == self.wall_areas()[i],
    {
        let mut out: Vec<Rect> = Vec::new();
        let mut i: usize = 0;
        while i < self.displays.len()
            invariant
                i <= self.displays@.len(),
                out@.len() == i,
                forall|k: int|
                    0 <= k < self.wall_areas().len() ==> (#[trigger] self.wall_areas()[k]).fits(),
                forall|k: int| 0 <= k < i ==> (#[trigger] out@[k])@ == self.wall_areas()[k],
            decreases self.displays@.len() - i,
        {
            let local = rect_of(&self.displays[i]);
            assert(self.wall_areas()[i as int].fits());
            out.push(
                Rect {
                    x: local.x + self.offset.0,
                    y: local.y + self.offset.1,
                    w: local.w,
                    h: local.h,
                },
            );
            i += 1;
        }
        out
    }

    pub fn covers(&self, px: i32, py: i32) -> (r: bool)
        ensures
            r == self.covers_at(px as int, py as int),
    {
        let mut i: usize = 0;
        while i < self.displays.len()
            invariant
                i <= self.displays@.len(),
                forall|k: int|
                    0 <= k < i ==> !(#[trigger] self.wall_areas()[k]).contains(px as int, py as int),
            decreases self.displays@.len() - i,
        {
            let local = rect_of(&self.displays[i]);
            let x: i64 = local.x as i64 + self.offset.0 as i64;
            let y: i64 = local.y as i64 + self.offset.1 as i64;
            assert(self.wall_areas()[i as int] == local@.shifted(
                self.offset.0 as int,
                self.offset.1 as int,
            ));
            if x <= px as i64 && (px as i64) < x + local.w as i64 && y <= py as i64 && (py as i64)
                < y + local.h as i64 {
                return true;
            }
            i += 1;
        }
        false
    }

    pub fn to_local(&self, px: i32, py: i32) -> (r: (i32, i32))
        requires
            fits(px - self.offset.0),
            fits(py - self.offset.1),
        ensures
            r.0 == px - self.offset.0,
            r.1 == py - self.offset.1,
    {
        (px - self.offset.0, py - self.offset.1)
    }

    /// Closest point on this device to a wall position, snapped onto a real
    /// monitor. Used when entering a device or recovering from a gap.
    pub fn snap(&self, px: i32, py: i32) -> (r: (i32, i32))
        requires
            self.placed(),
        ensures
            (r.0 as int, r.1 as int) == self.snap_at(px as int, py as int),
    {
        if self.displays.len() == 0 {
            return self.wall_bounds().clamp(px, py);
        }
        let ghost areas = self.wall_areas();
        assert forall|i: int| 0 <= i < areas.len() implies (#[trigger] areas[i]).fits() by {
            assert(areas[i].edges_fit());
        }
        let rects = self.wall_displays();
        let mut best: usize = 0;
        let mut best_distance = rects[0].distance_sq(px, py);
        let mut i: usize = 1;
        assert(rects@[0]@ == areas[0]);
        while i < rects.len()
            invariant
                1 <= i <= rects@.len(),
                rects@.len() == areas.len(),
                areas == self.wall_areas(),
                forall|k: int| 0 <= k < rects@.len() ==> (#[trigger] rects@[k])@ == areas[k],
                forall|k: int| 0 <= k < areas.len() ==> (#[trigger] areas[k]).solid(),
                best < i,
                best == nearest(areas.take(i as int), px as int, py as int),
                best_distance == areas[best as int].distance_sq(px as int, py as int),
            decreases rects@.len() - i,
        {
            assert(areas.take(i + 1).drop_last() =~= areas.take(i as int));
            assert(areas.take(i + 1).last() == areas[i as int]);
            assert(rects@[i as int]@ == areas[i as int]);
            let distance = rects[i].distance_sq(px, py);
            if distance < best_distance {
                best = i;
                best_distance = distance;
            }
            i += 1;
        }
        assert(areas.take(areas.len() as int) =~= areas);
        rects[best].clamp(px, py)
    }

    /// Whether [`Device::snap`] may be asked about this device.
    pub fn is_placed(&self) -> (r: bool)
        ensures
            r == self.placed(),
    {
        if self.displays.len() == 0 {
            let x: i64 = self.local_bounds.x as i64 + self.offset.0 as i64;
            let y: i64 = self.local_bounds.y as i64 + self.offset.1 as i64;
            return rect_is_placed(x, y, self.local_bounds.w, self.local_bounds.h);
        }
        let mut i: usize = 0;
        while i < self.displays.len()
            invariant
                i <= self.displays@.len(),
                self.displays@.len() > 0,
                forall|k: int|
                    0 <= k < i ==> (#[trigger] self.wall_areas()[k]).solid()
                        && self.wall_areas()[k].edges_fit(),
            decreases self.displays@.len() - i,
        {
            let local = rect_of(&self.displays[i]);
            let x: i64 = local.x as i64 + self.offset.0 as i64;
            let y: i64 = local.y as i64 + self.offset.1 as i64;
            assert(self.wall_areas()[i as int] == local@.shifted(
                self.offset.0 as int,
                self.offset.1 as int,
            ));
            if !rect_is_placed(x, y, local.w, local.h) {
                return false;
            }
            i += 1;
        }
        true
    }
}

fn rect_is_placed(x: i64, y: i64, w: i32, h: i32) -> (r: bool)
    requires
        -0x1_0000_0000 <= x <= 0x1_0000_0000,
        -0x1_0000_0000 <= y <= 0x1_0000_0000,
    ensures
        r == ({
            let area = Area { x: x as int, y: y as int, w: w as int, h: h as int };
            area.solid() && area.edges_fit()
        }),
{
    let lo: i64 = i32::MIN as i64;
    let hi: i64 = i32::MAX as i64;
    w >= 1 && h >= 1 && lo <= x && x + w as i64 <= hi && lo <= y && y + h as i64 <= hi
}

/// Plain view of the wall, for the layout editor in the UI.
#[derive(Debug)]
pub struct LayoutView {
    pub devices: Vec<LayoutDevice>,
    /// Hex id of the device that currently owns the pointer.
    pub owner: String,
}

#[derive(Debug)]
pub struct LayoutDevice {
    pub id: String,
    pub name: String,
    pub is_host: bool,
    pub connected: bool,
    pub x: i32,
    pub y: i32,
    pub width: i32,
    pub height: i32,
    pub displays: Vec<Display>,
}

/// The set of devices sharing one pointer, plus who currently owns it.
#[derive(Debug)]
pub struct Wall {
    pub devices: Vec<Device>,
    /// Index into `devices`; the host is always index 0.
    pub owner: usize,
    /// Current pointer position in wall space.
    pub cursor: (i32, i32),
    /// While set, the pointer cannot leave the device that owns it. The host
    /// sets this during a drag: letting go of a mouse button on a different
    /// machine from where it was pressed is never what the user meant.
    pub locked: bool,
}

/// What the host should do after feeding motion into the wall.
#[derive(Debug, PartialEq, Eq, Structural)]
pub enum Motion {
    /// Pointer stayed on the host; let the real cursor move normally.
    Local { x: i32, y: i32 },
    /// Pointer stayed on the same remote device.
    Remote { device: usize, x: i32, y: i32 },
    /// Pointer crossed onto a different device.
    Switch { device: usize, x: i32, y: i32 },
}

/// The first device, from index `i` on, that is online and has a monitor under
/// the wall position.
pub open spec fn first_covering(devices: Seq<Device>, i: int, px: int, py: int) -> Option<int>
    decreases devices.len() - i,
{
    if i < 0 || i >= devices.len() {
        None
    } else if devices[i].online && devices[i].covers_at(px, py) {
        Some(i)
    } else {
        first_covering(devices, i + 1, px, py)
    }
}

/// The index, from `i` on, of the first device with this id.
pub open spec fn index_from(devices: Seq<Device>, i: int, id: Seq<u8>) -> Option<int>
    decreases devices.len() - i,
{
    if i < 0 || i >= devices.len() {
        None
    } else if devices[i].id@ == id {
        Some(i)
    } else {
        index_from(devices, i + 1, id)
    }
}

/// The index, from `i` on, of the first device with this hexadecimal id.
pub open spec fn hex_from(devices: Seq<Device>, i: int, id: Seq<char>) -> Option<int>
    decreases devices.len() - i,
{
    if i < 0 || i >= devices.len() {
        None
    } else if protocol::hex_of(devices[i].id@) == id {
        Some(i)
    } else {
        hex_from(devices, i + 1, id)
    }
}

/// The bounding boxes of all devices, in wall space.
pub open spec fn wall_boxes(devices: Seq<Device>) -> Seq<Area> {
    devices.map_values(|d: Device| d.wall_area())
}

/// Where a new device with these local bounds goes: against the right edge of
/// everything placed so far, and vertically centred on the host.
pub open spec fn free_offset(devices: Seq<Device>, incoming: Area) -> (int, int) {
    let host = devices[0].wall_area();
    (
        union_all(wall_boxes(devices)).right() + AUTO_GAP - incoming.x,
        host.y + half(host.h - incoming.h) - incoming.y,
    )
}

/// The left edge of device `i` in the default row: right of the host and of
/// every device before it.
pub open spec fn row_x(devices: Seq<Device>, i: int) -> int
    decreases i,
{
    if i <= 1 {
        devices[0].wall_area().right() + AUTO_GAP
    } else {
        row_x(devices, i - 1) + devices[i - 1].bounds().w + AUTO_GAP
    }
}

/// The offset of device `i` in the default row.
pub open spec fn row_offset(devices: Seq<Device>, i: int) -> (int, int) {
    let host = devices[0].wall_area();
    let local = devices[i].bounds();
    (row_x(devices, i) - local.x, host.y + half(host.h - local.h) - local.y)
}

/// The horizontal shifts that would line box `idx` up with one of the first `n`
/// others: butted against either of their vertical edges, or aligned with their
/// left edge.
pub open spec fn shifts_x(boxes: Seq<Area>, idx: int, n: int) -> Seq<int>
    decreases n,
{
    if n <= 0 {
        seq![]
    } else if n - 1 == idx {
        shifts_x(boxes, idx, n - 1)
    } else {
        let theirs = boxes[n - 1];
        let mine = boxes[idx];
        shifts_x(boxes, idx, n - 1).push(theirs.right() - mine.x).push(
            theirs.x - mine.right(),
        ).push(theirs.x - mine.x)
    }
}

/// The vertical counterpart of [`shifts_x`].
pub open spec fn shifts_y(boxes: Seq<Area>, idx: int, n: int) -> Seq<int>
    decreases n,
{
    if n <= 0 {
        seq![]
    } else if n - 1 == idx {
        shifts_y(boxes, idx, n - 1)
    } else {
        let theirs = boxes[n - 1];
        let mine = boxes[idx];
        shifts_y(boxes, idx, n - 1).push(theirs.bottom() - mine.y).push(
            theirs.y - mine.bottom(),
        ).push(theirs.y - mine.y)
    }
}

/// `best`, or `shift` if it is within the threshold and strictly smaller.
pub open spec fn better(best: Option<int>, shift: int, threshold: int) -> Option<int> {
    if abs_of(shift) <= threshold && (best is None || abs_of(shift) < abs_of(best->0)) {
        Some(shift)
    } else {
        best
    }
}

/// The smallest shift within the threshold; of several equally small, the
/// first.
pub open spec fn best_shift(shifts: Seq<int>, threshold: int) -> Option<int>
    decreases shifts.len(),
{
    if shifts.len() == 0 {
        None
    } else {
        better(best_shift(shifts.drop_last(), threshold), shifts.last(), threshold)
    }
}

pub open spec fn or_zero(shift: Option<int>) -> int {
    match shift {
        Some(n) => n,
        None => 0,
    }
}

/// Box `idx` after it has been snapped to its neighbours, each axis on its own.
pub open spec fn snapped_box(boxes: Seq<Area>, idx: int, threshold: int) -> Area {
    boxes[idx].shifted(
        or_zero(best_shift(shifts_x(boxes, idx, boxes.len() as int), threshold)),
        or_zero(best_shift(shifts_y(boxes, idx, boxes.len() as int), threshold)),
    )
}

/// All boxes after those before index `k`, except the host's, have been snapped
/// in turn.
pub open spec fn snapped_boxes(boxes: Seq<Area>, k: int, threshold: int) -> Seq<Area>
    decreases k,
{
    if k <= 1 {
        boxes
    } else {
        let before = snapped_boxes(boxes, k - 1, threshold);
        before.update(k - 1, snapped_box(before, k - 1, threshold))
    }
}

/// How one device is shown in the layout editor.
pub open spec fn shows(v: LayoutDevice, d: Device, is_host: bool) -> bool {
    &&& v.id@ == protocol::hex_of(d.id@)
    &&& v.name@ == d.name@
    &&& v.is_host == is_host
    &&& v.connected == (is_host || d.online)
    &&& v.x == d.wall_area().x
    &&& v.y == d.wall_area().y
    &&& v.width == d.wall_area().w
    &&& v.height == d.wall_area().h
    &&& v.displays@ == d.displays@
}

fn consider(best: Option<i64>, shift: i64, threshold: i32) -> (r: Option<i64>)
    requires
        -0x10_0000_0000 <= shift <= 0x10_0000_0000,
        best is Some ==> -0x8000_0000 <= best->0 <= 0x8000_0000,
    ensures
        wide(r) == better(wide(best), shift as int, threshold as int),
        r is Some ==> -0x8000_0000 <= r->0 <= 0x8000_0000,
{
    let within = abs_wide(shift) <= threshold as i64;
    match best {
        None => if within {
            Some(shift)
        } else {
            best
        },
        Some(b) => if within && abs_wide(shift) < abs_wide(b) {
            Some(shift)
        } else {
            best
        },
    }
}

pub open spec fn wide(o: Option<i64>) -> Option<int> {
    match o {
        Some(n) => Some(n as int),
        None => None,
    }
}

proof fn best_shift_three(before: Seq<int>, a: int, b: int, c: int, threshold: int)
    ensures
        best_shift(before.push(a).push(b).push(c), threshold) == better(
            better(better(best_shift(before, threshold), a, threshold), b, threshold),
            c,
            threshold,
        ),
{
    let one = before.push(a);
    let two = one.push(b);
    let three = two.push(c);
    assert(one.drop_last() =~= before);
    assert(two.drop_last() =~= one);
    assert(three.drop_last() =~= two);
    assert(best_shift(one, threshold) == better(best_shift(before, threshold), a, threshold));
    assert(best_shift(two, threshold) == better(best_shift(one, threshold), b, threshold));
}

proof fn best_shift_within(shifts: Seq<int>, threshold: int)
    ensures
        best_shift(shifts, threshold) is Some ==> abs_of(best_shift(shifts, threshold)->0)
            <= threshold,
    decreases shifts.len(),
{
    if shifts.len() > 0 {
        best_shift_within(shifts.drop_last(), threshold);
    }
}

/// A rectangle with room to be moved about in.
struct Wide {
    x: i64,
    y: i64,
    w: i64,
    h: i64,
}

impl View for Wide {
    type V = Area;

    closed spec fn view(&self) -> Area {
        Area { x: self.x as int, y: self.y as int, w: self.w as int, h: self.h as int }
    }
}

impl Wide {
    /// The place of a device as it is stored.
    spec fn untouched(&self) -> bool {
        &&& -0x1_0000_0000 <= self.x <= 0x1_0000_0000
        &&& -0x1_0000_0000 <= self.y <= 0x1_0000_0000
        &&& -0x8000_0000 <= self.w <= 0x8000_0000
        &&& -0x8000_0000 <= self.h <= 0x8000_0000
    }

    /// At most one shift away from such a place.
    spec fn tame(&self) -> bool {
        &&& -0x1_8000_0000 <= self.x <= 0x1_8000_0000
        &&& -0x1_8000_0000 <= self.y <= 0x1_8000_0000
        &&& -0x8000_0000 <= self.w <= 0x8000_0000
        &&& -0x8000_0000 <= self.h <= 0x8000_0000
    }
}

spec fn wide_areas(boxes: Seq<Wide>) -> Seq<Area> {
    boxes.map_values(|b: Wide| b@)
}

/// The shift on each axis that lines box `idx` up with its neighbours; zero
/// where none is within the threshold.
fn best_shifts(boxes: &Vec<Wide>, idx: usize, threshold: i32) -> (r: (i64, i64))
    requires
        idx < boxes@.len(),
        forall|k: int| 0 <= k < boxes@.len() ==> (#[trigger] boxes@[k]).tame(),
    ensures
        ({
            let areas = wide_areas(boxes@);
            let n = areas.len() as int;
            &&& r.0 == or_zero(best_shift(shifts_x(areas, idx as int, n), threshold as int))
            &&& r.1 == or_zero(best_shift(shifts_y(areas, idx as int, n), threshold as int))
        }),
        -0x8000_0000 <= r.0 <= 0x8000_0000,
        -0x8000_0000 <= r.1 <= 0x8000_0000,
{
    let ghost areas = wide_areas(boxes@);
    let mine = &boxes[idx];
    let mut best_dx: Option<i64> = None;
    let mut best_dy: Option<i64> = None;
    let mut i: usize = 0;
    while i < boxes.len()
        invariant
            i <= boxes@.len(),
            idx < boxes@.len(),
            *mine == boxes@[idx as int],
            areas == wide_areas(boxes@),
            forall|k: int| 0 <= k < boxes@.len() ==> (#[trigger] boxes@[k]).tame(),
            best_dx is Some ==> -0x8000_0000 <= best_dx->0 <= 0x8000_0000,
            best_dy is Some ==> -0x8000_0000 <= best_dy->0 <= 0x8000_0000,
            wide(best_dx) == best_shift(shifts_x(areas, idx as int, i as int), threshold as int),
            wide(best_dy) == best_shift(shifts_y(areas, idx as int, i as int), threshold as int),
        decreases boxes@.len() - i,
    {
        if i != idx {
            let theirs = &boxes[i];
            assert(boxes@[i as int].tame());
            assert(boxes@[idx as int].tame());
            assert(areas[i as int] == theirs@);
            assert(areas[idx as int] == mine@);
            let to_right: i64 = theirs.x + theirs.w - mine.x;
            let to_left: i64 = theirs.x - (mine.x + mine.w);
            let level_x: i64 = theirs.x - mine.x;
            let to_bottom: i64 = theirs.y + theirs.h - mine.y;
            let to_top: i64 = theirs.y - (mine.y + mine.h);
            let level_y: i64 = theirs.y - mine.y;
            proof {
                best_shift_three(
                    shifts_x(areas, idx as int, i as int),
                    to_right as int,
                    to_left as int,
                    level_x as int,
                    threshold as int,
                );
                best_shift_three(
                    shifts_y(areas, idx as int, i as int),
                    to_bottom as int,
                    to_top as int,
                    level_y as int,
                    threshold as int,
                );
            }
            // Butt against either of their vertical edges, or line up with
            // their left edge for a device sitting above or below.
            best_dx = consider(best_dx, to_right, threshold);
            best_dx = consider(best_dx, to_left, threshold);
            best_dx = consider(best_dx, level_x, threshold);
            best_dy = consider(best_dy, to_bottom, threshold);
            best_dy = consider(best_dy, to_top, threshold);
            best_dy = consider(best_dy, level_y, threshold);
        }
        i += 1;
    }
    (best_dx.unwrap_or(0), best_dy.unwrap_or(0))
}

/// A device whose monitors changed and nothing else.
pub open spec fn is_redisplayed(after: Device, before: Device, displays: Seq<Display>) -> bool {
    &&& after.wf()
    &&& after.id == before.id
    &&& after.name == before.name
    &&& after.offset == before.offset
    &&& after.online == before.online
    &&& after.displays@ == displays
}

/// Walls whose devices have the same ids, one for one, are alike in whether an id
/// occurs twice.
proof fn same_ids_stay_distinct(before: Wall, after: Wall)
    requires
        before.distinct_ids(),
        after.devices@.len() == before.devices@.len(),
        forall|i: int|
            0 <= i < before.devices@.len() ==> (#[trigger] after.devices@[i]).id
                == before.devices@[i].id,
    ensures
        after.distinct_ids(),
{
    assert forall|i: int, j: int| 0 <= i < j < after.devices@.len() implies (
    #[trigger] after.devices@[i]).id@ != (#[trigger] after.devices@[j]).id@ by {
        assert(before.devices@[i].id@ != before.devices@[j].id@);
    }
}

impl Wall {
    /// There is a host, the owner is one of the devices, and every stored
    /// bounding box is that of its device's monitors.
    pub open spec fn wf(&self) -> bool {
        &&& self.devices@.len() >= 1
        &&& self.owner < self.devices@.len()
        &&& forall|i: int| 0 <= i < self.devices@.len() ==> (#[trigger] self.devices@[i]).wf()
    }

    /// No two devices share an id.
    pub open spec fn distinct_ids(&self) -> bool {
        forall|i: int, j: int|
            0 <= i < j < self.devices@.len() ==> (#[trigger] self.devices@[i]).id@ != (
            #[trigger] self.devices@[j]).id@
    }

    /// The pointer is on the host or on a device that can hear about it.
    pub open spec fn owner_reachable(&self) -> bool {
        self.owner == 0 || self.devices@[self.owner as int].online
    }

    /// Where the pointer is on the device that owns it.
    pub open spec fn local_of(&self, device: int, at: (int, int)) -> (int, int) {
        let offset = self.devices@[device].offset;
        (at.0 - offset.0, at.1 - offset.1)
    }

    /// The device under a wall position, unless a drag pins the pointer.
    pub open spec fn crossing(&self, px: int, py: int) -> Option<int> {
        if self.locked {
            None
        } else {
            first_covering(self.devices@, 0, px, py)
        }
    }

    /// The device that owns the pointer after it was pushed to a wall position.
    pub open spec fn target(&self, px: int, py: int) -> int {
        match self.crossing(px, py) {
            Some(i) => i,
            None => self.owner as int,
        }
    }

    /// Where the pointer ends up after it was pushed to a wall position.
    pub open spec fn landing(&self, px: int, py: int) -> (int, int) {
        match self.crossing(px, py) {
            Some(i) => (px, py),
            None => self.devices@[self.owner as int].snap_at(px, py),
        }
    }

    pub fn new(host: Device) -> (r: Self)
        requires
            host.wf(),
            host.placed(),
        ensures
            r.wf(),
            r.devices@ == seq![host],
            r.owner == 0,
            (r.cursor.0 as int, r.cursor.1 as int) == host.snap_at(0, 0),
            !r.locked,
    {
        let cursor = host.snap(0, 0);
        let mut devices: Vec<Device> = Vec::new();
        devices.push(host);
        assert(devices@ =~= seq![host]);
        Wall { devices, owner: 0, cursor, locked: false }
    }

    pub fn host(&self) -> (r: &Device)
        requires
            self.wf(),
        ensures
            *r == self.devices@[0],
    {
        &self.devices[0]
    }

    pub fn owner(&self) -> (r: usize)
        ensures
            r == self.owner,
    {
        self.owner
    }

    pub fn is_local(&self) -> (r: bool)
        ensures
            r == (self.owner == 0),
    {
        self.owner == 0
    }

    pub fn index_of(&self, id: &DeviceId) -> (r: Option<usize>)
        ensures
            r is Some <==> index_from(self.devices@, 0, id@) is Some,
            r is Some ==> r->0 == index_from(self.devices@, 0, id@)->0 && r->0
                < self.devices@.len() && self.devices@[r->0 as int].id@ == id@,
    {
        let mut i: usize = 0;
        while i < self.devices.len()
            invariant
                i <= self.devices@.len(),
                index_from(self.devices@, 0, id@) == index_from(self.devices@, i as int, id@),
            decreases self.devices@.len() - i,
        {
            if protocol::same_id(&self.devices[i].id, id) {
                return Some(i);
            }
            i += 1;
        }
        None
    }

    /// The device with this hexadecimal id.
    pub fn index_of_hex(&self, id: &str) -> (r: Option<usize>)
        ensures
            r is Some <==> hex_from(self.devices@, 0, id@) is Some,
            r is Some ==> r->0 == hex_from(self.devices@, 0, id@)->0 && r->0
                < self.devices@.len() && protocol::hex_of(self.devices@[r->0 as int].id@) == id@,
    {
        let mut i: usize = 0;
        while i < self.devices.len()
            invariant
                i <= self.devices@.len(),
                hex_from(self.devices@, 0, id@) == hex_from(self.devices@, i as int, id@),
            decreases self.devices@.len() - i,
        {
            if *protocol::id_to_hex(&self.devices[i].id).as_str() == *id {
                return Some(i);
            }
            i += 1;
        }
        None
    }

    /// Adds a device, or refreshes an existing one, and returns its index.
    /// A device that was placed before keeps its offset across reconnects.
    pub fn upsert(&mut self, id: DeviceId, name: String, displays: Vec<Display>) -> (r: usize)
        requires
            old(self).wf(),
            old(self).can_upsert(id@, displays@),
        ensures
            final(self).wf(),
            final(self).owner == old(self).owner,
            final(self).cursor == old(self).cursor,
            final(self).locked == old(self).locked,
            r < final(self).devices@.len(),
            final(self).devices@[r as int].id@ == id@,
            final(self).devices@[r as int].name@ == name@,
            final(self).devices@[r as int].displays@ == displays@,
            final(self).devices@[r as int].online,
            old(self).owner_reachable() ==> final(self).owner_reachable(),
            old(self).distinct_ids() ==> final(self).distinct_ids(),
            forall|i: int|
                0 <= i < old(self).devices@.len() && i != r ==> #[trigger] final(self).devices@[i]
                    == old(self).devices@[i],
            match index_from(old(self).devices@, 0, id@) {
                Some(i) => {
                    &&& r == i
                    &&& final(self).devices@.len() == old(self).devices@.len()
                    &&& final(self).devices@[i].offset == old(self).devices@[i].offset
                },
                None => {
                    let offset = free_offset(old(self).devices@, bounds_area(displays@));
                    &&& r == old(self).devices@.len()
                    &&& final(self).devices@.len() == old(self).devices@.len() + 1
                    &&& final(self).devices@[r as int].offset == (offset.0 as i32, offset.1 as i32)
                },
            },
    {
        if let Some(idx) = self.index_of(&id) {
            let device = &mut self.devices[idx];
            device.name = name;
            device.online = true;
            device.set_displays(displays);
            return idx;
        }
        proof {
            index_from_is_first(self.devices@, 0, id@);
        }
        let mut device = Device::new(id, name, displays);
        let at = self.next_free_offset(device.local_bounds);
        device.offset = (at.0 as i32, at.1 as i32);
        self.devices.push(device);
        self.devices.len() - 1
    }

    /// Marks a device connected or not. A device that goes offline while it owns
    /// the pointer hands it straight back, so a client dropping off the WiFi
    /// cannot take the keyboard with it.
    pub fn set_online(&mut self, idx: usize, online: bool)
        requires
            old(self).wf(),
            idx != 0 && idx == old(self).owner && !online ==> old(self).devices@[0].placed(),
        ensures
            final(self).wf(),
            old(self).owner_reachable() ==> final(self).owner_reachable(),
            old(self).distinct_ids() ==> final(self).distinct_ids(),
            final(self).devices@.len() == old(self).devices@.len(),
            forall|i: int|
                0 <= i < old(self).devices@.len() && i != idx ==> #[trigger] final(self).devices@[i]
                    == old(self).devices@[i],
            idx == 0 ==> *final(self) == *old(self),
            idx >= old(self).devices@.len() ==> *final(self) == *old(self),
            0 < idx < old(self).devices@.len() ==> {
                &&& final(self).devices@ == old(self).devices@.update(
                    idx as int,
                    (Device { online, ..old(self).devices@[idx as int] }),
                )
                &&& if !online && old(self).owner == idx {
                    &&& final(self).owner == 0
                    &&& !final(self).locked
                    &&& (final(self).cursor.0 as int, final(self).cursor.1 as int) == old(
                        self).devices@[0].snap_at(
                        old(self).cursor.0 as int,
                        old(self).cursor.1 as int,
                    )
                } else {
                    &&& final(self).owner == old(self).owner
                    &&& final(self).locked == old(self).locked
                    &&& final(self).cursor == old(self).cursor
                }
            },
    {
        if idx == 0 || idx >= self.devices.len() {
            return;
        }
        self.devices[idx].online = online;
        if !online && self.owner == idx {
            self.take_local();
        }
        proof {
            if old(self).distinct_ids() {
                same_ids_stay_distinct(*old(self), *self);
            }
        }
    }

    /// Places a new device immediately to the right of everything placed so
    /// far, vertically centred against the host: the arrangement people
    /// expect before they drag anything.
    fn next_free_offset(&self, incoming: Rect) -> (r: (i64, i64))
        requires
            self.wf(),
        ensures
            r.0 == free_offset(self.devices@, incoming@).0,
            r.1 == free_offset(self.devices@, incoming@).1,
    {
        let ghost boxes = wall_boxes(self.devices@);
        let host = &self.devices[0];
        let mut right: i64 = host.local_bounds.x as i64 + host.offset.0 as i64
            + host.local_bounds.w as i64;
        let mut i: usize = 1;
        assert(boxes.take(1)[0] == host.wall_area());
        while i < self.devices.len()
            invariant
                1 <= i <= self.devices@.len(),
                boxes == wall_boxes(self.devices@),
                right == union_all(boxes.take(i as int)).right(),
                -0x2_0000_0000 <= right <= 0x2_0000_0000,
            decreases self.devices@.len() - i,
        {
            let d = &self.devices[i];
            right = max_wide(
                right,
                d.local_bounds.x as i64 + d.offset.0 as i64 + d.local_bounds.w as i64,
            );
            assert(boxes.take(i + 1).drop_last() =~= boxes.take(i as int));
            assert(boxes.take(i + 1).last() == d.wall_area());
            i += 1;
        }
        assert(boxes.take(boxes.len() as int) =~= boxes);
        let host_y: i64 = host.local_bounds.y as i64 + host.offset.1 as i64;
        let x: i64 = right + AUTO_GAP as i64 - incoming.x as i64;
        let y: i64 = host_y + half_wide(host.local_bounds.h as i64 - incoming.h as i64)
            - incoming.y as i64;
        (x, y)
    }

    /// There is room on the wall for a device with this id and these monitors.
    pub open spec fn can_upsert(&self, id: Seq<u8>, displays: Seq<Display>) -> bool {
        &&& bounds_area(displays).fits()
        &&& index_from(self.devices@, 0, id) is None ==> {
            let offset = free_offset(self.devices@, bounds_area(displays));
            fits(offset.0) && fits(offset.1)
        }
    }

    /// Whether [`Wall::upsert`] may be called with this id and these monitors.
    pub fn may_upsert(&self, id: &DeviceId, displays: &Vec<Display>) -> (r: bool)
        requires
            self.wf(),
        ensures
            r == self.can_upsert(id@, displays@),
    {
        if !bounds_fit(displays) {
            return false;
        }
        if self.index_of(id).is_some() {
            return true;
        }
        let at = self.next_free_offset(bounds_of(displays));
        in_range(at.0) && in_range(at.1)
    }

    pub fn remove(&mut self, idx: usize)
        requires
            old(self).wf(),
            idx != 0 && idx == old(self).owner ==> old(self).devices@[0].placed(),
        ensures
            final(self).wf(),
            old(self).owner_reachable() ==> final(self).owner_reachable(),
            old(self).distinct_ids() ==> final(self).distinct_ids(),
            idx == 0 || idx >= old(self).devices@.len() ==> *final(self) == *old(self),
            0 < idx < old(self).devices@.len() ==> {
                &&& final(self).devices@ == old(self).devices@.remove(idx as int)
                &&& if old(self).owner == idx {
                    &&& final(self).owner == 0
                    &&& !final(self).locked
                    &&& (final(self).cursor.0 as int, final(self).cursor.1 as int) == old(
                        self).devices@[0].snap_at(
                        old(self).cursor.0 as int,
                        old(self).cursor.1 as int,
                    )
                } else {
                    &&& final(self).owner == if old(self).owner > idx {
                        old(self).owner - 1
                    } else {
                        old(self).owner as int
                    }
                    &&& final(self).locked == old(self).locked
                    &&& final(self).cursor == old(self).cursor
                }
            },
    {
        if idx == 0 || idx >= self.devices.len() {
            return;
        }
        let ghost before = self.devices@;
        let _ = self.devices.remove(idx);
        assert forall|i: int| 0 <= i < self.devices@.len() implies (
        #[trigger] self.devices@[i]).wf() by {
            assert(self.devices@[i] == before[if i < idx {
                i
            } else {
                i + 1
            }]);
        }
        proof {
            if old(self).distinct_ids() {
                assert forall|i: int, j: int| 0 <= i < j < self.devices@.len() implies (
                #[trigger] self.devices@[i]).id@ != (#[trigger] self.devices@[j]).id@ by {
                    let a = if i < idx {
                        i
                    } else {
                        i + 1
                    };
                    let b = if j < idx {
                        j
                    } else {
                        j + 1
                    };
                    assert(before[a].id@ != before[b].id@);
                }
            }
        }
        if self.owner == idx {
            // Whoever had the pointer just went away; take it back.
            self.owner = 0;
            self.take_local();
        } else if self.owner > idx {
            self.owner = self.owner - 1;
        }
    }

    pub fn set_offset(&mut self, idx: usize, x: i32, y: i32)
        ensures
            final(self).owner == old(self).owner,
            final(self).cursor == old(self).cursor,
            final(self).locked == old(self).locked,
            idx >= old(self).devices@.len() ==> final(self).devices@ == old(self).devices@,
            idx < old(self).devices@.len() ==> final(self).devices@ == old(self).devices@.update(
                idx as int,
                (Device { offset: (x, y), ..old(self).devices@[idx as int] }),
            ),
            old(self).wf() ==> final(self).wf(),
            old(self).wf() && old(self).owner_reachable() ==> final(self).owner_reachable(),
            old(self).distinct_ids() ==> final(self).distinct_ids(),
    {
        if idx < self.devices.len() {
            self.devices[idx].offset = (x, y);
        }
        proof {
            if old(self).distinct_ids() {
                same_ids_stay_distinct(*old(self), *self);
            }
        }
    }

    /// Replaces the monitors of one device.
    pub fn set_displays(&mut self, idx: usize, displays: Vec<Display>)
        requires
            old(self).wf(),
            idx < old(self).devices@.len(),
            bounds_area(displays@).fits(),
        ensures
            final(self).wf(),
            final(self).owner == old(self).owner,
            final(self).cursor == old(self).cursor,
            final(self).locked == old(self).locked,
            final(self).devices@.len() == old(self).devices@.len(),
            is_redisplayed(
                final(self).devices@[idx as int],
                old(self).devices@[idx as int],
                displays@,
            ),
            forall|i: int|
                0 <= i < old(self).devices@.len() && i != idx ==> #[trigger] final(self).devices@[i]
                    == old(self).devices@[i],
            old(self).owner_reachable() ==> final(self).owner_reachable(),
            old(self).distinct_ids() ==> final(self).distinct_ids(),
    {
        self.devices[idx].set_displays(displays);
        proof {
            if old(self).distinct_ids() {
                same_ids_stay_distinct(*old(self), *self);
            }
        }
    }

    /// Re-runs the default left-to-right arrangement for every non-host device.
    pub fn auto_arrange(&mut self)
        requires
            old(self).wf(),
            forall|i: int|
                1 <= i < old(self).devices@.len() ==> fits(
                    (#[trigger] row_offset(old(self).devices@, i)).0,
                ) && fits(row_offset(old(self).devices@, i).1),
        ensures
            final(self).wf(),
            final(self).owner == old(self).owner,
            final(self).cursor == old(self).cursor,
            final(self).locked == old(self).locked,
            final(self).devices@.len() == old(self).devices@.len(),
            final(self).devices@[0] == old(self).devices@[0],
            forall|i: int|
                1 <= i < old(self).devices@.len() ==> {
                    &&& (#[trigger] final(self).devices@[i]).same_but_offset(old(self).devices@[i])
                    &&& final(self).devices@[i].offset.0 == row_offset(old(self).devices@, i).0
                    &&& final(self).devices@[i].offset.1 == row_offset(old(self).devices@, i).1
                },
            old(self).owner_reachable() ==> final(self).owner_reachable(),
            old(self).distinct_ids() ==> final(self).distinct_ids(),
    {
        let ghost start = self.devices@;
        let host = &self.devices[0];
        let host_y: i64 = host.local_bounds.y as i64 + host.offset.1 as i64;
        let host_h: i64 = host.local_bounds.h as i64;
        let mut cursor_x: i64 = host.local_bounds.x as i64 + host.offset.0 as i64
            + host.local_bounds.w as i64 + AUTO_GAP as i64;
        let mut idx: usize = 1;
        while idx < self.devices.len()
            invariant
                1 <= idx <= self.devices@.len(),
                self.devices@.len() == start.len(),
                start == old(self).devices@,
                old(self).wf(),
                self.owner == old(self).owner,
                self.cursor == old(self).cursor,
                self.locked == old(self).locked,
                host_y == start[0].wall_area().y,
                host_h == start[0].wall_area().h,
                cursor_x == row_x(start, idx as int),
                -0x2_0000_0000 <= cursor_x <= 0x2_0000_0000,
                forall|i: int|
                    1 <= i < start.len() ==> fits((#[trigger] row_offset(start, i)).0) && fits(
                        row_offset(start, i).1,
                    ),
                forall|i: int|
                    idx <= i < start.len() || i == 0 ==> #[trigger] self.devices@[i] == start[i],
                forall|i: int|
                    1 <= i < idx ==> {
                        &&& (#[trigger] self.devices@[i]).same_but_offset(start[i])
                        &&& self.devices@[i].offset.0 == row_offset(start, i).0
                        &&& self.devices@[i].offset.1 == row_offset(start, i).1
                    },
            decreases self.devices@.len() - idx,
        {
            let local = self.devices[idx].local_bounds;
            assert(self.devices@[idx as int] == start[idx as int]);
            let x: i64 = cursor_x - local.x as i64;
            let y: i64 = host_y + half_wide(host_h - local.h as i64) - local.y as i64;
            assert(x == row_offset(start, idx as int).0);
            assert(y == row_offset(start, idx as int).1);
            self.devices[idx].offset = (x as i32, y as i32);
            cursor_x = cursor_x + local.w as i64 + AUTO_GAP as i64;
            idx += 1;
        }
        assert forall|i: int| 0 <= i < self.devices@.len() implies (
        #[trigger] self.devices@[i]).wf() by {
            assert(start[i].wf());
        }
        proof {
            if old(self).distinct_ids() {
                same_ids_stay_distinct(*old(self), *self);
            }
        }
    }

    /// Whether [`Wall::auto_arrange`] may be called.
    pub fn may_arrange(&self) -> (r: bool)
        requires
            self.wf(),
        ensures
            r == (forall|i: int|
                1 <= i < self.devices@.len() ==> fits(
                    (#[trigger] row_offset(self.devices@, i)).0,
                ) && fits(row_offset(self.devices@, i).1)),
    {
        let host = &self.devices[0];
        let host_y: i64 = host.local_bounds.y as i64 + host.offset.1 as i64;
        let host_h: i64 = host.local_bounds.h as i64;
        let mut cursor_x: i64 = host.local_bounds.x as i64 + host.offset.0 as i64
            + host.local_bounds.w as i64 + AUTO_GAP as i64;
        let mut idx: usize = 1;
        while idx < self.devices.len()
            invariant
                1 <= idx <= self.devices@.len(),
                host_y == self.devices@[0].wall_area().y,
                host_h == self.devices@[0].wall_area().h,
                cursor_x == row_x(self.devices@, idx as int),
                -0x2_0000_0000 <= cursor_x <= 0x2_0000_0000,
                forall|i: int|
                    1 <= i < idx ==> fits((#[trigger] row_offset(self.devices@, i)).0) && fits(
                        row_offset(self.devices@, i).1,
                    ),
            decreases self.devices@.len() - idx,
        {
            let local = self.devices[idx].local_bounds;
            let x: i64 = cursor_x - local.x as i64;
            let y: i64 = host_y + half_wide(host_h - local.h as i64) - local.y as i64;
            assert(x == row_offset(self.devices@, idx as int).0);
            assert(y == row_offset(self.devices@, idx as int).1);
            if !in_range(x) || !in_range(y) {
                return false;
            }
            cursor_x = cursor_x + local.w as i64 + AUTO_GAP as i64;
            idx += 1;
        }
        true
    }

    /// Whether [`Wall::view`] may be called.
    pub fn may_view(&self) -> (r: bool)
        ensures
            r == (forall|i: int|
                0 <= i < self.devices@.len() ==> (#[trigger] self.devices@[i]).wall_area().fits()),
    {
        let mut i: usize = 0;
        while i < self.devices.len()
            invariant
                i <= self.devices@.len(),
                forall|k: int|
                    0 <= k < i ==> (#[trigger] self.devices@[k]).wall_area().fits(),
            decreases self.devices@.len() - i,
        {
            let d = &self.devices[i];
            if !in_range(d.local_bounds.x as i64 + d.offset.0 as i64) || !in_range(
                d.local_bounds.y as i64 + d.offset.1 as i64,
            ) {
                assert(!self.devices@[i as int].wall_area().fits());
                return false;
            }
            i += 1;
        }
        true
    }

    /// Snaps every device's edges to nearby neighbours so dragging in the UI
    /// still produces a seamless wall.
    ///
    /// The two axes are resolved independently. A device dropped roughly to the
    /// right of another one usually wants both: its left edge against the
    /// neighbour's right edge, and its top edge lined up with the neighbour's.
    /// Picking a single best shift would do one and leave the other a few pixels
    /// out, which is exactly the gap the pointer cannot cross.
    pub fn snap_edges(&mut self, threshold: i32)
        requires
            old(self).wf(),
            forall|i: int|
                1 <= i < old(self).devices@.len() ==> fits(
                    (#[trigger] snapped_offset(old(self).devices@, i, threshold as int)).0,
                ) && fits(snapped_offset(old(self).devices@, i, threshold as int).1),
        ensures
            final(self).wf(),
            final(self).owner == old(self).owner,
            final(self).cursor == old(self).cursor,
            final(self).locked == old(self).locked,
            final(self).devices@.len() == old(self).devices@.len(),
            final(self).devices@[0] == old(self).devices@[0],
            forall|i: int|
                1 <= i < old(self).devices@.len() ==> {
                    &&& (#[trigger] final(self).devices@[i]).same_but_offset(old(self).devices@[i])
                    &&& final(self).devices@[i].offset.0 == snapped_offset(
                        old(self).devices@,
                        i,
                        threshold as int,
                    ).0
                    &&& final(self).devices@[i].offset.1 == snapped_offset(
                        old(self).devices@,
                        i,
                        threshold as int,
                    ).1
                },
            old(self).owner_reachable() ==> final(self).owner_reachable(),
            old(self).distinct_ids() ==> final(self).distinct_ids(),
    {
        let ghost start = self.devices@;
        let ghost before = wall_boxes(start);
        let ghost after = snapped_boxes(before, start.len() as int, threshold as int);
        let boxes = self.snapped(threshold);
        let mut idx: usize = 1;
        while idx < self.devices.len()
            invariant
                1 <= idx <= self.devices@.len(),
                self.devices@.len() == start.len(),
                boxes@.len() == start.len(),
                start == old(self).devices@,
                before == wall_boxes(start),
                after == snapped_boxes(before, start.len() as int, threshold as int),
                old(self).wf(),
                self.owner == old(self).owner,
                self.cursor == old(self).cursor,
                self.locked == old(self).locked,
                forall|i: int|
                    1 <= i < start.len() ==> fits(
                        (#[trigger] snapped_offset(start, i, threshold as int)).0,
                    ) && fits(snapped_offset(start, i, threshold as int).1),
                forall|i: int| 0 <= i < boxes@.len() ==> (#[trigger] boxes@[i]).tame(),
                forall|i: int| 0 <= i < boxes@.len() ==> (#[trigger] boxes@[i])@ == after[i],
                forall|i: int|
                    idx <= i < start.len() || i == 0 ==> #[trigger] self.devices@[i] == start[i],
                forall|i: int|
                    1 <= i < idx ==> {
                        &&& (#[trigger] self.devices@[i]).same_but_offset(start[i])
                        &&& self.devices@[i].offset.0 == snapped_offset(
                            start,
                            i,
                            threshold as int,
                        ).0
                        &&& self.devices@[i].offset.1 == snapped_offset(
                            start,
                            i,
                            threshold as int,
                        ).1
                    },
            decreases self.devices@.len() - idx,
        {
            assert(self.devices@[idx as int] == start[idx as int]);
            assert(boxes@[idx as int]@ == after[idx as int]);
            assert(fits(snapped_offset(start, idx as int, threshold as int).0));
            let local = self.devices[idx].local_bounds;
            let x: i64 = boxes[idx].x - local.x as i64;
            let y: i64 = boxes[idx].y - local.y as i64;
            self.devices[idx].offset = (x as i32, y as i32);
            idx += 1;
        }
        assert forall|i: int| 0 <= i < self.devices@.len() implies (
        #[trigger] self.devices@[i]).wf() by {
            assert(start[i].wf());
        }
        proof {
            if old(self).distinct_ids() {
                same_ids_stay_distinct(*old(self), *self);
            }
        }
    }

    /// Whether [`Wall::snap_edges`] may be called with this threshold.
    pub fn may_snap(&self, threshold: i32) -> (r: bool)
        requires
            self.wf(),
        ensures
            r == (forall|i: int|
                1 <= i < self.devices@.len() ==> fits(
                    (#[trigger] snapped_offset(self.devices@, i, threshold as int)).0,
                ) && fits(snapped_offset(self.devices@, i, threshold as int).1)),
    {
        let boxes = self.snapped(threshold);
        let mut idx: usize = 1;
        while idx < self.devices.len()
            invariant
                1 <= idx <= self.devices@.len(),
                boxes@.len() == self.devices@.len(),
                forall|i: int| 0 <= i < boxes@.len() ==> (#[trigger] boxes@[i]).tame(),
                forall|i: int|
                    0 <= i < boxes@.len() ==> (#[trigger] boxes@[i])@ == snapped_boxes(
                        wall_boxes(self.devices@),
                        boxes@.len() as int,
                        threshold as int,
                    )[i],
                forall|i: int|
                    1 <= i < idx ==> fits(
                        (#[trigger] snapped_offset(self.devices@, i, threshold as int)).0,
                    ) && fits(snapped_offset(self.devices@, i, threshold as int).1),
            decreases self.devices@.len() - idx,
        {
            let local = self.devices[idx].local_bounds;
            let ghost at = snapped_offset(self.devices@, idx as int, threshold as int);
            assert(at.0 == boxes@[idx as int]@.x - local.x);
            assert(at.1 == boxes@[idx as int]@.y - local.y);
            if !in_range(boxes[idx].x - local.x as i64) || !in_range(
                boxes[idx].y - local.y as i64,
            ) {
                return false;
            }
            idx += 1;
        }
        true
    }

    /// The bounding boxes of all devices once their edges have been snapped.
    fn snapped(&self, threshold: i32) -> (r: Vec<Wide>)
        requires
            self.devices@.len() >= 1,
        ensures
            r@.len() == self.devices@.len(),
            forall|i: int| 0 <= i < r@.len() ==> (#[trigger] r@[i]).tame(),
            forall|i: int|
                0 <= i < r@.len() ==> (#[trigger] r@[i])@ == snapped_boxes(
                    wall_boxes(self.devices@),
                    r@.len() as int,
                    threshold as int,
                )[i],
    {
        let ghost start = wall_boxes(self.devices@);
        let mut boxes: Vec<Wide> = Vec::new();
        let mut i: usize = 0;
        while i < self.devices.len()
            invariant
                i <= self.devices@.len(),
                start == wall_boxes(self.devices@),
                boxes@.len() == i,
                forall|k: int| 0 <= k < i ==> (#[trigger] boxes@[k]).untouched(),
                forall|k: int| 0 <= k < i ==> (#[trigger] boxes@[k])@ == start[k],
            decreases self.devices@.len() - i,
        {
            let d = &self.devices[i];
            boxes.push(
                Wide {
                    x: d.local_bounds.x as i64 + d.offset.0 as i64,
                    y: d.local_bounds.y as i64 + d.offset.1 as i64,
                    w: d.local_bounds.w as i64,
                    h: d.local_bounds.h as i64,
                },
            );
            i += 1;
        }
        assert(wide_areas(boxes@) =~= start);
        let mut idx: usize = 1;
        while idx < boxes.len()
            invariant
                1 <= idx <= boxes@.len(),
                boxes@.len() == start.len(),
                start == wall_boxes(self.devices@),
                wide_areas(boxes@) == snapped_boxes(start, idx as int, threshold as int),
                forall|k: int| 0 <= k < boxes@.len() ==> (#[trigger] boxes@[k]).tame(),
                forall|k: int| idx <= k < boxes@.len() ==> (#[trigger] boxes@[k]).untouched(),
            decreases boxes@.len() - idx,
        {
            let ghost now = wide_areas(boxes@);
            let (dx, dy) = best_shifts(&boxes, idx, threshold);
            assert(boxes@[idx as int].untouched());
            let moved = Wide {
                x: boxes[idx].x + dx,
                y: boxes[idx].y + dy,
                w: boxes[idx].w,
                h: boxes[idx].h,
            };
            boxes.set(idx, moved);
            assert(wide_areas(boxes@) =~= now.update(
                idx as int,
                snapped_box(now, idx as int, threshold as int),
            ));
            idx += 1;
        }
        assert forall|k: int| 0 <= k < boxes@.len() implies (#[trigger] boxes@[k])@
            == snapped_boxes(start, boxes@.len() as int, threshold as int)[k] by {
            assert(wide_areas(boxes@)[k] == boxes@[k]@);
        }
        boxes
    }

    /// The wall with the pointer back on the host, at the point of the host
    /// nearest to where it was.
    pub open spec fn reclaimed(self) -> Wall {
        let at = self.devices@[0].snap_at(self.cursor.0 as int, self.cursor.1 as int);
        Wall { owner: 0, locked: false, cursor: (at.0 as i32, at.1 as i32), ..self }
    }

    /// The host has somewhere to put the pointer.
    pub open spec fn can_reclaim(&self) -> bool {
        let at = self.devices@[0].snap_at(self.cursor.0 as int, self.cursor.1 as int);
        let home = self.local_of(0, at);
        &&& self.devices@[0].placed()
        &&& fits(home.0) && fits(home.1)
    }

    /// Whether the host has somewhere to put the pointer.
    pub fn may_reclaim(&self) -> (r: bool)
        requires
            self.devices@.len() >= 1,
        ensures
            r == self.can_reclaim(),
    {
        let host = &self.devices[0];
        if !host.is_placed() {
            return false;
        }
        let at = host.snap(self.cursor.0, self.cursor.1);
        in_range(at.0 as i64 - host.offset.0 as i64) && in_range(
            at.1 as i64 - host.offset.1 as i64,
        )
    }

    /// Forces ownership (used when a device disconnects or the user presses the
    /// "return to this machine" hotkey).
    pub fn take_local(&mut self)
        requires
            old(self).devices@.len() >= 1,
            old(self).devices@[0].placed(),
        ensures
            *final(self) == old(self).reclaimed(),
            (final(self).cursor.0 as int, final(self).cursor.1 as int) == old(
                self).devices@[0].snap_at(old(self).cursor.0 as int, old(self).cursor.1 as int),
            old(self).wf() ==> final(self).wf(),
            final(self).owner_reachable(),
    {
        self.owner = 0;
        self.locked = false;
        self.cursor = self.devices[0].snap(self.cursor.0, self.cursor.1);
    }

    /// Pins the pointer to whichever device owns it. Held while any mouse button
    /// is down so a drag cannot be torn in half by an edge crossing.
    pub fn set_locked(&mut self, locked: bool)
        ensures
            *final(self) == (Wall { locked, ..*old(self) }),
    {
        self.locked = locked;
    }

    /// The wall once the pointer is known to be at a host position.
    pub open spec fn synced(self, local_x: int, local_y: int) -> Wall {
        if self.owner == 0 {
            let offset = self.devices@[0].offset;
            Wall {
                cursor: ((local_x + offset.0) as i32, (local_y + offset.1) as i32),
                ..self
            }
        } else {
            self
        }
    }

    /// The position handed to [`Wall::sync_local`] is one the wall can hold.
    pub open spec fn can_sync(&self, local_x: int, local_y: int) -> bool {
        self.owner == 0 ==> fits(local_x + self.devices@[0].offset.0) && fits(
            local_y + self.devices@[0].offset.1,
        )
    }

    /// Called with the host's real cursor position while control is local, to
    /// keep the wall position in sync with whatever else moved the pointer.
    pub fn sync_local(&mut self, local_x: i32, local_y: i32)
        requires
            old(self).devices@.len() >= 1,
            old(self).can_sync(local_x as int, local_y as int),
        ensures
            *final(self) == old(self).synced(local_x as int, local_y as int),
            old(self).wf() ==> final(self).wf(),
    {
        if self.owner == 0 {
            let offset = self.devices[0].offset;
            self.cursor = (local_x + offset.0, local_y + offset.1);
        }
    }

    /// Whether [`Wall::sync_local`] may be called with this position.
    pub fn may_sync(&self, local_x: i32, local_y: i32) -> (r: bool)
        requires
            self.devices@.len() >= 1,
        ensures
            r == self.can_sync(local_x as int, local_y as int),
    {
        if self.owner != 0 {
            return true;
        }
        let offset = self.devices[0].offset;
        in_range(local_x as i64 + offset.0 as i64) && in_range(local_y as i64 + offset.1 as i64)
    }

    /// The motion ends at a position that the wall, and the device under it,
    /// can hold.
    pub open spec fn can_move(&self, dx: int, dy: int) -> bool {
        let px = self.cursor.0 + dx;
        let py = self.cursor.1 + dy;
        let at = self.local_of(self.target(px, py), self.landing(px, py));
        &&& fits(px) && fits(py)
        &&& self.crossing(px, py) is None ==> self.devices@[self.owner as int].placed()
        &&& fits(at.0) && fits(at.1)
    }

    /// What [`Wall::move_by`] reports.
    pub open spec fn motion(&self, dx: int, dy: int) -> Motion {
        let px = self.cursor.0 + dx;
        let py = self.cursor.1 + dy;
        let device = self.target(px, py);
        let at = self.local_of(device, self.landing(px, py));
        let x = at.0 as i32;
        let y = at.1 as i32;
        if device != self.owner {
            Motion::Switch { device: device as usize, x, y }
        } else if device == 0 {
            Motion::Local { x, y }
        } else {
            Motion::Remote { device: device as usize, x, y }
        }
    }

    /// The wall after the motion.
    pub open spec fn moved(self, dx: int, dy: int) -> Wall {
        let px = self.cursor.0 + dx;
        let py = self.cursor.1 + dy;
        let at = self.landing(px, py);
        Wall {
            owner: self.target(px, py) as usize,
            cursor: (at.0 as i32, at.1 as i32),
            ..self
        }
    }

    /// Feeds relative pointer motion into the wall and reports where it landed.
    ///
    /// Motion is applied in wall space, so crossing a device boundary is just a
    /// containment test: there is no special "edge" state to get stuck in.
    pub fn move_by(&mut self, dx: i32, dy: i32) -> (r: Motion)
        requires
            old(self).wf(),
            old(self).can_move(dx as int, dy as int),
        ensures
            r == old(self).motion(dx as int, dy as int),
            *final(self) == old(self).moved(dx as int, dy as int),
            final(self).wf(),
            old(self).owner_reachable() ==> final(self).owner_reachable(),
    {
        let nx: i32 = self.cursor.0 + dx;
        let ny: i32 = self.cursor.1 + dy;
        proof {
            first_covering_is_first(self.devices@, 0, nx as int, ny as int);
        }
        let (target, at) = match self.candidate(nx, ny) {
            Some(idx) => (idx, (nx, ny)),
            None => {
                // Landed in a gap, off the far edge, or locked mid-drag: keep
                // the pointer on its current device, which is what a
                // single-machine desktop does.
                (self.owner, self.devices[self.owner].snap(nx, ny))
            },
        };
        self.cursor = at;
        let (x, y) = self.devices[target].to_local(at.0, at.1);
        if target != self.owner {
            self.owner = target;
            Motion::Switch { device: target, x, y }
        } else if target == 0 {
            Motion::Local { x, y }
        } else {
            Motion::Remote { device: target, x, y }
        }
    }

    /// The device to hand the pointer to. Mid-drag there is none: stay put
    /// whatever the maths says.
    fn candidate(&self, px: i32, py: i32) -> (r: Option<usize>)
        requires
            self.wf(),
        ensures
            r is Some <==> self.crossing(px as int, py as int) is Some,
            r is Some ==> r->0 == self.crossing(px as int, py as int)->0 && r->0
                < self.devices@.len(),
    {
        if self.locked {
            return None;
        }
        let mut i: usize = 0;
        while i < self.devices.len()
            invariant
                i <= self.devices@.len(),
                first_covering(self.devices@, 0, px as int, py as int) == first_covering(
                    self.devices@,
                    i as int,
                    px as int,
                    py as int,
                ),
                !self.locked,
            decreases self.devices@.len() - i,
        {
            if self.devices[i].online && self.devices[i].covers(px, py) {
                return Some(i);
            }
            i += 1;
        }
        None
    }

    /// Whether [`Wall::move_by`] may be called with this motion.
    pub fn may_move(&self, dx: i32, dy: i32) -> (r: bool)
        requires
            self.wf(),
        ensures
            r == self.can_move(dx as int, dy as int),
    {
        let wide_x: i64 = self.cursor.0 as i64 + dx as i64;
        let wide_y: i64 = self.cursor.1 as i64 + dy as i64;
        if !in_range(wide_x) || !in_range(wide_y) {
            return false;
        }
        let nx: i32 = wide_x as i32;
        let ny: i32 = wide_y as i32;
        let (target, at) = match self.candidate(nx, ny) {
            Some(idx) => (idx, (nx, ny)),
            None => {
                if !self.devices[self.owner].is_placed() {
                    return false;
                }
                (self.owner, self.devices[self.owner].snap(nx, ny))
            },
        };
        let offset = self.devices[target].offset;
        in_range(at.0 as i64 - offset.0 as i64) && in_range(at.1 as i64 - offset.1 as i64)
    }

    /// Local coordinates of the current pointer on the device that owns it.
    pub fn owner_local(&self) -> (r: (i32, i32))
        requires
            self.wf(),
            fits(self.cursor.0 - self.devices@[self.owner as int].offset.0),
            fits(self.cursor.1 - self.devices@[self.owner as int].offset.1),
        ensures
            (r.0 as int, r.1 as int) == self.local_of(
                self.owner as int,
                (self.cursor.0 as int, self.cursor.1 as int),
            ),
    {
        self.devices[self.owner].to_local(self.cursor.0, self.cursor.1)
    }

    /// The wall as the layout editor draws it.
    pub fn view(&self) -> (r: LayoutView)
        requires
            self.wf(),
            forall|i: int|
                0 <= i < self.devices@.len() ==> (#[trigger] self.devices@[i]).wall_area().fits(),
        ensures
            r.owner@ == protocol::hex_of(self.devices@[self.owner as int].id@),
            r.devices@.len() == self.devices@.len(),
            forall|i: int|
                0 <= i < self.devices@.len() ==> shows(
                    #[trigger] r.devices@[i],
                    self.devices@[i],
                    i == 0,
                ),
    {
        let mut devices: Vec<LayoutDevice> = Vec::new();
        let mut i: usize = 0;
        while i < self.devices.len()
            invariant
                i <= self.devices@.len(),
                devices@.len() == i,
                forall|k: int|
                    0 <= k < self.devices@.len() ==> (
                    #[trigger] self.devices@[k]).wall_area().fits(),
                forall|k: int|
                    0 <= k < i ==> shows(#[trigger] devices@[k], self.devices@[k], k == 0),
            decreases self.devices@.len() - i,
        {
            let d = &self.devices[i];
            assert(self.devices@[i as int].wall_area().fits());
            let bounds = d.wall_bounds();
            devices.push(
                LayoutDevice {
                    id: protocol::id_to_hex(&d.id),
                    name: d.name.clone(),
                    is_host: i == 0,
                    connected: i == 0 || d.online,
                    x: bounds.x,
                    y: bounds.y,
                    width: bounds.w,
                    height: bounds.h,
                    displays: protocol::copy_displays(&d.displays),
                },
            );
            i += 1;
        }
        LayoutView { owner: protocol::id_to_hex(&self.devices[self.owner].id), devices }
    }
}

/// Whether an integer is a coordinate a machine word can hold.
fn in_range(n: i64) -> (r: bool)
    ensures
        r == fits(n as int),
{
    i32::MIN as i64 <= n && n <= i32::MAX as i64
}

/// The offset of device `i` once the edges of all devices have been snapped.
pub open spec fn snapped_offset(devices: Seq<Device>, i: int, threshold: int) -> (int, int) {
    let before = wall_boxes(devices);
    let after = snapped_boxes(before, before.len() as int, threshold);
    (
        devices[i].offset.0 + after[i].x - before[i].x,
        devices[i].offset.1 + after[i].y - before[i].y,
    )
}

/// Snapping later boxes leaves earlier ones where they were put, and a box
/// whose turn has not come is where it started.
proof fn snapped_boxes_settle(boxes: Seq<Area>, k: int, n: int, i: int, threshold: int)
    requires
        1 <= k <= n <= boxes.len(),
        0 <= i < k,
    ensures
        snapped_boxes(boxes, n, threshold).len() == boxes.len(),
        snapped_boxes(boxes, n, threshold)[i] == snapped_boxes(boxes, k, threshold)[i],
    decreases n,
{
    if k < n {
        snapped_boxes_settle(boxes, k, n - 1, i, threshold);
    } else {
        snapped_boxes_len(boxes, n, threshold);
    }
}

proof fn snapped_boxes_len(boxes: Seq<Area>, k: int, threshold: int)
    requires
        k <= boxes.len(),
    ensures
        snapped_boxes(boxes, k, threshold).len() == boxes.len(),
    decreases k,
{
    if k > 1 {
        snapped_boxes_len(boxes, k - 1, threshold);
    }
}

/// Looking a device up finds the first with the id, and fails only when there
/// is none.
pub proof fn index_from_is_first(devices: Seq<Device>, from: int, id: Seq<u8>)
    requires
        0 <= from,
    ensures
        match index_from(devices, from, id) {
            Some(i) => {
                &&& from <= i < devices.len()
                &&& devices[i].id@ == id
                &&& forall|j: int| from <= j < i ==> (#[trigger] devices[j]).id@ != id
            },
            None => forall|j: int|
                from <= j < devices.len() ==> (#[trigger] devices[j]).id@ != id,
        },
    decreases devices.len() - from,
{
    if from < devices.len() && devices[from].id@ != id {
        index_from_is_first(devices, from + 1, id);
    }
}

/// The same of looking a device up by its hexadecimal id.
pub proof fn hex_from_is_first(devices: Seq<Device>, from: int, id: Seq<char>)
    requires
        0 <= from,
    ensures
        match hex_from(devices, from, id) {
            Some(i) => {
                &&& from <= i < devices.len()
                &&& protocol::hex_of(devices[i].id@) == id
                &&& forall|j: int|
                    from <= j < i ==> protocol::hex_of((#[trigger] devices[j]).id@) != id
            },
            None => forall|j: int|
                from <= j < devices.len() ==> protocol::hex_of((#[trigger] devices[j]).id@) != id,
        },
    decreases devices.len() - from,
{
    if from < devices.len() && protocol::hex_of(devices[from].id@) != id {
        hex_from_is_first(devices, from + 1, id);
    }
}

/// Looking a device up by its hexadecimal id is looking it up by its id.
pub proof fn hex_finds_the_same(devices: Seq<Device>, from: int, id: DeviceId)
    requires
        0 <= from,
    ensures
        hex_from(devices, from, protocol::hex_of(id@)) == index_from(devices, from, id@),
    decreases devices.len() - from,
{
    if from < devices.len() {
        if protocol::hex_of(devices[from].id@) == protocol::hex_of(id@) {
            protocol::hex_injective(devices[from].id, id);
        }
        hex_finds_the_same(devices, from + 1, id);
    }
}

/// The pointer can only be handed to a device that is connected and has a
/// monitor under it; of several such devices, to the first.
pub proof fn first_covering_is_first(devices: Seq<Device>, from: int, px: int, py: int)
    requires
        0 <= from,
    ensures
        match first_covering(devices, from, px, py) {
            Some(i) => {
                &&& from <= i < devices.len()
                &&& devices[i].online
                &&& devices[i].covers_at(px, py)
                &&& forall|j: int|
                    from <= j < i ==> !((#[trigger] devices[j]).online && devices[j].covers_at(
                        px,
                        py,
                    ))
            },
            None => forall|j: int|
                from <= j < devices.len() ==> !((#[trigger] devices[j]).online
                    && devices[j].covers_at(px, py)),
        },
    decreases devices.len() - from,
{
    if from < devices.len() && !(devices[from].online && devices[from].covers_at(px, py)) {
        first_covering_is_first(devices, from + 1, px, py);
    }
}

/// While a drag pins the pointer, no motion changes its owner.
pub proof fn drag_keeps_the_owner(wall: Wall, dx: int, dy: int)
    requires
        wall.wf(),
        wall.locked,
    ensures
        wall.moved(dx, dy).owner == wall.owner,
        wall.moved(dx, dy).locked,
        wall.motion(dx, dy) !is Switch,
{
}

/// Wherever the pointer is pushed, it ends up on the device that owns it
/// afterwards: under one of its monitors, or inside the placeholder of a device
/// that reported none.
pub proof fn pointer_lands_on_its_owner(wall: Wall, dx: int, dy: int)
    requires
        wall.wf(),
        wall.can_move(dx, dy),
    ensures
        ({
            let after = wall.moved(dx, dy);
            let device = after.devices@[after.owner as int];
            let px = after.cursor.0 as int;
            let py = after.cursor.1 as int;
            if device.displays@.len() == 0 {
                device.wall_area().contains(px, py)
            } else {
                device.covers_at(px, py)
            }
        }),
{
    let px = wall.cursor.0 + dx;
    let py = wall.cursor.1 + dy;
    first_covering_is_first(wall.devices@, 0, px, py);
    assert(wall.devices@.len() == wall.devices.len());
    let device = wall.devices@[wall.target(px, py)];
    if wall.crossing(px, py) is None {
        let areas = device.wall_areas();
        if device.displays@.len() > 0 {
            nearest_is_first_minimum(areas, px, py);
            let k = nearest(areas, px, py);
            assert(areas[k].solid());
            assert(areas[k].contains(
                wall.landing(px, py).0,
                wall.landing(px, py).1,
            ));
        }
    }
}

/// The pointer moves onto another device exactly when no drag pins it and the
/// first connected device under the new position is not the one it was on.
pub proof fn switch_means_crossing(wall: Wall, dx: int, dy: int)
    requires
        wall.wf(),
        wall.can_move(dx, dy),
    ensures
        wall.motion(dx, dy) is Switch <==> !wall.locked && ({
            let hit = first_covering(wall.devices@, 0, wall.cursor.0 + dx, wall.cursor.1 + dy);
            hit is Some && hit->0 != wall.owner
        }),
        wall.motion(dx, dy) matches Motion::Switch { device, .. } ==> device
            < wall.devices@.len() && wall.devices@[device as int].online && device
            == wall.moved(dx, dy).owner,
        wall.motion(dx, dy) !is Switch ==> wall.moved(dx, dy).owner == wall.owner,
{
    first_covering_is_first(wall.devices@, 0, wall.cursor.0 + dx, wall.cursor.1 + dy);
    assert(wall.devices@.len() == wall.devices.len());
}

/// A new device touches the right edge of everything placed before, overlaps
/// none of it, and is centred on the host to within a pixel.
pub proof fn new_device_lands_flush(devices: Seq<Device>, incoming: Area)
    requires
        devices.len() > 0,
    ensures
        ({
            let offset = free_offset(devices, incoming);
            let placed = incoming.shifted(offset.0, offset.1);
            let host = devices[0].wall_area();
            &&& placed.x == union_all(wall_boxes(devices)).right()
            &&& forall|i: int|
                0 <= i < devices.len() ==> (#[trigger] devices[i]).wall_area().right() <= placed.x
            &&& -1 <= (placed.y - host.y) - (host.bottom() - placed.bottom()) <= 1
        }),
{
    let boxes = wall_boxes(devices);
    union_all_is_least(boxes);
    assert forall|i: int| 0 <= i < devices.len() implies (
    #[trigger] devices[i]).wall_area().right() <= union_all(boxes).right() by {
        assert(encloses(union_all(boxes), boxes[i]));
    }
}

/// In the default row every device begins exactly where the one before it ends,
/// the first where the host ends.
pub proof fn row_has_no_gaps(devices: Seq<Device>, i: int)
    requires
        1 <= i < devices.len(),
    ensures
        ({
            let offset = row_offset(devices, i);
            let before = if i == 1 {
                devices[0].wall_area()
            } else {
                devices[i - 1].bounds().shifted(
                    row_offset(devices, i - 1).0,
                    row_offset(devices, i - 1).1,
                )
            };
            devices[i].bounds().shifted(offset.0, offset.1).x == before.right()
        }),
{
}

/// Of the shifts within the threshold the smallest is taken, and none when
/// there is none.
pub proof fn best_shift_is_smallest(shifts: Seq<int>, threshold: int)
    ensures
        match best_shift(shifts, threshold) {
            Some(best) => {
                &&& shifts.contains(best)
                &&& abs_of(best) <= threshold
                &&& forall|i: int| 0 <= i < shifts.len() ==> abs_of(best) <= abs_of(
                    #[trigger] shifts[i],
                )
            },
            None => forall|i: int| 0 <= i < shifts.len() ==> abs_of(#[trigger] shifts[i])
                > threshold,
        },
    decreases shifts.len(),
{
    if shifts.len() > 0 {
        let rest = shifts.drop_last();
        best_shift_is_smallest(rest, threshold);
        assert(forall|i: int| 0 <= i < rest.len() ==> rest[i] == shifts[i]);
        if best_shift(rest, threshold) is Some {
            let i = choose|i: int| 0 <= i < rest.len() && rest[i] == best_shift(rest, threshold)->0;
            assert(shifts[i] == best_shift(rest, threshold)->0);
        }
        assert(shifts[shifts.len() - 1] == shifts.last());
    }
}

/// Snapping never moves the host, and moves no other device further than the
/// threshold on either axis.
pub proof fn snapping_is_bounded(devices: Seq<Device>, i: int, threshold: int)
    requires
        0 <= i < devices.len(),
        0 <= threshold,
    ensures
        snapped_offset(devices, 0, threshold) == (
            devices[0].offset.0 as int,
            devices[0].offset.1 as int,
        ),
        -threshold <= snapped_offset(devices, i, threshold).0 - devices[i].offset.0 <= threshold,
        -threshold <= snapped_offset(devices, i, threshold).1 - devices[i].offset.1 <= threshold,
{
    let boxes = wall_boxes(devices);
    let n = boxes.len() as int;
    snapped_boxes_settle(boxes, 1, n, 0, threshold);
    if i > 0 {
        snapped_boxes_settle(boxes, i + 1, n, i, threshold);
        let before = snapped_boxes(boxes, i, threshold);
        snapped_boxes_pending(boxes, i, i, threshold);
        best_shift_within(shifts_x(before, i, n), threshold);
        best_shift_within(shifts_y(before, i, n), threshold);
    }
}

proof fn snapped_boxes_pending(boxes: Seq<Area>, k: int, i: int, threshold: int)
    requires
        k <= i < boxes.len(),
    ensures
        snapped_boxes(boxes, k, threshold).len() == boxes.len(),
        snapped_boxes(boxes, k, threshold)[i] == boxes[i],
    decreases k,
{
    if k > 1 {
        snapped_boxes_pending(boxes, k - 1, i, threshold);
    }
}

/// Where a box has a neighbour within the threshold on an axis, snapping closes
/// the gap on that axis completely: one of its edges then coincides with an
/// edge of another box.
pub proof fn snapping_closes_the_gap(boxes: Seq<Area>, idx: int, threshold: int)
    requires
        0 <= idx < boxes.len(),
    ensures
        ({
            let after = snapped_box(boxes, idx, threshold);
            let n = boxes.len() as int;
            &&& best_shift(shifts_x(boxes, idx, n), threshold) is Some ==> exists|i: int|
                0 <= i < n && i != idx && touches_x(after, #[trigger] boxes[i])
            &&& best_shift(shifts_y(boxes, idx, n), threshold) is Some ==> exists|i: int|
                0 <= i < n && i != idx && touches_y(after, #[trigger] boxes[i])
        }),
{
    let n = boxes.len() as int;
    let xs = shifts_x(boxes, idx, n);
    let ys = shifts_y(boxes, idx, n);
    best_shift_is_smallest(xs, threshold);
    best_shift_is_smallest(ys, threshold);
    if best_shift(xs, threshold) is Some {
        let k = choose|k: int| 0 <= k < xs.len() && xs[k] == best_shift(xs, threshold)->0;
        shift_comes_from_a_neighbour(boxes, idx, n, k);
    }
    if best_shift(ys, threshold) is Some {
        let k = choose|k: int| 0 <= k < ys.len() && ys[k] == best_shift(ys, threshold)->0;
        shift_comes_from_a_neighbour_y(boxes, idx, n, k);
    }
}

/// Snapping all devices closes the gaps one device at a time: a device with a
/// neighbour within the threshold, where that neighbour is when the device's turn
/// comes, ends up touching it. The host and every device listed before are then
/// where they stay.
pub proof fn snapped_device_touches(devices: Seq<Device>, i: int, threshold: int)
    requires
        1 <= i < devices.len(),
    ensures
        ({
            let n = devices.len() as int;
            let offset = snapped_offset(devices, i, threshold);
            let placed = devices[i].bounds().shifted(offset.0, offset.1);
            let turn = snapped_boxes(wall_boxes(devices), i, threshold);
            &&& forall|j: int|
                0 <= j < i ==> {
                    let settled = snapped_offset(devices, j, threshold);
                    #[trigger] turn[j] == devices[j].bounds().shifted(settled.0, settled.1)
                }
            &&& best_shift(shifts_x(turn, i, n), threshold) is Some ==> exists|j: int|
                0 <= j < n && j != i && touches_x(placed, #[trigger] turn[j])
            &&& best_shift(shifts_y(turn, i, n), threshold) is Some ==> exists|j: int|
                0 <= j < n && j != i && touches_y(placed, #[trigger] turn[j])
        }),
{
    let boxes = wall_boxes(devices);
    let n = boxes.len() as int;
    let turn = snapped_boxes(boxes, i, threshold);
    snapped_boxes_pending(boxes, i, i, threshold);
    snapped_boxes_settle(boxes, i + 1, n, i, threshold);
    assert forall|j: int| 0 <= j < i implies {
        let settled = snapped_offset(devices, j, threshold);
        #[trigger] turn[j] == devices[j].bounds().shifted(settled.0, settled.1)
    } by {
        snapped_boxes_settle(boxes, i, n, j, threshold);
        snapped_boxes_keep_size(boxes, n, j, threshold);
    }
    snapping_closes_the_gap(turn, i, threshold);
}

proof fn snapped_boxes_keep_size(boxes: Seq<Area>, k: int, i: int, threshold: int)
    requires
        k <= boxes.len(),
        0 <= i < boxes.len(),
    ensures
        snapped_boxes(boxes, k, threshold)[i].w == boxes[i].w,
        snapped_boxes(boxes, k, threshold)[i].h == boxes[i].h,
    decreases k,
{
    if k > 1 {
        snapped_boxes_len(boxes, k - 1, threshold);
        snapped_boxes_keep_size(boxes, k - 1, i, threshold);
    }
}

/// The boxes share a vertical edge line, or their left edges line up.
pub open spec fn touches_x(a: Area, b: Area) -> bool {
    a.x == b.right() || a.right() == b.x || a.x == b.x
}

/// The boxes share a horizontal edge line, or their top edges line up.
pub open spec fn touches_y(a: Area, b: Area) -> bool {
    a.y == b.bottom() || a.bottom() == b.y || a.y == b.y
}

proof fn shift_comes_from_a_neighbour(boxes: Seq<Area>, idx: int, n: int, k: int)
    requires
        0 <= idx < boxes.len(),
        0 <= n <= boxes.len(),
        0 <= k < shifts_x(boxes, idx, n).len(),
    ensures
        exists|i: int|
            0 <= i < n && i != idx && touches_x(
                boxes[idx].shifted(shifts_x(boxes, idx, n)[k], 0),
                #[trigger] boxes[i],
            ),
    decreases n,
{
    if n - 1 == idx || k < shifts_x(boxes, idx, n - 1).len() {
        shift_comes_from_a_neighbour(boxes, idx, n - 1, k);
    } else {
        assert(touches_x(boxes[idx].shifted(shifts_x(boxes, idx, n)[k], 0), boxes[n - 1]));
    }
}

proof fn shift_comes_from_a_neighbour_y(boxes: Seq<Area>, idx: int, n: int, k: int)
    requires
        0 <= idx < boxes.len(),
        0 <= n <= boxes.len(),
        0 <= k < shifts_y(boxes, idx, n).len(),
    ensures
        exists|i: int|
            0 <= i < n && i != idx && touches_y(
                boxes[idx].shifted(0, shifts_y(boxes, idx, n)[k]),
                #[trigger] boxes[i],
            ),
    decreases n,
{
    if n - 1 == idx || k < shifts_y(boxes, idx, n - 1).len() {
        shift_comes_from_a_neighbour_y(boxes, idx, n - 1, k);
    } else {
        assert(touches_y(boxes[idx].shifted(0, shifts_y(boxes, idx, n)[k]), boxes[n - 1]));
    }
}

/// The pointer has somewhere to go on a device at the origin with these
/// monitors.
pub open spec fn lone_device_placed(displays: Seq<Display>) -> bool {
    forall|i: int|
        0 <= i < displays.len() ==> display_area(#[trigger] displays[i]).solid() && display_area(
            displays[i],
        ).edges_fit()
}

/// Whether a host can start with these monitors.
pub fn monitors_usable(displays: &Vec<Display>) -> (r: bool)
    ensures
        r == (bounds_area(displays@).fits() && lone_device_placed(displays@)),
{
    if !bounds_fit(displays) {
        return false;
    }
    let mut i: usize = 0;
    while i < displays.len()
        invariant
            i <= displays@.len(),
            forall|k: int|
                0 <= k < i ==> display_area(#[trigger] displays@[k]).solid() && display_area(
                    displays@[k],
                ).edges_fit(),
        decreases displays@.len() - i,
    {
        let local = rect_of(&displays[i]);
        assert(local@ == display_area(displays@[i as int]));
        if !rect_is_placed(local.x as i64, local.y as i64, local.w, local.h) {
            return false;
        }
        i += 1;
    }
    true
}

/// A device at the origin is placed when its monitors are.
pub proof fn lone_device_is_placed(device: Device)
    requires
        device.wf(),
        device.offset == (0i32, 0i32),
        lone_device_placed(device.displays@),
    ensures
        device.placed(),
{
    assert forall|i: int| 0 <= i < device.wall_areas().len() implies (
    #[trigger] device.wall_areas()[i]).solid() && device.wall_areas()[i].edges_fit() by {
        assert(display_area(device.displays@[i]).solid());
    }
}

} // verus!
