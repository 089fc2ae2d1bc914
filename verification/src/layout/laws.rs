//! What the wall promises, said of coordinates alone.
//!
//! Each law relates the position of monitors, as devices report and users place
//! them, to where the pointer or a device ends up.

use vstd::prelude::*;

use crate::layout;
use crate::layout::{Area, Device, Motion, Wall};
use crate::protocol::Display;

verus! {

/// The square of the distance between two points.
pub open spec fn apart(ax: int, ay: int, bx: int, by: int) -> int {
    (ax - bx) * (ax - bx) + (ay - by) * (ay - by)
}

/// A wall position is on one of a device's monitors.
pub open spec fn on_monitor(device: Device, i: int, px: int, py: int) -> bool {
    let d = device.displays@[i];
    &&& 0 <= i < device.displays@.len()
    &&& d.width <= i32::MAX && d.height <= i32::MAX
    &&& d.x + device.offset.0 <= px < d.x + device.offset.0 + d.width
    &&& d.y + device.offset.1 <= py < d.y + device.offset.1 + d.height
}

/// A wall position is on the full-HD placeholder of a device that reports no
/// monitors.
pub open spec fn on_placeholder(device: Device, px: int, py: int) -> bool {
    &&& device.displays@.len() == 0
    &&& device.offset.0 <= px < device.offset.0 + 1920
    &&& device.offset.1 <= py < device.offset.1 + 1080
}

/// The point `(sx, sy)` is on the device, and no point of it is nearer to
/// `(px, py)`; of several monitors equally near, it is on the first.
pub open spec fn is_nearest(device: Device, px: int, py: int, sx: int, sy: int) -> bool {
    if device.displays@.len() == 0 {
        &&& on_placeholder(device, sx, sy)
        &&& forall|qx: int, qy: int| #[trigger]
            on_placeholder(device, qx, qy) ==> apart(px, py, sx, sy) <= apart(px, py, qx, qy)
    } else {
        exists|k: int|
            {
                &&& #[trigger] on_monitor(device, k, sx, sy)
                &&& forall|i: int, qx: int, qy: int| #[trigger]
                    on_monitor(device, i, qx, qy) ==> {
                        &&& apart(px, py, sx, sy) <= apart(px, py, qx, qy)
                        &&& i < k ==> apart(px, py, sx, sy) < apart(px, py, qx, qy)
                    }
            }
    }
}

proof fn size_of(n: u32)
    ensures
        n <= i32::MAX ==> (n as i32) as int == n,
        n > i32::MAX ==> ((n as i32) as int) < 0,
{
    assert(n <= 0x7fff_ffffu32 ==> (n as i32) == n) by (bit_vector);
    assert(n > 0x7fff_ffffu32 ==> (n as i32) < 0) by (bit_vector);
}

proof fn nearer_on_one_axis(p: int, lo: int, hi: int, c: int, q: int)
    requires
        lo <= q <= hi,
        c == layout::clamped(p, lo, hi),
    ensures
        (p - c) * (p - c) <= (p - q) * (p - q),
{
    if p < lo {
        assert((p - c) * (p - c) <= (p - q) * (p - q)) by (nonlinear_arith)
            requires
                p < c,
                c <= q,
        ;
    } else if p > hi {
        assert((p - c) * (p - c) <= (p - q) * (p - q)) by (nonlinear_arith)
            requires
                p > c,
                c >= q,
        ;
    } else {
        assert((p - c) * (p - c) == 0) by (nonlinear_arith)
            requires
                p == c,
        ;
        assert(0 <= (p - q) * (p - q)) by (nonlinear_arith);
    }
}

proof fn clamp_is_nearest(area: Area, px: int, py: int, qx: int, qy: int)
    requires
        area.contains(qx, qy),
    ensures
        area.distance_sq(px, py) <= apart(px, py, qx, qy),
{
    let c = area.clamp(px, py);
    nearer_on_one_axis(px, area.x, area.right() - 1, c.0, qx);
    nearer_on_one_axis(py, area.y, area.bottom() - 1, c.1, qy);
}

proof fn monitor_is_its_area(device: Device, i: int, px: int, py: int)
    requires
        0 <= i < device.displays@.len(),
    ensures
        device.wall_areas()[i].contains(px, py) <==> on_monitor(device, i, px, py),
{
    size_of(device.displays@[i].width);
    size_of(device.displays@[i].height);
}

/// The pointer stops at the nearest point: what a wall position is snapped to is
/// on a monitor of the device, and every other point of every monitor is at
/// least as far away.
pub proof fn snapping_finds_the_nearest_point(device: Device, px: int, py: int)
    requires
        device.wf(),
        device.placed(),
    ensures
        is_nearest(device, px, py, device.snap_at(px, py).0, device.snap_at(px, py).1),
{
    let s = device.snap_at(px, py);
    if device.displays@.len() == 0 {
        assert forall|qx: int, qy: int| #[trigger] on_placeholder(device, qx, qy) implies apart(
            px,
            py,
            s.0,
            s.1,
        ) <= apart(px, py, qx, qy) by {
            clamp_is_nearest(device.wall_area(), px, py, qx, qy);
        }
    } else {
        let areas = device.wall_areas();
        layout::nearest_is_first_minimum(areas, px, py);
        let k = layout::nearest(areas, px, py);
        assert(areas[k].solid());
        monitor_is_its_area(device, k, s.0, s.1);
        assert(on_monitor(device, k, s.0, s.1));
        assert forall|i: int, qx: int, qy: int| #[trigger] on_monitor(device, i, qx, qy) implies {
            &&& apart(px, py, s.0, s.1) <= apart(px, py, qx, qy)
            &&& i < k ==> apart(px, py, s.0, s.1) < apart(px, py, qx, qy)
        } by {
            monitor_is_its_area(device, i, qx, qy);
            clamp_is_nearest(areas[i], px, py, qx, qy);
            assert(areas[k].distance_sq(px, py) <= areas[i].distance_sq(px, py));
        }
    }
}

/// A point that is on a device already is not moved.
pub proof fn points_on_the_device_stay(device: Device, i: int, px: int, py: int)
    requires
        device.wf(),
        device.placed(),
        on_monitor(device, i, px, py),
    ensures
        device.snap_at(px, py) == (px, py),
{
    let s = device.snap_at(px, py);
    snapping_finds_the_nearest_point(device, px, py);
    assert(apart(px, py, px, py) == 0);
    assert(s.0 == px && s.1 == py) by (nonlinear_arith)
        requires
            (px - s.0) * (px - s.0) + (py - s.1) * (py - s.1) <= 0,
    ;
}

/// When a device has somewhere to put the pointer: each of its monitors has at
/// least one pixel and lies within the coordinates of the wall.
pub proof fn placed_means_on_the_wall(device: Device)
    requires
        device.wf(),
    ensures
        device.displays@.len() > 0 ==> (device.placed() <==> forall|i: int|
            0 <= i < device.displays@.len() ==> {
                let d = #[trigger] device.displays@[i];
                &&& 1 <= d.width <= i32::MAX
                &&& 1 <= d.height <= i32::MAX
                &&& i32::MIN <= d.x + device.offset.0
                &&& d.x + device.offset.0 + d.width <= i32::MAX
                &&& i32::MIN <= d.y + device.offset.1
                &&& d.y + device.offset.1 + d.height <= i32::MAX
            }),
        device.displays@.len() == 0 ==> (device.placed() <==> device.offset.0 + 1920 <= i32::MAX
            && device.offset.1 + 1080 <= i32::MAX),
{
    assert forall|i: int| 0 <= i < device.displays@.len() implies {
        let d = #[trigger] device.displays@[i];
        let area = device.wall_areas()[i];
        area.solid() && area.edges_fit() <==> {
            &&& 1 <= d.width <= i32::MAX
            &&& 1 <= d.height <= i32::MAX
            &&& i32::MIN <= d.x + device.offset.0
            &&& d.x + device.offset.0 + d.width <= i32::MAX
            &&& i32::MIN <= d.y + device.offset.1
            &&& d.y + device.offset.1 + d.height <= i32::MAX
        }
    } by {
        size_of(device.displays@[i].width);
        size_of(device.displays@[i].height);
    }
    if device.displays@.len() > 0 && device.placed() {
        assert forall|i: int| 0 <= i < device.displays@.len() implies {
            let d = #[trigger] device.displays@[i];
            &&& 1 <= d.width <= i32::MAX
            &&& 1 <= d.height <= i32::MAX
            &&& i32::MIN <= d.x + device.offset.0
            &&& d.x + device.offset.0 + d.width <= i32::MAX
            &&& i32::MIN <= d.y + device.offset.1
            &&& d.y + device.offset.1 + d.height <= i32::MAX
        } by {
            assert(device.wall_areas()[i].solid());
        }
    }
    if device.displays@.len() > 0 && !device.placed() {
        let i = choose|i: int|
            0 <= i < device.wall_areas().len() && !((#[trigger] device.wall_areas()[i]).solid()
                && device.wall_areas()[i].edges_fit());
        let d = device.displays@[i];
    }
}

/// A connected device has a monitor at a wall position.
pub open spec fn is_under(wall: Wall, i: int, px: int, py: int) -> bool {
    &&& 0 <= i < wall.devices@.len()
    &&& wall.devices@[i].online
    &&& exists|m: int| #[trigger] on_monitor(wall.devices@[i], m, px, py)
}

/// A device covers exactly what its monitors cover.
pub proof fn covered_means_on_a_monitor(device: Device, px: int, py: int)
    ensures
        device.covers_at(px, py) <==> exists|m: int| #[trigger] on_monitor(device, m, px, py),
{
    if device.covers_at(px, py) {
        let m = choose|m: int|
            0 <= m < device.wall_areas().len() && (#[trigger] device.wall_areas()[m]).contains(
                px,
                py,
            );
        monitor_is_its_area(device, m, px, py);
        assert(on_monitor(device, m, px, py));
    }
    if exists|m: int| #[trigger] on_monitor(device, m, px, py) {
        let m = choose|m: int| #[trigger] on_monitor(device, m, px, py);
        monitor_is_its_area(device, m, px, py);
        assert(device.wall_areas()[m].contains(px, py));
    }
}

/// Motion carries the pointer over the wall. Where a connected device is under
/// the new position, and no drag pins the pointer, the pointer goes exactly
/// there, onto the first such device. Anywhere else it stays on its device, at
/// the point of it nearest to the new position. What is reported is that place
/// in the device's own pixels, and whether the device is a new one.
pub proof fn motion_carries_the_pointer(wall: Wall, dx: int, dy: int)
    requires
        wall.wf(),
        wall.can_move(dx, dy),
    ensures
        ({
            let px = wall.cursor.0 + dx;
            let py = wall.cursor.1 + dy;
            let after = wall.moved(dx, dy);
            let crosses = !wall.locked && exists|i: int| #[trigger] is_under(wall, i, px, py);
            let device = wall.devices@[after.owner as int];
            &&& after.devices == wall.devices
            &&& after.locked == wall.locked
            &&& crosses ==> {
                &&& is_under(wall, after.owner as int, px, py)
                &&& forall|j: int| #[trigger] is_under(wall, j, px, py) ==> after.owner <= j
                &&& after.cursor.0 == px
                &&& after.cursor.1 == py
            }
            &&& !crosses ==> {
                &&& after.owner == wall.owner
                &&& is_nearest(device, px, py, after.cursor.0 as int, after.cursor.1 as int)
            }
            &&& match wall.motion(dx, dy) {
                Motion::Local { x, y } => {
                    &&& wall.owner == 0 && after.owner == 0
                    &&& x == after.cursor.0 - device.offset.0
                    &&& y == after.cursor.1 - device.offset.1
                },
                Motion::Remote { device: d, x, y } => {
                    &&& wall.owner == after.owner && after.owner != 0
                    &&& d == after.owner
                    &&& x == after.cursor.0 - device.offset.0
                    &&& y == after.cursor.1 - device.offset.1
                },
                Motion::Switch { device: d, x, y } => {
                    &&& wall.owner != after.owner
                    &&& d == after.owner
                    &&& x == after.cursor.0 - device.offset.0
                    &&& y == after.cursor.1 - device.offset.1
                },
            }
        }),
{
    let px = wall.cursor.0 + dx;
    let py = wall.cursor.1 + dy;
    assert(wall.devices@.len() == wall.devices.len());
    layout::first_covering_is_first(wall.devices@, 0, px, py);
    assert forall|i: int| 0 <= i < wall.devices@.len() implies (is_under(wall, i, px, py) <==> (
    #[trigger] wall.devices@[i]).online && wall.devices@[i].covers_at(px, py)) by {
        covered_means_on_a_monitor(wall.devices@[i], px, py);
    }
    let hit = layout::first_covering(wall.devices@, 0, px, py);
    if !wall.locked && hit is Some {
        assert(is_under(wall, hit->0, px, py));
        assert forall|j: int| #[trigger] is_under(wall, j, px, py) implies hit->0 <= j by {
            if j < hit->0 {
                assert(wall.devices@[j].online);
            }
        }
    } else {
        if !wall.locked {
            assert forall|j: int| !#[trigger] is_under(wall, j, px, py) by {
                if is_under(wall, j, px, py) {
                    assert(wall.devices@[j].online);
                }
            }
        }
        let owner = wall.devices@[wall.owner as int];
        snapping_finds_the_nearest_point(owner, px, py);
        nearest_point_fits(owner, px, py);
    }
}

proof fn nearest_point_fits(device: Device, px: int, py: int)
    requires
        device.wf(),
        device.placed(),
    ensures
        layout::fits(device.snap_at(px, py).0),
        layout::fits(device.snap_at(px, py).1),
{
    if device.displays@.len() > 0 {
        let areas = device.wall_areas();
        layout::nearest_is_first_minimum(areas, px, py);
        assert(areas[layout::nearest(areas, px, py)].edges_fit());
    }
}

/// Every motion that stays within the coordinates of the wall can be followed, as
/// long as every monitor lies within them too, on the wall and on its device.
pub proof fn motion_within_the_wall_is_followed(wall: Wall, dx: int, dy: int)
    requires
        wall.wf(),
        i32::MIN <= wall.cursor.0 + dx <= i32::MAX,
        i32::MIN <= wall.cursor.1 + dy <= i32::MAX,
        wall.devices@[wall.owner as int].placed(),
        forall|i: int, m: int|
            0 <= i < wall.devices@.len() && 0 <= m < wall.devices@[i].displays@.len() ==> {
                let d = #[trigger] wall.devices@[i].displays@[m];
                d.x + d.width <= i32::MAX && d.y + d.height <= i32::MAX
            },
    ensures
        wall.can_move(dx, dy),
{
    let px = wall.cursor.0 + dx;
    let py = wall.cursor.1 + dy;
    assert(wall.devices@.len() == wall.devices.len());
    layout::first_covering_is_first(wall.devices@, 0, px, py);
    match wall.crossing(px, py) {
        Some(i) => {
            covered_means_on_a_monitor(wall.devices@[i], px, py);
            let m = choose|m: int| #[trigger] on_monitor(wall.devices@[i], m, px, py);
            assert(wall.devices@[i].displays@[m].x + wall.devices@[i].displays@[m].width
                <= i32::MAX);
        },
        None => {
            let owner = wall.devices@[wall.owner as int];
            let s = owner.snap_at(px, py);
            snapping_finds_the_nearest_point(owner, px, py);
            if owner.displays@.len() > 0 {
                let m = choose|m: int| #[trigger] on_monitor(owner, m, s.0, s.1);
                assert(wall.devices@[wall.owner as int].displays@[m].x + owner.displays@[m].width
                    <= i32::MAX);
            }
        },
    }
}

/// Taking the pointer back puts it on the host, at the point of the host nearest
/// to where it was, and frees it.
pub proof fn recall_comes_home_the_short_way(wall: Wall)
    requires
        wall.wf(),
        wall.devices@[0].placed(),
    ensures
        ({
            let after = wall.reclaimed();
            &&& after.owner == 0
            &&& !after.locked
            &&& after.devices == wall.devices
            &&& is_nearest(
                wall.devices@[0],
                wall.cursor.0 as int,
                wall.cursor.1 as int,
                after.cursor.0 as int,
                after.cursor.1 as int,
            )
        }),
{
    let host = wall.devices@[0];
    snapping_finds_the_nearest_point(host, wall.cursor.0 as int, wall.cursor.1 as int);
    nearest_point_fits(host, wall.cursor.0 as int, wall.cursor.1 as int);
}

/// The pointer can be taken back whenever the host's monitors lie within the
/// coordinates, on the wall and on the host.
pub proof fn recall_is_possible(wall: Wall)
    requires
        wall.wf(),
        wall.devices@[0].placed(),
        forall|m: int|
            0 <= m < wall.devices@[0].displays@.len() ==> {
                let d = #[trigger] wall.devices@[0].displays@[m];
                d.x + d.width <= i32::MAX && d.y + d.height <= i32::MAX
            },
    ensures
        wall.can_reclaim(),
{
    let host = wall.devices@[0];
    let s = host.snap_at(wall.cursor.0 as int, wall.cursor.1 as int);
    snapping_finds_the_nearest_point(host, wall.cursor.0 as int, wall.cursor.1 as int);
    if host.displays@.len() > 0 {
        let m = choose|m: int| #[trigger] on_monitor(host, m, s.0, s.1);
        assert(wall.devices@[0].displays@[m].x + host.displays@[m].width <= i32::MAX);
    }
}

/// A report of the real cursor counts only while the pointer is on the host, and
/// then it is where the pointer is.
pub proof fn the_real_cursor_counts_at_home(wall: Wall, x: int, y: int)
    requires
        wall.wf(),
        wall.can_sync(x, y),
    ensures
        wall.owner != 0 ==> wall.synced(x, y) == wall,
        wall.owner == 0 ==> {
            let after = wall.synced(x, y);
            &&& after.owner == 0
            &&& after.locked == wall.locked
            &&& after.devices == wall.devices
            &&& after.cursor.0 - wall.devices@[0].offset.0 == x
            &&& after.cursor.1 - wall.devices@[0].offset.1 == y
        },
        wall.owner != 0 ==> wall.can_sync(x, y),
{
}

/// The bounding box of a device holds every monitor, and on each side some
/// monitor reaches it.
pub proof fn bounds_are_tight(displays: Seq<Display>)
    requires
        displays.len() > 0,
        forall|i: int|
            0 <= i < displays.len() ==> (#[trigger] displays[i]).width <= i32::MAX
                && displays[i].height <= i32::MAX,
    ensures
        ({
            let b = layout::bounds_area(displays);
            &&& forall|i: int|
                0 <= i < displays.len() ==> {
                    let d = #[trigger] displays[i];
                    &&& b.x <= d.x && d.x + d.width <= b.x + b.w
                    &&& b.y <= d.y && d.y + d.height <= b.y + b.h
                }
            &&& exists|i: int| 0 <= i < displays.len() && (#[trigger] displays[i]).x == b.x
            &&& exists|i: int| 0 <= i < displays.len() && (#[trigger] displays[i]).y == b.y
            &&& exists|i: int|
                0 <= i < displays.len() && (#[trigger] displays[i]).x + displays[i].width == b.x
                    + b.w
            &&& exists|i: int|
                0 <= i < displays.len() && (#[trigger] displays[i]).y + displays[i].height == b.y
                    + b.h
        }),
    decreases displays.len(),
{
    let areas = layout::display_areas(displays);
    let last = displays.last();
    size_of(last.width);
    size_of(last.height);
    assert(displays[displays.len() - 1] == last);
    if displays.len() == 1 {
        assert(areas[0] == layout::display_area(last));
    } else {
        let rest = displays.drop_last();
        assert forall|i: int| 0 <= i < rest.len() implies (#[trigger] rest[i]).width <= i32::MAX
            && rest[i].height <= i32::MAX by {
            assert(displays[i] == rest[i]);
        }
        bounds_are_tight(rest);
        assert(areas.drop_last() =~= layout::display_areas(rest));
        assert(areas.last() == layout::display_area(last));
        let r = layout::bounds_area(rest);
        let b = layout::bounds_area(displays);
        assert(b == r.union(layout::display_area(last)));
        assert forall|i: int| 0 <= i < displays.len() implies {
            let d = #[trigger] displays[i];
            &&& b.x <= d.x && d.x + d.width <= b.x + b.w
            &&& b.y <= d.y && d.y + d.height <= b.y + b.h
        } by {
            if i < rest.len() {
                assert(displays[i] == rest[i]);
            }
        }
        let a = choose|i: int| 0 <= i < rest.len() && (#[trigger] rest[i]).x == r.x;
        assert(displays[a].x == r.x);
        let a = choose|i: int| 0 <= i < rest.len() && (#[trigger] rest[i]).y == r.y;
        assert(displays[a].y == r.y);
        let a = choose|i: int|
            0 <= i < rest.len() && (#[trigger] rest[i]).x + rest[i].width == r.x + r.w;
        assert(displays[a].x + displays[a].width == r.x + r.w);
        let a = choose|i: int|
            0 <= i < rest.len() && (#[trigger] rest[i]).y + rest[i].height == r.y + r.h;
        assert(displays[a].y + displays[a].height == r.y + r.h);
    }
}

/// Two runs of pixels have their middles as close together as whole pixels
/// allow; where half a pixel is left over, their starts are the closer together
/// for it.
pub open spec fn centred(at: int, size: int, on: int, room: int) -> bool {
    &&& -1 <= 2 * (at - on) - (room - size) <= 1
    &&& room >= size ==> 2 * (at - on) <= room - size
    &&& room <= size ==> 2 * (at - on) >= room - size
}

/// A new device begins where the furthest of the others ends, overlaps none of
/// them, and is centred on the host.
pub proof fn new_device_joins_the_row(devices: Seq<Device>, incoming: Area)
    requires
        devices.len() > 0,
    ensures
        ({
            let offset = layout::free_offset(devices, incoming);
            let host = devices[0];
            &&& forall|i: int|
                0 <= i < devices.len() ==> {
                    let d = #[trigger] devices[i];
                    d.local_bounds.x + d.offset.0 + d.local_bounds.w <= incoming.x + offset.0
                }
            &&& exists|i: int|
                0 <= i < devices.len() && (#[trigger] devices[i]).local_bounds.x
                    + devices[i].offset.0 + devices[i].local_bounds.w == incoming.x + offset.0
            &&& centred(
                incoming.y + offset.1,
                incoming.h,
                host.local_bounds.y + host.offset.1,
                host.local_bounds.h as int,
            )
        }),
{
    let boxes = layout::wall_boxes(devices);
    furthest_right(boxes);
    assert forall|i: int| 0 <= i < devices.len() implies {
        let d = #[trigger] devices[i];
        d.local_bounds.x + d.offset.0 + d.local_bounds.w <= layout::union_all(boxes).x
            + layout::union_all(boxes).w
    } by {
        assert(boxes[i] == devices[i].wall_area());
    }
    let k = choose|k: int|
        0 <= k < boxes.len() && (#[trigger] boxes[k]).x + boxes[k].w == layout::union_all(boxes).x
            + layout::union_all(boxes).w;
    assert(boxes[k] == devices[k].wall_area());
}

proof fn furthest_right(boxes: Seq<Area>)
    requires
        boxes.len() > 0,
    ensures
        forall|i: int|
            0 <= i < boxes.len() ==> (#[trigger] boxes[i]).x + boxes[i].w <= layout::union_all(
                boxes,
            ).x + layout::union_all(boxes).w,
        exists|i: int|
            0 <= i < boxes.len() && (#[trigger] boxes[i]).x + boxes[i].w == layout::union_all(
                boxes,
            ).x + layout::union_all(boxes).w,
    decreases boxes.len(),
{
    if boxes.len() > 1 {
        let rest = boxes.drop_last();
        furthest_right(rest);
        let all = layout::union_all(boxes);
        assert forall|i: int| 0 <= i < boxes.len() implies (#[trigger] boxes[i]).x + boxes[i].w
            <= all.x + all.w by {
            if i < rest.len() {
                assert(boxes[i] == rest[i]);
            }
        }
        let k = choose|k: int|
            0 <= k < rest.len() && (#[trigger] rest[k]).x + rest[k].w == layout::union_all(rest).x
                + layout::union_all(rest).w;
        assert(boxes[k] == rest[k]);
        assert(boxes[boxes.len() - 1] == boxes.last());
    } else {
        assert(boxes[0].x + boxes[0].w == layout::union_all(boxes).x + layout::union_all(boxes).w);
    }
}

/// In the default row each device begins where the one before it ends, the first
/// where the host ends, and all are centred on the host.
pub proof fn the_row_is_closed(devices: Seq<Device>, i: int)
    requires
        1 <= i < devices.len(),
    ensures
        ({
            let host = devices[0];
            let before = devices[i - 1];
            let at = if i == 1 {
                host.offset.0 as int
            } else {
                layout::row_offset(devices, i - 1).0
            };
            let offset = layout::row_offset(devices, i);
            &&& devices[i].local_bounds.x + offset.0 == before.local_bounds.x + at
                + before.local_bounds.w
            &&& centred(
                devices[i].local_bounds.y + offset.1,
                devices[i].local_bounds.h as int,
                host.local_bounds.y + host.offset.1,
                host.local_bounds.h as int,
            )
        }),
{
}

/// How far a run of pixels, given by its start and its length, has to move to
/// meet another: to begin where that one ends, to end where it begins, or to
/// begin where it begins.
pub open spec fn gap(mine: (int, int), theirs: (int, int), way: int) -> int {
    if way == 0 {
        theirs.0 + theirs.1 - mine.0
    } else if way == 1 {
        theirs.0 - (mine.0 + mine.1)
    } else {
        theirs.0 - mine.0
    }
}

pub open spec fn length(n: int) -> int {
    if n < 0 {
        -n
    } else {
        n
    }
}

/// One way to move run `i` comes before run `n` and way `c`: by its neighbour, and
/// of one neighbour by the way.
pub open spec fn listed_before(i: int, j: int, way: int, n: int, c: int) -> bool {
    &&& 0 <= j <= n && j != i
    &&& 0 <= way < 3
    &&& j == n ==> way < c
}

/// Of all ways to move run `i` that are listed before a point, the shortest
/// within the threshold, and of several equally short ones the first.
pub open spec fn is_shortest(
    runs: Seq<(int, int)>,
    i: int,
    n: int,
    c: int,
    threshold: int,
    shift: Option<int>,
) -> bool {
    match shift {
        None => forall|j: int, way: int|
            listed_before(i, j, way, n, c) ==> length(#[trigger] gap(runs[i], runs[j], way))
                > threshold,
        Some(by) => {
            &&& length(by) <= threshold
            &&& exists|k: int, best: int|
                {
                    &&& listed_before(i, k, best, n, c)
                    &&& #[trigger] gap(runs[i], runs[k], best) == by
                    &&& forall|j: int, way: int|
                        listed_before(i, j, way, n, c) ==> {
                            &&& length(by) <= length(#[trigger] gap(runs[i], runs[j], way))
                            &&& listed_before(i, j, way, k, best) ==> length(by) < length(
                                gap(runs[i], runs[j], way),
                            )
                        }
                }
        },
    }
}

proof fn shortest_step(
    runs: Seq<(int, int)>,
    i: int,
    n: int,
    c: int,
    threshold: int,
    shift: Option<int>,
)
    requires
        0 <= n,
        n != i,
        0 <= c < 3,
        is_shortest(runs, i, n, c, threshold, shift),
    ensures
        is_shortest(
            runs,
            i,
            n,
            c + 1,
            threshold,
            layout::better(shift, gap(runs[i], runs[n], c), threshold),
        ),
{
    let g = gap(runs[i], runs[n], c);
    let next = layout::better(shift, g, threshold);
    assert forall|j: int, way: int|
        listed_before(i, j, way, n, c + 1) && !listed_before(i, j, way, n, c) implies j == n && way
        == c by {}
    if next is Some {
        if next == Some(g) && (shift is None || length(g) < length(shift->0)) {
            assert(listed_before(i, n, c, n, c + 1) && gap(runs[i], runs[n], c) == g);
            assert forall|j: int, way: int| listed_before(i, j, way, n, c + 1) implies {
                &&& length(g) <= length(#[trigger] gap(runs[i], runs[j], way))
                &&& listed_before(i, j, way, n, c) ==> length(g) < length(
                    gap(runs[i], runs[j], way),
                )
            } by {}
        } else {
            let by = shift->0;
            let (k, best) = choose|k: int, best: int|
                {
                    &&& listed_before(i, k, best, n, c)
                    &&& #[trigger] gap(runs[i], runs[k], best) == by
                    &&& forall|j: int, way: int|
                        listed_before(i, j, way, n, c) ==> {
                            &&& length(by) <= length(#[trigger] gap(runs[i], runs[j], way))
                            &&& listed_before(i, j, way, k, best) ==> length(by) < length(
                                gap(runs[i], runs[j], way),
                            )
                        }
                };
            assert(listed_before(i, k, best, n, c + 1) && gap(runs[i], runs[k], best) == by);
            assert forall|j: int, way: int| listed_before(i, j, way, n, c + 1) implies {
                &&& length(by) <= length(#[trigger] gap(runs[i], runs[j], way))
                &&& listed_before(i, j, way, k, best) ==> length(by) < length(
                    gap(runs[i], runs[j], way),
                )
            } by {
                if !listed_before(i, j, way, n, c) {
                    assert(j == n && way == c);
                }
            }
        }
    }
}

/// The same list of ways, told apart by its end.
proof fn shortest_turn(
    runs: Seq<(int, int)>,
    i: int,
    n: int,
    c: int,
    m: int,
    d: int,
    threshold: int,
    shift: Option<int>,
)
    requires
        is_shortest(runs, i, n, c, threshold, shift),
        forall|j: int, way: int|
            listed_before(i, j, way, n, c) <==> #[trigger] listed_before(i, j, way, m, d),
    ensures
        is_shortest(runs, i, m, d, threshold, shift),
{
    assert forall|j: int, way: int| listed_before(i, j, way, m, d) implies listed_before(
        i,
        j,
        way,
        n,
        c,
    ) by {}
    if shift is Some {
        let by = shift->0;
        let (k, best) = choose|k: int, best: int|
            {
                &&& listed_before(i, k, best, n, c)
                &&& #[trigger] gap(runs[i], runs[k], best) == by
                &&& forall|j: int, way: int|
                    listed_before(i, j, way, n, c) ==> {
                        &&& length(by) <= length(#[trigger] gap(runs[i], runs[j], way))
                        &&& listed_before(i, j, way, k, best) ==> length(by) < length(
                            gap(runs[i], runs[j], way),
                        )
                    }
            };
        assert(listed_before(i, k, best, m, d) && gap(runs[i], runs[k], best) == by);
    }
}

/// The horizontal extent of each box.
pub open spec fn across(boxes: Seq<Area>) -> Seq<(int, int)> {
    boxes.map_values(|b: Area| (b.x, b.w))
}

/// The vertical extent of each box.
pub open spec fn down(boxes: Seq<Area>) -> Seq<(int, int)> {
    boxes.map_values(|b: Area| (b.y, b.h))
}

proof fn shortest_across(boxes: Seq<Area>, i: int, n: int, threshold: int)
    requires
        0 <= i < boxes.len(),
        0 <= n <= boxes.len(),
    ensures
        is_shortest(
            across(boxes),
            i,
            n,
            0,
            threshold,
            layout::best_shift(layout::shifts_x(boxes, i, n), threshold),
        ),
    decreases n,
{
    let runs = across(boxes);
    if n > 0 {
        shortest_across(boxes, i, n - 1, threshold);
        let before = layout::shifts_x(boxes, i, n - 1);
        let found = layout::best_shift(before, threshold);
        if n - 1 == i {
            shortest_turn(runs, i, n - 1, 0, n, 0, threshold, found);
        } else {
            let m = n - 1;
            let a = gap(runs[i], runs[m], 0);
            let b = gap(runs[i], runs[m], 1);
            let c = gap(runs[i], runs[m], 2);
            layout::best_shift_three(before, a, b, c, threshold);
            let one = layout::better(found, a, threshold);
            let two = layout::better(one, b, threshold);
            let three = layout::better(two, c, threshold);
            shortest_step(runs, i, m, 0, threshold, found);
            shortest_step(runs, i, m, 1, threshold, one);
            shortest_step(runs, i, m, 2, threshold, two);
            shortest_turn(runs, i, m, 3, n, 0, threshold, three);
        }
    }
}

proof fn shortest_down(boxes: Seq<Area>, i: int, n: int, threshold: int)
    requires
        0 <= i < boxes.len(),
        0 <= n <= boxes.len(),
    ensures
        is_shortest(
            down(boxes),
            i,
            n,
            0,
            threshold,
            layout::best_shift(layout::shifts_y(boxes, i, n), threshold),
        ),
    decreases n,
{
    let runs = down(boxes);
    if n > 0 {
        shortest_down(boxes, i, n - 1, threshold);
        let before = layout::shifts_y(boxes, i, n - 1);
        let found = layout::best_shift(before, threshold);
        if n - 1 == i {
            shortest_turn(runs, i, n - 1, 0, n, 0, threshold, found);
        } else {
            let m = n - 1;
            let a = gap(runs[i], runs[m], 0);
            let b = gap(runs[i], runs[m], 1);
            let c = gap(runs[i], runs[m], 2);
            layout::best_shift_three(before, a, b, c, threshold);
            let one = layout::better(found, a, threshold);
            let two = layout::better(one, b, threshold);
            let three = layout::better(two, c, threshold);
            shortest_step(runs, i, m, 0, threshold, found);
            shortest_step(runs, i, m, 1, threshold, one);
            shortest_step(runs, i, m, 2, threshold, two);
            shortest_turn(runs, i, m, 3, n, 0, threshold, three);
        }
    }
}

/// A run of pixels was moved as snapping moves it: by the shortest way that meets
/// another run, where one is within the threshold, and otherwise not at all.
pub open spec fn is_snapped(runs: Seq<(int, int)>, i: int, threshold: int, by: int) -> bool {
    ||| is_shortest(runs, i, runs.len() as int, 0, threshold, Some(by))
    ||| by == 0 && is_shortest(runs, i, runs.len() as int, 0, threshold, None)
}

/// Where a device is when the turn to be snapped comes to device `i`: those before
/// it are where they end up, those after it where they started.
pub open spec fn at_turn(devices: Seq<Device>, i: int, j: int, threshold: int) -> (int, int) {
    if j < i {
        layout::snapped_offset(devices, j, threshold)
    } else {
        (devices[j].offset.0 as int, devices[j].offset.1 as int)
    }
}

/// The horizontal extent of each device when the turn comes to device `i`.
pub open spec fn across_at_turn(devices: Seq<Device>, i: int, threshold: int) -> Seq<(int, int)> {
    Seq::new(
        devices.len(),
        |j: int|
            (
                devices[j].local_bounds.x + at_turn(devices, i, j, threshold).0,
                devices[j].local_bounds.w as int,
            ),
    )
}

/// The vertical extent of each device when the turn comes to device `i`.
pub open spec fn down_at_turn(devices: Seq<Device>, i: int, threshold: int) -> Seq<(int, int)> {
    Seq::new(
        devices.len(),
        |j: int|
            (
                devices[j].local_bounds.y + at_turn(devices, i, j, threshold).1,
                devices[j].local_bounds.h as int,
            ),
    )
}

/// Snapping takes the devices in turn and moves each, on either axis, by the
/// shortest way that makes one of its edges meet an edge of another device, where
/// there is one within the threshold. The host stays.
pub proof fn snapping_takes_the_shortest_way(devices: Seq<Device>, i: int, threshold: int)
    requires
        0 <= i < devices.len(),
    ensures
        ({
            let to = layout::snapped_offset(devices, i, threshold);
            let x = to.0 - devices[i].offset.0;
            let y = to.1 - devices[i].offset.1;
            &&& i == 0 ==> x == 0 && y == 0
            &&& i > 0 ==> is_snapped(across_at_turn(devices, i, threshold), i, threshold, x)
            &&& i > 0 ==> is_snapped(down_at_turn(devices, i, threshold), i, threshold, y)
        }),
{
    let boxes = layout::wall_boxes(devices);
    let n = boxes.len() as int;
    if i == 0 {
        layout::snapped_boxes_settle(boxes, 1, n, 0, threshold);
    } else {
        let turn = layout::snapped_boxes(boxes, i, threshold);
        layout::snapped_boxes_pending(boxes, i, i, threshold);
        layout::snapped_boxes_settle(boxes, i + 1, n, i, threshold);
        assert forall|j: int| 0 <= j < n implies {
            let at = at_turn(devices, i, j, threshold);
            #[trigger] turn[j] == (Area {
                x: devices[j].local_bounds.x + at.0,
                y: devices[j].local_bounds.y + at.1,
                w: devices[j].local_bounds.w as int,
                h: devices[j].local_bounds.h as int,
            })
        } by {
            if j < i {
                layout::snapped_boxes_settle(boxes, i, n, j, threshold);
                layout::snapped_boxes_keep_size(boxes, i, j, threshold);
            } else {
                layout::snapped_boxes_pending(boxes, i, j, threshold);
            }
        }
        assert(across(turn) =~= across_at_turn(devices, i, threshold));
        assert(down(turn) =~= down_at_turn(devices, i, threshold));
        shortest_across(turn, i, n, threshold);
        shortest_down(turn, i, n, threshold);
    }
}

/// Two runs of pixels meet: one begins where the other ends, or both begin at the
/// same place.
pub open spec fn meets(a: (int, int), b: (int, int)) -> bool {
    a.0 == b.0 + b.1 || a.0 + a.1 == b.0 || a.0 == b.0
}

/// No gap is left that was within the threshold: where an edge of a device was
/// that near to the facing edge, or the corresponding edge, of another, then after
/// snapping the device meets another one on that axis.
pub proof fn near_edges_meet(devices: Seq<Device>, i: int, j: int, threshold: int)
    requires
        1 <= i < devices.len(),
        0 <= j < devices.len(),
        j != i,
    ensures
        ({
            let xs = across_at_turn(devices, i, threshold);
            let x = layout::snapped_offset(devices, i, threshold).0 - devices[i].offset.0;
            let near = |d: int| -threshold <= d <= threshold;
            near(xs[j].0 + xs[j].1 - xs[i].0) || near(xs[j].0 - (xs[i].0 + xs[i].1)) || near(
                xs[j].0 - xs[i].0,
            ) ==> exists|k: int|
                0 <= k < xs.len() && k != i && meets((xs[i].0 + x, xs[i].1), #[trigger] xs[k])
        }),
        ({
            let ys = down_at_turn(devices, i, threshold);
            let y = layout::snapped_offset(devices, i, threshold).1 - devices[i].offset.1;
            let near = |d: int| -threshold <= d <= threshold;
            near(ys[j].0 + ys[j].1 - ys[i].0) || near(ys[j].0 - (ys[i].0 + ys[i].1)) || near(
                ys[j].0 - ys[i].0,
            ) ==> exists|k: int|
                0 <= k < ys.len() && k != i && meets((ys[i].0 + y, ys[i].1), #[trigger] ys[k])
        }),
{
    snapping_takes_the_shortest_way(devices, i, threshold);
    let to = layout::snapped_offset(devices, i, threshold);
    let xs = across_at_turn(devices, i, threshold);
    let ys = down_at_turn(devices, i, threshold);
    if length(gap(xs[i], xs[j], 0)) <= threshold || length(gap(xs[i], xs[j], 1)) <= threshold
        || length(gap(xs[i], xs[j], 2)) <= threshold {
        snapped_run_meets(xs, i, j, threshold, to.0 - devices[i].offset.0);
    }
    if length(gap(ys[i], ys[j], 0)) <= threshold || length(gap(ys[i], ys[j], 1)) <= threshold
        || length(gap(ys[i], ys[j], 2)) <= threshold {
        snapped_run_meets(ys, i, j, threshold, to.1 - devices[i].offset.1);
    }
}

proof fn snapped_run_meets(runs: Seq<(int, int)>, i: int, j: int, threshold: int, by: int)
    requires
        0 <= i < runs.len(),
        0 <= j < runs.len(),
        j != i,
        is_snapped(runs, i, threshold, by),
        exists|way: int|
            0 <= way < 3 && length(#[trigger] gap(runs[i], runs[j], way)) <= threshold,
    ensures
        exists|k: int|
            0 <= k < runs.len() && k != i && meets((runs[i].0 + by, runs[i].1), #[trigger] runs[k]),
{
    let n = runs.len() as int;
    let way = choose|way: int|
        0 <= way < 3 && length(#[trigger] gap(runs[i], runs[j], way)) <= threshold;
    assert(listed_before(i, j, way, n, 0));
    if is_shortest(runs, i, n, 0, threshold, Some(by)) {
        let (k, best) = choose|k: int, best: int|
            {
                &&& listed_before(i, k, best, n, 0)
                &&& #[trigger] gap(runs[i], runs[k], best) == by
                &&& forall|j: int, way: int|
                    listed_before(i, j, way, n, 0) ==> {
                        &&& length(by) <= length(#[trigger] gap(runs[i], runs[j], way))
                        &&& listed_before(i, j, way, k, best) ==> length(by) < length(
                            gap(runs[i], runs[j], way),
                        )
                    }
            };
        assert(meets((runs[i].0 + by, runs[i].1), runs[k]));
    }
}

/// A rectangle holds the points from its origin on, up to but not including its
/// far edges, and the nearest point of it is found on each axis by itself.
pub proof fn rectangles_are_half_open(area: Area, px: int, py: int)
    ensures
        area.right() - area.x == area.w,
        area.bottom() - area.y == area.h,
        area.contains(px, py) <==> 0 <= px - area.x < area.w && 0 <= py - area.y < area.h,
        area.w >= 1 ==> {
            let cx = area.clamp(px, py).0;
            &&& 0 <= cx - area.x < area.w
            &&& px < area.x ==> cx == area.x
            &&& 0 <= px - area.x < area.w ==> cx == px
            &&& px - area.x >= area.w ==> cx == area.x + area.w - 1
        },
        area.h >= 1 ==> {
            let cy = area.clamp(px, py).1;
            &&& 0 <= cy - area.y < area.h
            &&& py < area.y ==> cy == area.y
            &&& 0 <= py - area.y < area.h ==> cy == py
            &&& py - area.y >= area.h ==> cy == area.y + area.h - 1
        },
        area.distance_sq(px, py) == apart(px, py, area.clamp(px, py).0, area.clamp(px, py).1),
{
}

/// The smallest rectangle around two reaches exactly as far on each side as the
/// one of them that reaches further.
pub proof fn union_reaches_as_far_as_either(a: Area, b: Area)
    ensures
        ({
            let u = a.union(b);
            &&& u.x <= a.x && u.x <= b.x && (u.x == a.x || u.x == b.x)
            &&& u.y <= a.y && u.y <= b.y && (u.y == a.y || u.y == b.y)
            &&& u.x + u.w >= a.x + a.w && u.x + u.w >= b.x + b.w
            &&& u.x + u.w == a.x + a.w || u.x + u.w == b.x + b.w
            &&& u.y + u.h >= a.y + a.h && u.y + u.h >= b.y + b.h
            &&& u.y + u.h == a.y + a.h || u.y + u.h == b.y + b.h
        }),
{
}

/// What lies where on a device lies there on the wall, moved by the device's
/// offset: its bounding box, and each of its monitors.
pub proof fn the_wall_is_the_device_moved(device: Device, i: int)
    requires
        0 <= i < device.displays@.len(),
    ensures
        device.wall_area().x == device.local_bounds.x + device.offset.0,
        device.wall_area().y == device.local_bounds.y + device.offset.1,
        device.wall_area().w == device.local_bounds.w,
        device.wall_area().h == device.local_bounds.h,
        device.wall_areas().len() == device.displays@.len(),
        device.wall_areas()[i].x == device.displays@[i].x + device.offset.0,
        device.wall_areas()[i].y == device.displays@[i].y + device.offset.1,
        device.displays@[i].width <= i32::MAX ==> device.wall_areas()[i].w
            == device.displays@[i].width,
        device.displays@[i].height <= i32::MAX ==> device.wall_areas()[i].h
            == device.displays@[i].height,
{
    size_of(device.displays@[i].width);
    size_of(device.displays@[i].height);
}

/// A device that reports no monitors stands on the wall as full HD at its origin.
pub proof fn silent_device_has_a_placeholder(device: Device)
    requires
        device.wf(),
        device.displays@.len() == 0,
    ensures
        device.local_bounds.x == 0,
        device.local_bounds.y == 0,
        device.local_bounds.w == 1920,
        device.local_bounds.h == 1080,
{
}

/// The layout editor shows a device by its own id and name, where it is on the
/// wall and as large as it is; the host always counts as connected, any other
/// device while it is.
pub proof fn the_editor_shows_the_wall(
    shown: layout::LayoutDevice,
    device: Device,
    is_host: bool,
)
    requires
        layout::shows(shown, device, is_host),
    ensures
        shown.id@ == crate::protocol::hex_of(device.id@),
        shown.name@ == device.name@,
        shown.is_host == is_host,
        shown.connected == (is_host || device.online),
        shown.x == device.local_bounds.x + device.offset.0,
        shown.y == device.local_bounds.y + device.offset.1,
        shown.width == device.local_bounds.w,
        shown.height == device.local_bounds.h,
        shown.displays@ == device.displays@,
{
}

/// New monitors change the monitors of a device and its bounding box, and nothing
/// else; a new place changes its offset, and nothing else.
pub proof fn changes_touch_nothing_else(after: Device, before: Device, displays: Seq<Display>)
    ensures
        layout::is_redisplayed(after, before, displays) ==> {
            &&& after.displays@ == displays
            &&& after.local_bounds@ == layout::bounds_area(displays)
            &&& after.id == before.id
            &&& after.name == before.name
            &&& after.offset == before.offset
            &&& after.online == before.online
        },
        after.same_but_offset(before) ==> {
            &&& after.displays == before.displays
            &&& after.local_bounds@ == before.local_bounds@
            &&& after.id == before.id
            &&& after.name == before.name
            &&& after.online == before.online
        },
{
}

/// Coordinates are what thirty-two bits hold.
pub proof fn coordinates_are_words(n: int)
    ensures
        layout::fits(n) <==> -0x8000_0000 <= n <= 0x7fff_ffff,
{
}

/// There is room for a device exactly if its bounding box has coordinates and, where it
/// is new, the place at the end of the row has.
pub proof fn room_means_coordinates(wall: Wall, id: Seq<u8>, displays: Seq<Display>)
    ensures
        ({
            let b = layout::bounds_area(displays);
            let end = layout::free_offset(wall.devices@, b);
            let word = |n: int| -0x8000_0000 <= n <= 0x7fff_ffff;
            let known = exists|i: int|
                0 <= i < wall.devices@.len() && (#[trigger] wall.devices@[i]).id@ == id;
            wall.can_upsert(id, displays) <==> {
                &&& word(b.x) && word(b.y) && word(b.w) && word(b.h)
                &&& known || word(end.0) && word(end.1)
            }
        }),
{
    layout::index_from_is_first(wall.devices@, 0, id);
}

/// A host can start with monitors that have at least one pixel each and lie within the
/// coordinates.
pub proof fn usable_monitors_lie_within(displays: Seq<Display>)
    ensures
        layout::lone_device_placed(displays) <==> forall|i: int|
            0 <= i < displays.len() ==> {
                let d = #[trigger] displays[i];
                &&& 1 <= d.width <= i32::MAX
                &&& 1 <= d.height <= i32::MAX
                &&& d.x + d.width <= i32::MAX
                &&& d.y + d.height <= i32::MAX
            },
{
    assert forall|i: int| 0 <= i < displays.len() implies {
        let d = #[trigger] displays[i];
        let area = layout::display_area(d);
        area.solid() && area.edges_fit() <==> {
            &&& 1 <= d.width <= i32::MAX
            &&& 1 <= d.height <= i32::MAX
            &&& d.x + d.width <= i32::MAX
            &&& d.y + d.height <= i32::MAX
        }
    } by {
        size_of(displays[i].width);
        size_of(displays[i].height);
    }
    if !layout::lone_device_placed(displays) {
        let i = choose|i: int|
            0 <= i < displays.len() && !(layout::display_area(#[trigger] displays[i]).solid()
                && layout::display_area(displays[i]).edges_fit());
        let d = displays[i];
    }
}

} // verus!
