use crossdesk::layout::{bounds_fit, monitors_usable, Device, Motion, Rect, Wall};
use crossdesk::protocol::Display;

fn display(x: i32, y: i32, w: u32, h: u32) -> Display {
    Display {
        id: 0,
        name: "test".into(),
        x,
        y,
        width: w,
        height: h,
        scale_bits: 1.0f32.to_bits(),
        primary: true,
    }
}

fn wall() -> Wall {
    let host = Device::new([1u8; 16], "host".into(), vec![display(0, 0, 1920, 1080)]);
    let mut wall = Wall::new(host);
    wall.upsert([2u8; 16], "client".into(), vec![display(0, 0, 1280, 720)]);
    wall
}

#[test]
fn new_device_lands_to_the_right() {
    let wall = wall();
    assert_eq!(wall.devices[1].wall_bounds().x, 1920);
}

#[test]
fn crossing_the_right_edge_switches_device() {
    let mut wall = wall();
    wall.sync_local(1919, 500);
    assert_eq!(
        wall.move_by(5, 0),
        Motion::Switch {
            device: 1,
            x: 4,
            y: 500 - wall.devices[1].offset.1
        }
    );
    assert!(!wall.is_local());
}

#[test]
fn moving_back_returns_control_to_the_host() {
    let mut wall = wall();
    wall.sync_local(1919, 500);
    wall.move_by(5, 0);
    let back = wall.move_by(-10, 0);
    assert!(matches!(back, Motion::Switch { device: 0, .. }));
    assert!(wall.is_local());
}

#[test]
fn motion_into_a_gap_stays_on_the_current_device() {
    let mut wall = wall();
    wall.sync_local(100, 100);
    // Straight up, off the top of every monitor.
    assert!(matches!(wall.move_by(0, -400), Motion::Local { y: 0, .. }));
    assert!(wall.is_local());
}

#[test]
fn a_disconnecting_device_hands_the_pointer_back() {
    let mut wall = wall();
    wall.sync_local(1919, 500);
    wall.move_by(5, 0);
    wall.remove(1);
    assert!(wall.is_local());
    assert_eq!(wall.devices.len(), 1);
}

#[test]
fn an_offline_device_cannot_be_crossed_onto() {
    let mut wall = wall();
    wall.set_online(1, false);
    wall.sync_local(1919, 500);
    // The far edge is now the end of the wall, so the pointer stops there
    // instead of landing on a device that cannot hear about it.
    assert!(matches!(wall.move_by(5, 0), Motion::Local { x: 1919, .. }));
    assert!(wall.is_local());
}

#[test]
fn a_drag_pins_the_pointer_to_one_device() {
    let mut wall = wall();
    wall.sync_local(1919, 500);
    wall.set_locked(true);
    assert!(matches!(wall.move_by(50, 0), Motion::Local { .. }));
    assert!(wall.is_local());
    // Releasing the button lets the next sample cross as usual.
    wall.set_locked(false);
    assert!(matches!(wall.move_by(50, 0), Motion::Switch { device: 1, .. }));
}

#[test]
fn snapping_closes_the_gap_on_both_axes() {
    let mut wall = wall();
    // Dropped down and to the right of the host, close but not touching.
    wall.set_offset(1, 1970, 60);
    wall.snap_edges(120);
    let bounds = wall.devices[1].wall_bounds();
    // Left edge against the host's right edge, tops aligned. A gap on either
    // axis would be a boundary the pointer could never cross.
    assert_eq!((bounds.x, bounds.y), (1920, 0));
}

#[test]
fn a_device_that_reconnects_keeps_its_place() {
    let mut wall = wall();
    wall.set_offset(1, 500, 1080);
    wall.set_online(1, false);
    let idx = wall.upsert([2u8; 16], "client".into(), vec![display(0, 0, 1280, 720)]);
    assert_eq!(idx, 1);
    assert_eq!(wall.devices[1].offset, (500, 1080));
    assert!(wall.devices[1].online);
}

#[test]
fn a_new_device_is_centred_on_the_host() {
    let wall = wall();
    assert_eq!(wall.devices[1].offset, (1920, 180));
    // An odd difference rounds towards zero, whichever is the taller.
    let mut tall = Wall::new(Device::new([1u8; 16], "host".into(), vec![display(0, 0, 100, 101)]));
    tall.upsert([2u8; 16], "client".into(), vec![display(5, 7, 100, 104)]);
    assert_eq!(tall.devices[1].offset, (95, -8));
}

#[test]
fn rectangles_are_half_open() {
    let r = Rect { x: -10, y: 5, w: 20, h: 10 };
    assert_eq!(r.right(), 10);
    assert_eq!(r.bottom(), 15);
    assert!(r.contains(-10, 5));
    assert!(r.contains(9, 14));
    assert!(!r.contains(10, 5));
    assert!(!r.contains(-10, 15));
    assert!(!r.contains(-11, 5));
}

#[test]
fn rectangles_join_clamp_and_measure() {
    let a = Rect { x: 0, y: 0, w: 10, h: 10 };
    let b = Rect { x: 20, y: -5, w: 5, h: 5 };
    assert_eq!(a.union(b), Rect { x: 0, y: -5, w: 25, h: 15 });
    assert_eq!(a.clamp(50, -3), (9, 0));
    assert_eq!(a.clamp(4, 4), (4, 4));
    assert_eq!(a.distance_sq(12, 13), 9 + 16);
    assert_eq!(a.distance_sq(3, 3), 0);
}

#[test]
fn an_l_shaped_desktop_does_not_swallow_the_pointer() {
    // A tall screen and a short one beside it: the corner below the short one
    // belongs to nobody.
    let device = Device::new(
        [3u8; 16],
        "l".into(),
        vec![display(0, 0, 100, 200), display(100, 0, 100, 50)],
    );
    assert_eq!(device.wall_bounds(), Rect { x: 0, y: 0, w: 200, h: 200 });
    assert!(!device.covers(150, 100));
    assert!(device.covers(150, 49));
    // The nearest monitor wins: from just below the short one, up onto it.
    assert_eq!(device.snap(150, 60), (150, 49));
    assert_eq!(device.snap(110, 150), (99, 150));
    assert_eq!(device.wall_displays().len(), 2);
    assert_eq!(device.to_local(7, 8), (7, 8));
}

#[test]
fn a_device_without_monitors_gets_a_placeholder() {
    let device = Device::new([4u8; 16], "headless".into(), vec![]);
    assert_eq!(device.wall_bounds(), Rect { x: 0, y: 0, w: 1920, h: 1080 });
    assert!(!device.covers(5, 5));
    assert_eq!(device.snap(5000, -5), (1919, 0));
}

#[test]
fn equally_near_monitors_go_to_the_first() {
    let device = Device::new(
        [5u8; 16],
        "pair".into(),
        vec![display(0, 0, 10, 10), display(20, 0, 10, 10)],
    );
    // Five pixels from either.
    assert_eq!(device.snap(14, 5), (9, 5));
}

#[test]
fn the_default_row_has_no_gaps() {
    let mut wall = wall();
    wall.upsert([3u8; 16], "third".into(), vec![display(-100, 0, 800, 600)]);
    wall.set_offset(1, -4000, 900);
    wall.set_offset(2, 9000, -900);
    assert!(wall.may_arrange());
    wall.auto_arrange();
    let a = wall.devices[1].wall_bounds();
    let b = wall.devices[2].wall_bounds();
    assert_eq!(a.x, 1920);
    assert_eq!(b.x, a.right());
    assert_eq!(b.y, (1080 - 600) / 2);
    assert_eq!(wall.devices[0].offset, (0, 0));
}

#[test]
fn snapping_leaves_distant_devices_alone() {
    let mut wall = wall();
    wall.set_offset(1, 2200, 400);
    assert!(wall.may_snap(120));
    wall.snap_edges(120);
    assert_eq!(wall.devices[1].offset, (2200, 400));
    // A negative threshold never matches.
    wall.set_offset(1, 1920, 0);
    wall.snap_edges(-1);
    assert_eq!(wall.devices[1].offset, (1920, 0));
}

#[test]
fn removing_a_device_keeps_the_owner_on_its_own() {
    let mut wall = wall();
    wall.upsert([3u8; 16], "third".into(), vec![display(0, 0, 800, 600)]);
    wall.sync_local(1919, 500);
    wall.move_by(5, 0);
    wall.move_by(1280, 0);
    assert_eq!(wall.owner(), 2);
    wall.remove(1);
    assert_eq!(wall.owner(), 1);
    // The host cannot be removed, nor can what is not there.
    wall.remove(0);
    wall.remove(7);
    assert_eq!(wall.devices.len(), 2);
}

#[test]
fn going_offline_hands_the_pointer_back() {
    let mut wall = wall();
    wall.sync_local(1919, 500);
    wall.move_by(30, 0);
    wall.set_locked(true);
    assert!(wall.may_reclaim());
    wall.set_online(1, false);
    assert!(wall.is_local());
    assert_eq!(wall.owner_local(), (1919, 500));
    // The lock went with it.
    assert!(!wall.locked);
}

#[test]
fn remote_motion_is_in_the_devices_own_pixels() {
    let mut wall = wall();
    wall.sync_local(1919, 500);
    wall.move_by(5, 0);
    assert_eq!(wall.move_by(10, 3), Motion::Remote { device: 1, x: 14, y: 323 });
    // While the pointer is away, where the host's own cursor is means nothing.
    wall.sync_local(3, 3);
    assert_eq!(wall.owner_local(), (14, 323));
}

#[test]
fn what_does_not_fit_is_told_apart() {
    let mut wall = wall();
    assert!(wall.may_move(5, 5));
    wall.sync_local(1919, 500);
    assert!(!wall.may_move(i32::MAX, 0));
    assert!(wall.may_sync(0, 0));
    assert!(wall.may_view());
    wall.set_offset(1, i32::MAX, 0);
    assert!(wall.may_view());
    assert!(!wall.may_upsert(&[9u8; 16], &vec![display(0, 0, 10, 10)]));
    assert!(wall.may_upsert(&[2u8; 16], &vec![display(0, 0, 10, 10)]));
    assert!(!bounds_fit(&vec![display(i32::MIN, 0, 10, 10), display(i32::MAX, 0, 10, 10)]));
    assert!(monitors_usable(&vec![display(0, 0, 1, 1)]));
    assert!(!monitors_usable(&vec![display(0, 0, 0, 1)]));
}

#[test]
fn the_editor_sees_every_device() {
    let mut wall = wall();
    wall.set_online(1, false);
    let view = wall.view();
    assert_eq!(view.owner, "01010101010101010101010101010101");
    assert_eq!(view.devices.len(), 2);
    assert!(view.devices[0].is_host && view.devices[0].connected);
    assert!(!view.devices[1].is_host && !view.devices[1].connected);
    assert_eq!(view.devices[1].id, "02020202020202020202020202020202");
    assert_eq!(view.devices[1].name, "client");
    assert_eq!(
        (view.devices[1].x, view.devices[1].y, view.devices[1].width, view.devices[1].height),
        (1920, 180, 1280, 720)
    );
    assert_eq!(view.devices[1].displays.len(), 1);
}

#[test]
fn devices_are_found_by_id_and_by_text() {
    let wall = wall();
    assert_eq!(wall.index_of(&[2u8; 16]), Some(1));
    assert_eq!(wall.index_of(&[7u8; 16]), None);
    assert_eq!(wall.index_of_hex("02020202020202020202020202020202"), Some(1));
    assert_eq!(wall.index_of_hex("02"), None);
    assert_eq!(wall.host().name, "host");
}

#[test]
fn devices_snap_in_turn_to_those_before_them() {
    let mut wall = wall();
    wall.upsert([3u8; 16], "third".into(), vec![display(0, 0, 800, 600)]);
    wall.set_offset(1, 1950, 30);
    wall.set_offset(2, 3300, 200);
    wall.snap_edges(120);
    assert_eq!(wall.devices[1].offset, (1920, 0));
    // Against the right edge that the second device has by now.
    assert_eq!(wall.devices[2].offset, (3200, 200));
}
