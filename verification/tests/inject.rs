use crossdesk::inject::macos::{
    vk_to_mac_keycode, Backend, MacButton, MouseKind, MASK_COMMAND, MASK_SHIFT,
};
use crossdesk::inject::other::{translate, PortableKey, Wheel};
use crossdesk::inject::win;
use crossdesk::inject::{refused, Call, InjectError, Injector, KeyId, REOPEN_AFTER};
use crossdesk::platform::Os;
use crossdesk::protocol::{Button, InputEvent};

#[test]
fn test_vk_to_mac_keycodes() {
    assert_eq!(vk_to_mac_keycode(0x41, 0, false), Some((0x00, Some('a'))));
    assert_eq!(vk_to_mac_keycode(0x0D, 0, false), Some((0x24, None)));
    assert_eq!(vk_to_mac_keycode(0x10, 0, false), Some((0x38, None)));
    assert_eq!(vk_to_mac_keycode(0x5B, 0, false), Some((0x37, None)));
    assert_eq!(vk_to_mac_keycode(0x20, 0, false), Some((0x31, Some(' '))));
}

#[test]
fn other_mac_keys() {
    assert_eq!(vk_to_mac_keycode(0x39, 0, false), Some((0x19, Some('9'))));
    assert_eq!(vk_to_mac_keycode(0x69, 0, false), Some((0x5C, Some('9'))));
    assert_eq!(vk_to_mac_keycode(0xDE, 0, false), Some((0x27, Some('\''))));
    assert_eq!(vk_to_mac_keycode(0x83, 0, false), Some((0x5A, None)));
    assert_eq!(vk_to_mac_keycode(0x6C, 0, false), Some((0x4C, None)));
    assert_eq!(vk_to_mac_keycode(0x07, 0, false), None);
    assert_eq!(vk_to_mac_keycode(0xB0, 0, false), None);
}

#[test]
fn mac_modifiers_are_kept_on_every_event() {
    let mut mac = Backend::new();
    let shift = mac.key(0xA1, 0, false, true).unwrap();
    assert_eq!((shift.keycode, shift.flags, shift.character), (0x3C, MASK_SHIFT, None));
    let a = mac.key(0x41, 0, false, true).unwrap();
    assert_eq!((a.keycode, a.flags, a.character), (0x00, MASK_SHIFT, Some('a')));
    mac.key(0x5B, 0, false, true);
    assert_eq!(mac.move_abs().flags, MASK_SHIFT | MASK_COMMAND);
    let up = mac.key(0xA1, 0, false, false).unwrap();
    assert_eq!((up.flags, up.character), (MASK_COMMAND, None));
    assert!(mac.key(0x07, 0, false, true).is_none());
}

#[test]
fn mac_moves_are_drags_while_a_button_is_down() {
    let mut mac = Backend::new();
    assert_eq!(mac.move_abs().kind, MouseKind::Moved);
    let down = mac.button(Button::Right, true);
    assert_eq!((down.kind, down.button, down.number), (MouseKind::RightDown, MacButton::Right, None));
    assert_eq!((mac.move_abs().kind, mac.move_abs().button), (MouseKind::RightDragged, MacButton::Right));
    mac.button(Button::Left, true);
    // Left wins the kind, the right button still labels it.
    assert_eq!((mac.move_abs().kind, mac.move_abs().button), (MouseKind::LeftDragged, MacButton::Right));
    mac.button(Button::Left, false);
    mac.button(Button::Right, false);
    let forward = mac.button(Button::Forward, true);
    assert_eq!(
        (forward.kind, forward.button, forward.number),
        (MouseKind::OtherDown, MacButton::Center, Some(4))
    );
    assert_eq!(mac.move_abs().kind, MouseKind::OtherDragged);
    assert_eq!(mac.button(Button::Middle, false).kind, MouseKind::OtherUp);
    assert_eq!(mac.move_abs().kind, MouseKind::Moved);
}

#[test]
fn mac_wheels_scroll_pixels_and_keep_the_rest() {
    let mut mac = Backend::new();
    assert_eq!(mac.wheel(0, 9), None);
    assert_eq!(mac.wheel(0, 9), Some((1, 0)));
    assert_eq!(mac.wheel(-25, 0), Some((0, -2)));
    assert_eq!((mac.wheel.x, mac.wheel.y), (-5, 8));
    assert_eq!(mac.wheel(0, -120), Some((-11, 0)));
}

#[test]
fn windows_keys_have_portable_names() {
    let key = |vk| translate(vk, Os::Other);
    assert_eq!(key(0x08), Some(PortableKey::Backspace));
    assert_eq!(key(0x35), Some(PortableKey::Unicode('5')));
    assert_eq!(key(0x5A), Some(PortableKey::Unicode('z')));
    assert_eq!(key(0x60), Some(PortableKey::Numpad(0)));
    assert_eq!(key(0x69), Some(PortableKey::Numpad(9)));
    assert_eq!(key(0x6C), Some(PortableKey::Return));
    assert_eq!(key(0x70), Some(PortableKey::Function(1)));
    assert_eq!(key(0x83), Some(PortableKey::Function(20)));
    assert_eq!(key(0xA5), Some(PortableKey::Alt));
    assert_eq!(key(0xB3), Some(PortableKey::MediaPlayPause));
    assert_eq!(key(0xDC), Some(PortableKey::Unicode('\\')));
    assert_eq!(key(0x2D), Some(PortableKey::Insert));
    assert_eq!(translate(0x2D, Os::MacOs), None);
    assert_eq!(key(0x00), None);
    assert_eq!(key(0x84), None);
}

#[test]
fn portable_wheels_turn_in_whole_notches() {
    let mut wheel = Wheel::new();
    assert_eq!(wheel.turn(0, 60), (0, 0));
    // Up on the host is negative here.
    assert_eq!(wheel.turn(0, 60), (-1, 0));
    assert_eq!(wheel.turn(-130, -300), (2, -1));
    assert_eq!((wheel.x, wheel.y), (-10, -60));
}

#[test]
fn pixels_map_onto_the_absolute_range() {
    assert_eq!(win::normalise(0, 1920), 0);
    assert_eq!(win::normalise(1920, 1920), 65535);
    assert_eq!(win::normalise(960, 1920), 32768);
    assert_eq!(win::normalise(1, 1920), 34);
    assert_eq!(win::normalise(-5, 1920), 0);
    assert_eq!(win::normalise(5000, 1920), 65535);
    assert_eq!(win::normalise(3, 0), 65535);
    assert_eq!(win::normalise(i32::MIN, i32::MIN), 0);
    let moved = win::move_abs(100, 50, win::Screen { x: -100, y: 0, w: 400, h: 100 });
    assert_eq!((moved.dx, moved.dy, moved.data, moved.flags), (32768, 32768, 0, 0xC001));
}

#[test]
fn windows_buttons_and_wheels() {
    let left = win::button(Button::Left, true);
    assert_eq!((left.flags, left.data), (0x0002, 0));
    let back = win::button(Button::Back, false);
    assert_eq!((back.flags, back.data), (0x0100, 1));
    let forward = win::button(Button::Forward, true);
    assert_eq!((forward.flags, forward.data), (0x0080, 2));
    assert!(win::wheel(0, 0).is_empty());
    let both = win::wheel(120, -120);
    assert_eq!(both.len(), 2);
    assert_eq!((both[0].flags, both[0].data), (0x0800, (-120i32) as u32));
    assert_eq!((both[1].flags, both[1].data), (0x1000, 120));
    assert_eq!(win::wheel(-1, 0)[0].data, u32::MAX);
}

#[test]
fn windows_keys_prefer_the_physical_key() {
    let down = win::key(0x41, 30, false, true);
    assert_eq!((down.vk, down.scan, down.flags), (0, 30, 0x0008));
    let up = win::key(0x41, 30, true, false);
    assert_eq!((up.vk, up.scan, up.flags), (0, 30, 0x000B));
    let soft = win::key(0xAD, 0, false, false);
    assert_eq!((soft.vk, soft.scan, soft.flags), (0xAD, 0, 0x0002));
}

#[test]
fn windows_text_is_typed_in_utf16() {
    let typed = win::text("a𝄞");
    let units: Vec<u16> = "a𝄞".encode_utf16().collect();
    assert_eq!(typed.len(), 2 * units.len());
    for (i, unit) in units.iter().enumerate() {
        assert_eq!((typed[2 * i].scan, typed[2 * i].flags), (*unit, 0x0004));
        assert_eq!((typed[2 * i + 1].scan, typed[2 * i + 1].flags), (*unit, 0x0006));
    }
    assert!(win::text("").is_empty());
}

fn key(vk: u16, down: bool) -> InputEvent {
    InputEvent::Key { vk, scan: vk + 1, ext: false, down }
}

#[test]
fn a_blocked_backend_is_not_fatal() {
    let blocked = Injector::new(Err(InjectError::Blocked("no".into())), 5).unwrap();
    assert!(!blocked.open);
    assert_eq!(blocked.retry_at, 5 + REOPEN_AFTER);
    assert!(matches!(
        Injector::new(Err(InjectError::Unavailable("x".into())), 5),
        Err(InjectError::Unavailable(why)) if why == "x"
    ));
}

#[test]
fn a_refusal_is_only_temporary_on_a_mac() {
    assert!(matches!(refused(Os::MacOs, "no".into()), InjectError::Blocked(_)));
    assert_eq!(
        refused(Os::Other, "no display".into()).message(),
        "could not open an input device on this platform: no display"
    );
    assert!(refused(Os::MacOs, "no".into()).message().starts_with("macOS has not granted"));
}

#[test]
fn a_blocked_backend_is_tried_again() {
    let mut injector = Injector::new(Err(InjectError::Blocked("no".into())), 0).unwrap();
    let event = InputEvent::MoveAbs { x: 1, y: 1 };
    assert!(!injector.wants_reopen(&event, 999));
    assert!(injector.wants_reopen(&event, 1000));
    // Letting go is not worth opening one for.
    assert!(!injector.wants_reopen(&InputEvent::ReleaseAll, 1000));
    injector.reopened(1000, false);
    assert!(!injector.wants_reopen(&event, 1500));
    assert!(injector.apply(event).is_empty());
    injector.reopened(2000, true);
    assert!(!injector.wants_reopen(&InputEvent::MoveAbs { x: 1, y: 1 }, 9000));
    assert!(matches!(
        injector.apply(InputEvent::MoveAbs { x: 1, y: 2 })[..],
        [Call::MoveAbs { x: 1, y: 2 }]
    ));
}

#[test]
fn everything_held_is_let_go() {
    let mut injector = Injector::new(Ok(()), 0).unwrap();
    injector.apply(key(65, true));
    injector.apply(key(66, true));
    injector.apply(key(65, true));
    injector.apply(InputEvent::Button { button: Button::Left, down: true });
    injector.apply(InputEvent::Button { button: Button::Right, down: true });
    injector.apply(InputEvent::Button { button: Button::Left, down: false });
    injector.apply(key(66, false));
    assert_eq!(injector.keys.len(), 1);
    assert_eq!(injector.buttons, vec![Button::Right]);
    let calls = injector.apply(InputEvent::ReleaseAll);
    assert!(matches!(
        calls[..],
        [
            Call::Key { key: KeyId { vk: 65, scan: 66, ext: false }, down: false },
            Call::Button { button: Button::Right, down: false },
        ]
    ));
    assert!(injector.keys.is_empty() && injector.buttons.is_empty());
    assert!(injector.release_all().is_empty());
}

#[test]
fn the_ledger_is_kept_while_blocked() {
    let mut injector = Injector::new(Err(InjectError::Blocked("no".into())), 0).unwrap();
    assert!(injector.apply(key(65, true)).is_empty());
    assert_eq!(injector.keys.len(), 1);
    assert!(injector.release_all().is_empty());
    assert!(injector.keys.is_empty());
}

#[test]
fn events_become_calls() {
    let mut injector = Injector::new(Ok(()), 0).unwrap();
    assert!(matches!(
        injector.apply(InputEvent::Wheel { dx: 1, dy: -1 })[..],
        [Call::Wheel { dx: 1, dy: -1 }]
    ));
    assert!(matches!(
        &injector.apply(InputEvent::Text("é".into()))[..],
        [Call::Text(t)] if t == "é"
    ));
    assert!(matches!(
        injector.apply(key(65, true))[..],
        [Call::Key { key: KeyId { vk: 65, scan: 66, ext: false }, down: true }]
    ));
}

#[test]
fn no_two_pixels_share_a_place() {
    for x in 0..3839 {
        assert!(win::normalise(x, 3840) < win::normalise(x + 1, 3840));
    }
}
