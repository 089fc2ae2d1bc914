use crossdesk::capture::win::{
    self, keyboard_hook, modifier_bit, mouse_hook, raw_motion, INJECTED_TAG, VK_HOME, VK_LCONTROL,
    VK_RMENU, WM_KEYDOWN, WM_KEYUP, WM_LBUTTONDOWN, WM_MBUTTONUP, WM_MOUSEHWHEEL, WM_MOUSEWHEEL,
    WM_SYSKEYDOWN, WM_XBUTTONDOWN, WM_XBUTTONUP,
};
use crossdesk::capture::{may_start, supported, CaptureError, CaptureEvent};
use crossdesk::platform::Os;
use crossdesk::protocol::Button;

fn mouse(msg: u32, data: u32) -> Option<CaptureEvent> {
    mouse_hook(0, msg, data, 7, 8, 0, false).event
}

#[test]
fn only_windows_can_host() {
    assert!(supported(Os::Windows));
    assert!(!supported(Os::MacOs));
    assert!(!supported(Os::Other));
}

#[test]
fn mouse_messages_become_events() {
    let button = |button, down| Some(CaptureEvent::Button { button, down });
    assert_eq!(mouse(WM_LBUTTONDOWN, 0), button(Button::Left, true));
    assert_eq!(mouse(WM_MBUTTONUP, 0), button(Button::Middle, false));
    assert_eq!(mouse(WM_XBUTTONDOWN, 1 << 16), button(Button::Back, true));
    assert_eq!(mouse(WM_XBUTTONUP, 2 << 16), button(Button::Forward, false));
    assert_eq!(mouse(WM_MOUSEWHEEL, 120 << 16), Some(CaptureEvent::Wheel { dx: 0, dy: 120 }));
    assert_eq!(
        mouse(WM_MOUSEHWHEEL, ((-120i16) as u16 as u32) << 16),
        Some(CaptureEvent::Wheel { dx: -120, dy: 0 })
    );
    assert_eq!(mouse(0x0200, 0), Some(CaptureEvent::MotionAbs { x: 7, y: 8 }));
}

#[test]
fn suppressed_events_are_swallowed_but_reported() {
    let seen = mouse_hook(0, WM_LBUTTONDOWN, 0, 0, 0, 0, true);
    assert!(seen.swallow && seen.event.is_some());
    assert!(!mouse_hook(0, WM_LBUTTONDOWN, 0, 0, 0, 0, false).swallow);
}

#[test]
fn our_own_input_is_never_captured() {
    let own = mouse_hook(0, WM_LBUTTONDOWN, 0, 0, 0, INJECTED_TAG, true);
    assert!(!own.swallow && own.event.is_none());
    let asked = mouse_hook(3, WM_LBUTTONDOWN, 0, 0, 0, 0, true);
    assert!(!asked.swallow && asked.event.is_none());
    let (key, mods) = keyboard_hook(0, WM_KEYDOWN, 0x11, 0, 0, INJECTED_TAG, 0, true);
    assert!(!key.swallow && key.event.is_none() && mods == 0);
    assert_eq!(raw_motion(48, 0, 0, INJECTED_TAG as u32, 1, 1), None);
}

#[test]
fn keys_are_reported_with_their_scancode() {
    let (seen, mods) = keyboard_hook(0, WM_KEYDOWN, 0x41, 30, 1, 0, 0, false);
    assert_eq!(
        seen.event,
        Some(CaptureEvent::Key { vk: 0x41, scan: 30, ext: true, down: true })
    );
    assert!(!seen.swallow && mods == 0);
    let (up, _) = keyboard_hook(0, WM_KEYUP, 0x41, 30, 0, 0, 0, true);
    assert_eq!(
        up.event,
        Some(CaptureEvent::Key { vk: 0x41, scan: 30, ext: false, down: false })
    );
    assert!(up.swallow);
    let (other, _) = keyboard_hook(0, 0x0109, 0x41, 30, 0, 0, 0, true);
    assert!(other.event.is_none() && !other.swallow);
}

#[test]
fn the_hotkey_works_while_everything_is_suppressed() {
    let press = |vk: u16, mods| keyboard_hook(0, WM_SYSKEYDOWN, vk as u32, 0, 0, 0, mods, true);
    let (_, mods) = press(VK_LCONTROL, 0);
    let (_, mods) = press(VK_RMENU, mods);
    let (hot, _) = press(VK_HOME, mods);
    assert_eq!(hot.event, Some(CaptureEvent::Escape));
    assert!(hot.swallow);
    // Without Ctrl it is an ordinary key.
    let (_, mods) = keyboard_hook(0, WM_KEYUP, VK_LCONTROL as u32, 0, 0, 0, mods, true);
    assert!(matches!(press(VK_HOME, mods).0.event, Some(CaptureEvent::Key { .. })));
}

#[test]
fn modifiers_have_bits() {
    assert_eq!(modifier_bit(0x11), Some(1));
    assert_eq!(modifier_bit(0xA5), Some(2));
    assert_eq!(modifier_bit(0xA0), Some(4));
    assert_eq!(modifier_bit(0x41), None);
}

#[test]
fn raw_input_reports_true_motion() {
    assert_eq!(raw_motion(48, 0, 0, 0, 3, -4), Some(CaptureEvent::Motion { dx: 3, dy: -4 }));
    assert_eq!(raw_motion(48, 0, 0, 0, 0, 0), None);
    assert_eq!(raw_motion(48, 0, 1, 0, 3, -4), None);
    assert_eq!(raw_motion(48, 1, 0, 0, 3, -4), None);
    assert_eq!(raw_motion(u32::MAX, 0, 0, 0, 3, -4), None);
}

#[test]
fn capture_errors_have_words() {
    assert_eq!(
        CaptureError::Unsupported.message(),
        "input capture is not implemented on this platform yet, so this device can only join as a client"
    );
    assert_eq!(
        CaptureError::HookFailed(5).message(),
        "could not install the system input hooks (error 5); another program may already own them"
    );
}

#[test]
fn the_hotkey_takes_either_order_of_modifiers() {
    let mut mods = 0;
    for vk in [win::VK_RMENU, win::VK_LCONTROL] {
        mods = win::keyboard_hook(0, win::WM_SYSKEYDOWN, vk as u32, 0, 0, 0, mods, true).1;
    }
    let (verdict, held) =
        win::keyboard_hook(0, win::WM_KEYDOWN, win::VK_HOME as u32, 0, 0, 0, mods, true);
    assert_eq!(verdict.event, Some(CaptureEvent::Escape));
    assert!(verdict.swallow);
    // Letting Alt go leaves Ctrl held, and the hotkey no longer works.
    let (_, held) =
        win::keyboard_hook(0, win::WM_SYSKEYUP, win::VK_RMENU as u32, 0, 0, 0, held, true);
    assert_eq!(held, win::MOD_CTRL);
    let (verdict, _) =
        win::keyboard_hook(0, win::WM_KEYDOWN, win::VK_HOME as u32, 0, 0, 0, held, true);
    assert!(matches!(verdict.event, Some(CaptureEvent::Key { .. })));
}

#[test]
fn capture_begins_on_windows_only() {
    assert_eq!(may_start(Os::Windows), Ok(()));
    assert_eq!(may_start(Os::MacOs), Err(CaptureError::Unsupported));
    assert_eq!(may_start(Os::Other), Err(CaptureError::Unsupported));
}

#[test]
fn the_hotkey_survives_whatever_was_typed_before() {
    let run = |keys: &[(u32, u16)]| {
        keys.iter().fold(0, |mods, (msg, vk)| {
            keyboard_hook(0, *msg, *vk as u32, 0, 0, 0, mods, true).1
        })
    };
    let home = |mods| keyboard_hook(0, WM_SYSKEYDOWN, VK_HOME as u32, 0, 0, 0, mods, true).0.event;
    let kept = run(&[
        (WM_SYSKEYDOWN, VK_RMENU),
        (WM_KEYDOWN, 0x41),
        (WM_KEYDOWN, VK_LCONTROL),
        (WM_KEYUP, VK_LCONTROL),
        (WM_KEYUP, 0x41),
        (WM_KEYDOWN, 0xA0),
        (WM_KEYDOWN, VK_LCONTROL),
        (WM_KEYUP, 0xA0),
    ]);
    assert_eq!(home(kept), Some(CaptureEvent::Escape));
    let dropped = run(&[
        (WM_SYSKEYDOWN, VK_RMENU),
        (WM_KEYDOWN, VK_LCONTROL),
        (WM_KEYUP, VK_RMENU),
        (WM_KEYDOWN, 0x41),
    ]);
    assert!(matches!(home(dropped), Some(CaptureEvent::Key { .. })));
}
