//! Windows input capture: low-level hooks for suppression, Raw Input for motion.
//!
//! Hook callbacks are on the critical path of every input event in the system
//! and Windows silently unhooks a callback that is too slow, so all they do is
//! ask here what to report and whether to swallow the event.

use vstd::prelude::*;

use crate::capture::CaptureEvent;
use crate::protocol::Button;

pub mod laws;

verus! {

pub const MOD_CTRL: u32 = 1;

pub const MOD_ALT: u32 = 2;

pub const MOD_SHIFT: u32 = 4;

pub const VK_SHIFT: u16 = 0x10;

pub const VK_CONTROL: u16 = 0x11;

pub const VK_MENU: u16 = 0x12;

pub const VK_LSHIFT: u16 = 0xA0;

pub const VK_RSHIFT: u16 = 0xA1;

pub const VK_LCONTROL: u16 = 0xA2;

pub const VK_RCONTROL: u16 = 0xA3;

pub const VK_LMENU: u16 = 0xA4;

pub const VK_RMENU: u16 = 0xA5;

/// Escape hotkey: Ctrl+Alt+Home brings the pointer back to the host.
pub const VK_HOME: u16 = 0x24;

/// Marker written into `dwExtraInfo` by our own injected input, so a host that
/// is also acting as a client never captures its own synthetic events.
pub const INJECTED_TAG: usize = 0x5844_534B;

pub const WM_KEYDOWN: u32 = 0x0100;

pub const WM_KEYUP: u32 = 0x0101;

pub const WM_SYSKEYDOWN: u32 = 0x0104;

pub const WM_SYSKEYUP: u32 = 0x0105;

pub const WM_LBUTTONDOWN: u32 = 0x0201;

pub const WM_LBUTTONUP: u32 = 0x0202;

pub const WM_RBUTTONDOWN: u32 = 0x0204;

pub const WM_RBUTTONUP: u32 = 0x0205;

pub const WM_MBUTTONDOWN: u32 = 0x0207;

pub const WM_MBUTTONUP: u32 = 0x0208;

pub const WM_MOUSEWHEEL: u32 = 0x020A;

pub const WM_XBUTTONDOWN: u32 = 0x020B;

pub const WM_XBUTTONUP: u32 = 0x020C;

pub const WM_MOUSEHWHEEL: u32 = 0x020E;

/// `HC_ACTION`: the hook is being told about an event, not just consulted.
pub const HC_ACTION: i32 = 0;

/// `LLKHF_EXTENDED`: the key is on the extended part of the keyboard.
pub const LLKHF_EXTENDED: u32 = 1;

/// `RIM_TYPEMOUSE`: raw input from a mouse.
pub const RIM_TYPEMOUSE: u32 = 0;

/// `MOUSE_MOVE_ABSOLUTE`: the device reports positions, not motion.
pub const MOUSE_MOVE_ABSOLUTE: u16 = 1;

/// What a hook does with one event.
#[derive(Clone, Copy, Debug, PartialEq, Eq, Structural)]
pub struct Verdict {
    /// What to report to the host, if anything.
    pub event: Option<CaptureEvent>,
    /// Whether local windows are kept from seeing the event.
    pub swallow: bool,
}

fn ours(extra: usize) -> (r: bool)
    ensures
        r == (extra == INJECTED_TAG),
{
    extra == INJECTED_TAG
}

/// The upper half of a word, read as a signed number.
pub open spec fn high_half(v: u32) -> int {
    let n = v as int / 65536;
    if n >= 32768 {
        n - 65536
    } else {
        n
    }
}

fn hi(v: u32) -> (r: i16)
    ensures
        r == high_half(v),
{
    let n: i32 = (v / 65536) as i32;
    if n >= 32768 {
        (n - 65536) as i16
    } else {
        n as i16
    }
}

/// What a mouse message reports. Anything that is neither a button nor the wheel
/// carries the absolute position.
pub open spec fn mouse_event(msg: u32, mouse_data: u32, x: i32, y: i32) -> CaptureEvent {
    if msg == WM_LBUTTONDOWN {
        CaptureEvent::Button { button: Button::Left, down: true }
    } else if msg == WM_LBUTTONUP {
        CaptureEvent::Button { button: Button::Left, down: false }
    } else if msg == WM_RBUTTONDOWN {
        CaptureEvent::Button { button: Button::Right, down: true }
    } else if msg == WM_RBUTTONUP {
        CaptureEvent::Button { button: Button::Right, down: false }
    } else if msg == WM_MBUTTONDOWN {
        CaptureEvent::Button { button: Button::Middle, down: true }
    } else if msg == WM_MBUTTONUP {
        CaptureEvent::Button { button: Button::Middle, down: false }
    } else if msg == WM_XBUTTONDOWN || msg == WM_XBUTTONUP {
        CaptureEvent::Button {
            button: if high_half(mouse_data) == 2 {
                Button::Forward
            } else {
                Button::Back
            },
            down: msg == WM_XBUTTONDOWN,
        }
    } else if msg == WM_MOUSEWHEEL {
        CaptureEvent::Wheel { dx: 0, dy: high_half(mouse_data) as i16 }
    } else if msg == WM_MOUSEHWHEEL {
        CaptureEvent::Wheel { dx: high_half(mouse_data) as i16, dy: 0 }
    } else {
        CaptureEvent::MotionAbs { x, y }
    }
}

/// The mouse hook. Our own injected events, and calls that only consult the
/// hook, pass through unreported; everything else is reported, and swallowed
/// while a remote device owns the pointer.
pub fn mouse_hook(
    code: i32,
    msg: u32,
    mouse_data: u32,
    x: i32,
    y: i32,
    extra: usize,
    suppress: bool,
) -> (r: Verdict)
    ensures
        r == if code == HC_ACTION && extra != INJECTED_TAG {
            Verdict { event: Some(mouse_event(msg, mouse_data, x, y)), swallow: suppress }
        } else {
            Verdict { event: None, swallow: false }
        },
{
    if code != HC_ACTION || ours(extra) {
        return Verdict { event: None, swallow: false };
    }
    let event = match msg {
        WM_LBUTTONDOWN => CaptureEvent::Button { button: Button::Left, down: true },
        WM_LBUTTONUP => CaptureEvent::Button { button: Button::Left, down: false },
        WM_RBUTTONDOWN => CaptureEvent::Button { button: Button::Right, down: true },
        WM_RBUTTONUP => CaptureEvent::Button { button: Button::Right, down: false },
        WM_MBUTTONDOWN => CaptureEvent::Button { button: Button::Middle, down: true },
        WM_MBUTTONUP => CaptureEvent::Button { button: Button::Middle, down: false },
        WM_XBUTTONDOWN | WM_XBUTTONUP => {
            let down = msg == WM_XBUTTONDOWN;
            let button = if hi(mouse_data) == 2 {
                Button::Forward
            } else {
                Button::Back
            };
            CaptureEvent::Button { button, down }
        },
        WM_MOUSEWHEEL => CaptureEvent::Wheel { dx: 0, dy: hi(mouse_data) },
        WM_MOUSEHWHEEL => CaptureEvent::Wheel { dx: hi(mouse_data), dy: 0 },
        // Absolute position, only acted on while control is local: it keeps the
        // wall in step with anything else moving the cursor.
        _ => CaptureEvent::MotionAbs { x, y },
    };
    Verdict { event: Some(event), swallow: suppress }
}

/// The modifier that a key is, as a bit.
pub open spec fn modifier_of(vk: u16) -> Option<u32> {
    if vk == VK_CONTROL || vk == VK_LCONTROL || vk == VK_RCONTROL {
        Some(MOD_CTRL)
    } else if vk == VK_MENU || vk == VK_LMENU || vk == VK_RMENU {
        Some(MOD_ALT)
    } else if vk == VK_SHIFT || vk == VK_LSHIFT || vk == VK_RSHIFT {
        Some(MOD_SHIFT)
    } else {
        None
    }
}

pub fn modifier_bit(vk: u16) -> (r: Option<u32>)
    ensures
        r == modifier_of(vk),
{
    match vk {
        VK_CONTROL | VK_LCONTROL | VK_RCONTROL => Some(MOD_CTRL),
        VK_MENU | VK_LMENU | VK_RMENU => Some(MOD_ALT),
        VK_SHIFT | VK_LSHIFT | VK_RSHIFT => Some(MOD_SHIFT),
        _ => None,
    }
}

pub open spec fn is_down(msg: u32) -> bool {
    msg == WM_KEYDOWN || msg == WM_SYSKEYDOWN
}

pub open spec fn is_up(msg: u32) -> bool {
    msg == WM_KEYUP || msg == WM_SYSKEYUP
}

/// The modifiers held after a key message.
pub open spec fn modifiers_after(mods: u32, msg: u32, vk: u16) -> u32 {
    match modifier_of(vk) {
        Some(bit) => if is_down(msg) {
            mods | bit
        } else if is_up(msg) {
            mods & !bit
        } else {
            mods
        },
        None => mods,
    }
}

/// The key went down that, with Ctrl and Alt held, brings the pointer home.
pub open spec fn is_escape(mods: u32, msg: u32, vk: u16) -> bool {
    is_down(msg) && vk == VK_HOME && mods & MOD_CTRL != 0 && mods & MOD_ALT != 0
}

/// The keyboard hook, with the modifiers held so far. Gives what to do with the
/// event and the modifiers held afterwards.
///
/// Modifiers are followed here so the escape hotkey works even while every key
/// is being suppressed; the hotkey itself is always swallowed.
pub fn keyboard_hook(
    code: i32,
    msg: u32,
    vk_code: u32,
    scan_code: u32,
    flags: u32,
    extra: usize,
    mods: u32,
    suppress: bool,
) -> (r: (Verdict, u32))
    ensures
        r == ({
            let vk = vk_code as u16;
            let held = modifiers_after(mods, msg, vk);
            if code != HC_ACTION || extra == INJECTED_TAG || !(is_down(msg) || is_up(msg)) {
                (Verdict { event: None, swallow: false }, mods)
            } else if is_escape(held, msg, vk) {
                (Verdict { event: Some(CaptureEvent::Escape), swallow: true }, held)
            } else {
                (
                    Verdict {
                        event: Some(
                            CaptureEvent::Key {
                                vk,
                                scan: scan_code as u16,
                                ext: flags & LLKHF_EXTENDED != 0,
                                down: is_down(msg),
                            },
                        ),
                        swallow: suppress,
                    },
                    held,
                )
            }
        }),
{
    if code != HC_ACTION || ours(extra) {
        return (Verdict { event: None, swallow: false }, mods);
    }
    let down = msg == WM_KEYDOWN || msg == WM_SYSKEYDOWN;
    let up = msg == WM_KEYUP || msg == WM_SYSKEYUP;
    let vk: u16 = vk_code as u16;
    if !down && !up {
        return (Verdict { event: None, swallow: false }, mods);
    }
    let held: u32 = match modifier_bit(vk) {
        Some(bit) => if down {
            mods | bit
        } else {
            mods & !bit
        },
        None => mods,
    };
    if down && vk == VK_HOME && held & MOD_CTRL != 0 && held & MOD_ALT != 0 {
        return (Verdict { event: Some(CaptureEvent::Escape), swallow: true }, held);
    }
    let event = CaptureEvent::Key {
        vk,
        scan: scan_code as u16,
        ext: flags & LLKHF_EXTENDED != 0,
        down,
    };
    (Verdict { event: Some(event), swallow: suppress }, held)
}

/// The modifiers held after a run of key messages, each with its key.
pub open spec fn modifiers_over(mods: u32, run: Seq<(u32, u16)>) -> u32
    decreases run.len(),
{
    if run.len() == 0 {
        mods
    } else {
        modifiers_after(modifiers_over(mods, run.drop_last()), run.last().0, run.last().1)
    }
}

/// A message that a key of this modifier went down.
pub open spec fn presses(message: (u32, u16), bit: u32) -> bool {
    is_down(message.0) && modifier_of(message.1) == Some(bit)
}

/// A message that a key of this modifier came up.
pub open spec fn releases(message: (u32, u16), bit: u32) -> bool {
    is_up(message.0) && modifier_of(message.1) == Some(bit)
}

/// No key of this modifier came up from a position of a run on.
pub open spec fn kept_from(run: Seq<(u32, u16)>, from: int, bit: u32) -> bool {
    forall|i: int| from <= i < run.len() ==> !releases(#[trigger] run[i], bit)
}

/// A modifier is down at the end of a run: it went down at some point, or was
/// down before it, and has not come up since.
pub open spec fn is_held(mods: u32, run: Seq<(u32, u16)>, bit: u32) -> bool {
    ||| mods & bit != 0 && kept_from(run, 0, bit)
    ||| exists|i: int|
        0 <= i < run.len() && presses(#[trigger] run[i], bit) && kept_from(run, i, bit)
}

/// The bits follow the keys: after any run of messages, in any order, a
/// modifier's bit is set exactly when the modifier is down.
pub proof fn bits_follow_the_keys(mods: u32, run: Seq<(u32, u16)>, bit: u32)
    requires
        bit == MOD_CTRL || bit == MOD_ALT || bit == MOD_SHIFT,
    ensures
        modifiers_over(mods, run) & bit != 0 <==> is_held(mods, run, bit),
    decreases run.len(),
{
    if run.len() > 0 {
        let before = run.drop_last();
        let last = run.last();
        let m = modifiers_over(mods, before);
        bits_follow_the_keys(mods, before, bit);
        if let Some(key) = modifier_of(last.1) {
            assert((m | bit) & bit != 0) by (bit_vector)
                requires
                    bit == 1 || bit == 2 || bit == 4,
            ;
            assert((m & !bit) & bit == 0) by (bit_vector);
            if key != bit {
                assert((m | key) & bit == m & bit && (m & !key) & bit == m & bit) by (bit_vector)
                    requires
                        bit == 1 || bit == 2 || bit == 4,
                        key == 1 || key == 2 || key == 4,
                        key != bit,
                ;
            }
        }
        assert(forall|i: int| 0 <= i < before.len() ==> #[trigger] run[i] == before[i]);
        assert(run[run.len() - 1] == last);
        if releases(last, bit) {
            assert forall|from: int| 0 <= from < run.len() implies !kept_from(run, from, bit) by {
                assert(releases(run[run.len() - 1], bit));
            }
        } else {
            assert forall|from: int| 0 <= from <= before.len() implies (kept_from(run, from, bit)
                <==> kept_from(before, from, bit)) by {
                if kept_from(run, from, bit) {
                    assert forall|i: int| from <= i < before.len() implies !releases(
                        #[trigger] before[i],
                        bit,
                    ) by {
                        assert(!releases(run[i], bit));
                    }
                }
            }
            if presses(last, bit) {
                assert(presses(run[run.len() - 1], bit) && kept_from(run, run.len() - 1, bit));
            } else if is_held(mods, before, bit) {
                if !(mods & bit != 0 && kept_from(before, 0, bit)) {
                    let i = choose|i: int|
                        0 <= i < before.len() && presses(#[trigger] before[i], bit) && kept_from(
                            before,
                            i,
                            bit,
                        );
                    assert(presses(run[i], bit) && kept_from(run, i, bit));
                }
            } else if is_held(mods, run, bit) && !(mods & bit != 0 && kept_from(run, 0, bit)) {
                let i = choose|i: int|
                    0 <= i < run.len() && presses(#[trigger] run[i], bit) && kept_from(run, i, bit);
                assert(presses(before[i], bit) && kept_from(before, i, bit));
            }
        }
    }
}

/// Home calls the pointer back exactly when Ctrl and Alt are down: whatever run
/// of keys came before, in whatever order, whichever key-down message the
/// system sends, and whether or not input is being suppressed.
pub proof fn hotkey_always_works(mods: u32, run: Seq<(u32, u16)>, msg: u32)
    requires
        is_down(msg),
    ensures
        is_escape(modifiers_after(modifiers_over(mods, run), msg, VK_HOME), msg, VK_HOME) <==> {
            &&& is_held(mods, run, MOD_CTRL)
            &&& is_held(mods, run, MOD_ALT)
        },
{
    bits_follow_the_keys(mods, run, MOD_CTRL);
    bits_follow_the_keys(mods, run, MOD_ALT);
}

/// Letting a modifier go clears it and no other.
pub proof fn released_modifier_is_forgotten(mods: u32, msg: u32, vk: u16)
    requires
        is_up(msg),
        modifier_of(vk) is Some,
    ensures
        ({
            let after = modifiers_after(mods, msg, vk);
            let released = modifier_of(vk)->0;
            &&& after & released == 0
            &&& released != MOD_CTRL ==> after & MOD_CTRL == mods & MOD_CTRL
            &&& released != MOD_ALT ==> after & MOD_ALT == mods & MOD_ALT
            &&& released != MOD_SHIFT ==> after & MOD_SHIFT == mods & MOD_SHIFT
        }),
{
    assert((mods & !1u32) & 1u32 == 0) by (bit_vector);
    assert((mods & !2u32) & 2u32 == 0) by (bit_vector);
    assert((mods & !4u32) & 4u32 == 0) by (bit_vector);
    assert((mods & !1u32) & 2u32 == mods & 2u32) by (bit_vector);
    assert((mods & !1u32) & 4u32 == mods & 4u32) by (bit_vector);
    assert((mods & !2u32) & 1u32 == mods & 1u32) by (bit_vector);
    assert((mods & !2u32) & 4u32 == mods & 4u32) by (bit_vector);
    assert((mods & !4u32) & 1u32 == mods & 1u32) by (bit_vector);
    assert((mods & !4u32) & 2u32 == mods & 2u32) by (bit_vector);
}

/// What raw input reports. It is the only source of true device deltas: it keeps
/// reporting "moved right" after the cursor has already been pinned to the
/// screen edge, which is exactly the moment the wall needs to know about.
///
/// Absolute-mode devices (tablets, RDP) carry no usable delta; the hook's
/// absolute position covers those instead.
pub fn raw_motion(
    read: u32,
    kind: u32,
    flags: u16,
    extra: u32,
    last_x: i32,
    last_y: i32,
) -> (r: Option<CaptureEvent>)
    ensures
        r == if read != u32::MAX && kind == RIM_TYPEMOUSE && flags & MOUSE_MOVE_ABSOLUTE == 0
            && extra as usize != INJECTED_TAG && (last_x != 0 || last_y != 0) {
            Some(CaptureEvent::Motion { dx: last_x, dy: last_y })
        } else {
            None
        },
{
    if read == u32::MAX || kind != RIM_TYPEMOUSE {
        return None;
    }
    let absolute = flags & MOUSE_MOVE_ABSOLUTE != 0;
    if !absolute && !ours(extra as usize) && (last_x != 0 || last_y != 0) {
        Some(CaptureEvent::Motion { dx: last_x, dy: last_y })
    } else {
        None
    }
}

} // verus!
