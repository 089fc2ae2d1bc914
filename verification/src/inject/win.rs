//! What to hand to `SendInput`.
//!
//! Keys go in as **scancodes** rather than virtual-key codes: the host and the
//! client may well have different keyboard layouts, and a scancode means "the
//! physical key in that position", which is what the user actually pressed.

use vstd::prelude::*;

use crate::layout;
use crate::protocol::Button;
use crate::text;

pub mod laws;

verus! {

pub const MOUSEEVENTF_MOVE: u32 = 0x0001;

pub const MOUSEEVENTF_LEFTDOWN: u32 = 0x0002;

pub const MOUSEEVENTF_LEFTUP: u32 = 0x0004;

pub const MOUSEEVENTF_RIGHTDOWN: u32 = 0x0008;

pub const MOUSEEVENTF_RIGHTUP: u32 = 0x0010;

pub const MOUSEEVENTF_MIDDLEDOWN: u32 = 0x0020;

pub const MOUSEEVENTF_MIDDLEUP: u32 = 0x0040;

pub const MOUSEEVENTF_XDOWN: u32 = 0x0080;

pub const MOUSEEVENTF_XUP: u32 = 0x0100;

pub const MOUSEEVENTF_WHEEL: u32 = 0x0800;

pub const MOUSEEVENTF_HWHEEL: u32 = 0x1000;

pub const MOUSEEVENTF_VIRTUALDESK: u32 = 0x4000;

pub const MOUSEEVENTF_ABSOLUTE: u32 = 0x8000;

pub const KEYEVENTF_EXTENDEDKEY: u32 = 0x0001;

pub const KEYEVENTF_KEYUP: u32 = 0x0002;

pub const KEYEVENTF_UNICODE: u32 = 0x0004;

pub const KEYEVENTF_SCANCODE: u32 = 0x0008;

pub const XBUTTON1: u32 = 1;

pub const XBUTTON2: u32 = 2;

/// The fields of a `MOUSEINPUT` that vary.
#[derive(Clone, Copy, Debug, PartialEq, Eq, Structural)]
pub struct MouseInput {
    pub dx: i32,
    pub dy: i32,
    pub data: u32,
    pub flags: u32,
}

/// The fields of a `KEYBDINPUT` that vary.
#[derive(Clone, Copy, Debug, PartialEq, Eq, Structural)]
pub struct KeyInput {
    pub vk: u16,
    pub scan: u16,
    pub flags: u32,
}

/// The virtual desktop: its corner and its extent.
#[derive(Clone, Copy, Debug, PartialEq, Eq, Structural)]
pub struct Screen {
    pub x: i32,
    pub y: i32,
    pub w: i32,
    pub h: i32,
}

/// A pixel offset as a share of an extent, in 65535ths, rounded to the nearest
/// and kept on the screen.
pub open spec fn normalised(offset: int, extent: int) -> int {
    let whole = if extent < 1 {
        1
    } else {
        extent
    };
    layout::clamped((offset * 65535 + whole / 2) / whole, 0, 65535)
}

/// Maps a pixel offset into the 0..=65535 range `SendInput` wants, rounding to
/// the nearest pixel centre so the cursor lands where the host said.
pub fn normalise(offset: i32, extent: i32) -> (r: i32)
    ensures
        r == normalised(offset as int, extent as int),
        0 <= r <= 65535,
{
    let whole: i64 = if extent < 1 {
        1
    } else {
        extent as i64
    };
    let scaled: i64 = offset as i64 * 65535 + whole / 2;
    if scaled < 0 {
        assert((scaled as int) / (whole as int) < 0) by (nonlinear_arith)
            requires
                scaled < 0,
                whole > 0,
        ;
        return 0;
    }
    let value: i64 = scaled / whole;
    assert(value >= 0) by (nonlinear_arith)
        requires
            scaled >= 0,
            whole > 0,
            value == scaled / whole,
    ;
    if value > 65535 {
        65535
    } else {
        value as i32
    }
}

/// Every offset maps onto the screen, and moving right never maps further left.
pub proof fn normalised_is_monotonic(a: int, b: int, extent: int)
    requires
        a <= b,
    ensures
        0 <= normalised(a, extent) <= normalised(b, extent) <= 65535,
{
    let whole = if extent < 1 {
        1
    } else {
        extent
    };
    let x = a * 65535 + whole / 2;
    let y = b * 65535 + whole / 2;
    assert(x / whole <= y / whole) by (nonlinear_arith)
        requires
            x <= y,
            whole > 0,
    ;
}

/// No two pixels of a screen are mapped to the same place, as long as there are
/// places enough.
pub proof fn pixels_stay_apart(a: int, b: int, extent: int)
    requires
        0 <= a < b < extent <= 65535,
    ensures
        normalised(a, extent) < normalised(b, extent),
{
    let x = a * 65535 + extent / 2;
    let y = b * 65535 + extent / 2;
    assert(x / extent + 1 <= y / extent) by (nonlinear_arith)
        requires
            x + extent <= y,
            extent > 0,
    ;
    assert(0 <= x / extent) by (nonlinear_arith)
        requires
            0 <= x,
            extent > 0,
    ;
    assert(y / extent <= 65535) by (nonlinear_arith)
        requires
            y <= 65535 * extent,
            extent > 0,
    ;
}

/// Moves the pointer. `MOUSEEVENTF_ABSOLUTE` takes 0..=65535 across the whole
/// virtual desktop, which is why `VIRTUALDESK` has to be set as well: without it
/// the range covers only the primary monitor.
pub fn move_abs(x: i32, y: i32, screen: Screen) -> (r: MouseInput)
    requires
        layout::fits(x - screen.x),
        layout::fits(y - screen.y),
    ensures
        r == (MouseInput {
            dx: normalised(x - screen.x, screen.w as int) as i32,
            dy: normalised(y - screen.y, screen.h as int) as i32,
            data: 0,
            flags: MOUSEEVENTF_MOVE | MOUSEEVENTF_ABSOLUTE | MOUSEEVENTF_VIRTUALDESK,
        }),
{
    MouseInput {
        dx: normalise(x - screen.x, screen.w),
        dy: normalise(y - screen.y, screen.h),
        data: 0,
        flags: MOUSEEVENTF_MOVE | MOUSEEVENTF_ABSOLUTE | MOUSEEVENTF_VIRTUALDESK,
    }
}

/// The flags and the data for a button.
pub open spec fn button_flags(button: Button, down: bool) -> (u32, u32) {
    match (button, down) {
        (Button::Left, true) => (MOUSEEVENTF_LEFTDOWN, 0),
        (Button::Left, false) => (MOUSEEVENTF_LEFTUP, 0),
        (Button::Right, true) => (MOUSEEVENTF_RIGHTDOWN, 0),
        (Button::Right, false) => (MOUSEEVENTF_RIGHTUP, 0),
        (Button::Middle, true) => (MOUSEEVENTF_MIDDLEDOWN, 0),
        (Button::Middle, false) => (MOUSEEVENTF_MIDDLEUP, 0),
        (Button::Back, true) => (MOUSEEVENTF_XDOWN, XBUTTON1),
        (Button::Back, false) => (MOUSEEVENTF_XUP, XBUTTON1),
        (Button::Forward, true) => (MOUSEEVENTF_XDOWN, XBUTTON2),
        (Button::Forward, false) => (MOUSEEVENTF_XUP, XBUTTON2),
    }
}

pub fn button(which: Button, down: bool) -> (r: MouseInput)
    ensures
        r == (MouseInput {
            dx: 0,
            dy: 0,
            data: button_flags(which, down).1,
            flags: button_flags(which, down).0,
        }),
{
    let (flags, data) = match (which, down) {
        (Button::Left, true) => (MOUSEEVENTF_LEFTDOWN, 0),
        (Button::Left, false) => (MOUSEEVENTF_LEFTUP, 0),
        (Button::Right, true) => (MOUSEEVENTF_RIGHTDOWN, 0),
        (Button::Right, false) => (MOUSEEVENTF_RIGHTUP, 0),
        (Button::Middle, true) => (MOUSEEVENTF_MIDDLEDOWN, 0),
        (Button::Middle, false) => (MOUSEEVENTF_MIDDLEUP, 0),
        (Button::Back, true) => (MOUSEEVENTF_XDOWN, XBUTTON1),
        (Button::Back, false) => (MOUSEEVENTF_XUP, XBUTTON1),
        (Button::Forward, true) => (MOUSEEVENTF_XDOWN, XBUTTON2),
        (Button::Forward, false) => (MOUSEEVENTF_XUP, XBUTTON2),
    };
    MouseInput { dx: 0, dy: 0, data, flags }
}

/// A signed wheel delta in the unsigned field that carries it.
pub open spec fn wheel_data(delta: i16) -> u32 {
    if delta >= 0 {
        delta as u32
    } else {
        (0x1_0000_0000 + delta) as u32
    }
}

fn wheel_field(delta: i16) -> (r: u32)
    ensures
        r == wheel_data(delta),
{
    if delta >= 0 {
        delta as u32
    } else {
        (0x1_0000_0000i64 + delta as i64) as u32
    }
}

/// Turns the wheel. The wire carries 1/120 units; Windows expects the same
/// scale, so this is a straight pass-through and hi-res wheels stay smooth.
pub fn wheel(dx: i16, dy: i16) -> (r: Vec<MouseInput>)
    ensures
        ({
            let vertical = MouseInput {
                dx: 0,
                dy: 0,
                data: wheel_data(dy),
                flags: MOUSEEVENTF_WHEEL,
            };
            let sideways = MouseInput {
                dx: 0,
                dy: 0,
                data: wheel_data(dx),
                flags: MOUSEEVENTF_HWHEEL,
            };
            r@ == if dy != 0 && dx != 0 {
                seq![vertical, sideways]
            } else if dy != 0 {
                seq![vertical]
            } else if dx != 0 {
                seq![sideways]
            } else {
                seq![]
            }
        }),
{
    let mut events: Vec<MouseInput> = Vec::new();
    if dy != 0 {
        events.push(MouseInput { dx: 0, dy: 0, data: wheel_field(dy), flags: MOUSEEVENTF_WHEEL });
    }
    if dx != 0 {
        events.push(MouseInput { dx: 0, dy: 0, data: wheel_field(dx), flags: MOUSEEVENTF_HWHEEL });
    }
    proof {
        let vertical = MouseInput {
            dx: 0,
            dy: 0,
            data: wheel_data(dy),
            flags: MOUSEEVENTF_WHEEL,
        };
        let sideways = MouseInput {
            dx: 0,
            dy: 0,
            data: wheel_data(dx),
            flags: MOUSEEVENTF_HWHEEL,
        };
        if dy != 0 && dx != 0 {
            assert(events@ =~= seq![vertical, sideways]);
        } else if dy != 0 {
            assert(events@ =~= seq![vertical]);
        } else if dx != 0 {
            assert(events@ =~= seq![sideways]);
        } else {
            assert(events@ =~= seq![]);
        }
    }
    events
}

/// The flags for a key.
pub open spec fn key_flags(scan: u16, ext: bool, down: bool) -> u32 {
    let up = if down {
        0u32
    } else {
        KEYEVENTF_KEYUP
    };
    let extended = if ext {
        up | KEYEVENTF_EXTENDEDKEY
    } else {
        up
    };
    if scan != 0 {
        extended | KEYEVENTF_SCANCODE
    } else {
        extended
    }
}

/// Presses or lets go of a key. The physical key is preferred. A scancode of 0
/// means the host could not supply one (some virtual keys have none), so fall
/// back to the virtual-key code.
pub fn key(vk: u16, scan: u16, ext: bool, down: bool) -> (r: KeyInput)
    ensures
        r == (KeyInput {
            vk: if scan != 0 {
                0
            } else {
                vk
            },
            scan,
            flags: key_flags(scan, ext, down),
        }),
{
    let mut flags: u32 = 0;
    if !down {
        flags = KEYEVENTF_KEYUP;
    }
    if ext {
        flags = flags | KEYEVENTF_EXTENDEDKEY;
    }
    if scan != 0 {
        flags = flags | KEYEVENTF_SCANCODE;
        KeyInput { vk: 0, scan, flags }
    } else {
        KeyInput { vk, scan: 0, flags }
    }
}

/// A character in UTF-16: one unit, or a surrogate pair outside the basic plane.
pub open spec fn utf16(c: char) -> Seq<u16> {
    let n = c as u32;
    if n < 0x10000 {
        seq![n as u16]
    } else {
        seq![
            (0xD800 + (n - 0x10000) / 0x400) as u16,
            (0xDC00 + (n - 0x10000) % 0x400) as u16,
        ]
    }
}

/// A press and a release of one UTF-16 unit.
pub open spec fn typed(unit: u16) -> Seq<KeyInput> {
    seq![
        KeyInput { vk: 0, scan: unit, flags: KEYEVENTF_UNICODE },
        KeyInput { vk: 0, scan: unit, flags: KEYEVENTF_UNICODE | KEYEVENTF_KEYUP },
    ]
}

/// Presses and releases that type a text.
pub open spec fn typed_text(text: Seq<char>) -> Seq<KeyInput>
    decreases text.len(),
{
    if text.len() == 0 {
        seq![]
    } else {
        let units = utf16(text.last());
        let last = if units.len() == 1 {
            typed(units[0])
        } else {
            typed(units[0]) + typed(units[1])
        };
        typed_text(text.drop_last()) + last
    }
}

fn push_unit(events: &mut Vec<KeyInput>, unit: u16)
    ensures
        final(events)@ == old(events)@ + typed(unit),
{
    events.push(KeyInput { vk: 0, scan: unit, flags: KEYEVENTF_UNICODE });
    events.push(KeyInput { vk: 0, scan: unit, flags: KEYEVENTF_UNICODE | KEYEVENTF_KEYUP });
    assert(events@ =~= old(events)@ + typed(unit));
}

/// Types a text. UTF-16 with `KEYEVENTF_UNICODE` bypasses the layout entirely,
/// which is the only way to reproduce a character the local layout cannot type.
pub fn text(words: &str) -> (r: Vec<KeyInput>)
    ensures
        r@ == typed_text(words@),
{
    let chars = text::chars_of(words);
    let mut events: Vec<KeyInput> = Vec::new();
    let mut i: usize = 0;
    assert(chars@.take(0) =~= seq![]);
    while i < chars.len()
        invariant
            i <= chars@.len(),
            events@ == typed_text(chars@.take(i as int)),
        decreases chars@.len() - i,
    {
        let ghost before = events@;
        let n: u32 = chars[i] as u32;
        assert(chars@.take(i + 1).drop_last() =~= chars@.take(i as int));
        assert(chars@.take(i + 1).last() == chars@[i as int]);
        if n < 0x10000 {
            push_unit(&mut events, n as u16);
        } else {
            let above: u32 = n - 0x10000;
            let high: u16 = (0xD800 + above / 0x400) as u16;
            let low: u16 = (0xDC00 + above % 0x400) as u16;
            push_unit(&mut events, high);
            push_unit(&mut events, low);
            assert(events@ =~= before + (typed(high) + typed(low)));
        }
        i += 1;
    }
    assert(chars@.take(chars@.len() as int) =~= chars@);
    events
}

} // verus!
