//! Injection for everything that is not Windows, in portable key names.
//!
//! The host is Windows-only for now (see [`crate::capture`]), so this side is
//! what makes a Mac or a Linux box usable as a client. The host still speaks in
//! Windows virtual-key codes and scancodes because that is what its hooks
//! report, so the translation into portable key names happens here.

use vstd::prelude::*;

use crate::platform::Os;

pub mod laws;

verus! {

/// One notch of a wheel, in the 1/120 units the protocol carries.
pub const WHEEL_UNIT: i32 = 120;

/// A key by its portable name.
#[derive(Clone, Copy, Debug, PartialEq, Eq, Structural)]
pub enum PortableKey {
    Backspace,
    Tab,
    Return,
    Shift,
    Control,
    Alt,
    CapsLock,
    Escape,
    Space,
    PageUp,
    PageDown,
    End,
    Home,
    LeftArrow,
    UpArrow,
    RightArrow,
    DownArrow,
    Insert,
    Delete,
    Help,
    /// Whatever the client's own layout makes of this character.
    Unicode(char),
    Meta,
    /// A digit of the numeric keypad.
    Numpad(u8),
    Multiply,
    Add,
    Subtract,
    Decimal,
    Divide,
    /// F1 to F20.
    Function(u8),
    LShift,
    RShift,
    LControl,
    RControl,
    VolumeMute,
    VolumeDown,
    VolumeUp,
    MediaNextTrack,
    MediaPrevTrack,
    MediaPlayPause,
}

/// The keys that are not part of a run of codes.
pub open spec fn named_key(vk: u16, os: Os) -> Option<PortableKey> {
    if vk == 0x08 {
        Some(PortableKey::Backspace)
    } else if vk == 0x09 {
        Some(PortableKey::Tab)
    } else if vk == 0x0D || vk == 0x6C {
        Some(PortableKey::Return)
    } else if vk == 0x10 {
        Some(PortableKey::Shift)
    } else if vk == 0x11 {
        Some(PortableKey::Control)
    } else if vk == 0x12 || vk == 0xA4 || vk == 0xA5 {
        Some(PortableKey::Alt)
    } else if vk == 0x14 {
        Some(PortableKey::CapsLock)
    } else if vk == 0x1B {
        Some(PortableKey::Escape)
    } else if vk == 0x20 {
        Some(PortableKey::Space)
    } else if vk == 0x21 {
        Some(PortableKey::PageUp)
    } else if vk == 0x22 {
        Some(PortableKey::PageDown)
    } else if vk == 0x23 {
        Some(PortableKey::End)
    } else if vk == 0x24 {
        Some(PortableKey::Home)
    } else if vk == 0x25 {
        Some(PortableKey::LeftArrow)
    } else if vk == 0x26 {
        Some(PortableKey::UpArrow)
    } else if vk == 0x27 {
        Some(PortableKey::RightArrow)
    } else if vk == 0x28 {
        Some(PortableKey::DownArrow)
    } else if vk == 0x2D && os == Os::Other {
        Some(PortableKey::Insert)
    } else if vk == 0x2E {
        Some(PortableKey::Delete)
    } else if vk == 0x2F {
        Some(PortableKey::Help)
    } else if vk == 0x5B || vk == 0x5C {
        Some(PortableKey::Meta)
    } else if vk == 0x6A {
        Some(PortableKey::Multiply)
    } else if vk == 0x6B {
        Some(PortableKey::Add)
    } else if vk == 0x6D {
        Some(PortableKey::Subtract)
    } else if vk == 0x6E {
        Some(PortableKey::Decimal)
    } else if vk == 0x6F {
        Some(PortableKey::Divide)
    } else if vk == 0xA0 {
        Some(PortableKey::LShift)
    } else if vk == 0xA1 {
        Some(PortableKey::RShift)
    } else if vk == 0xA2 {
        Some(PortableKey::LControl)
    } else if vk == 0xA3 {
        Some(PortableKey::RControl)
    } else if vk == 0xAD {
        Some(PortableKey::VolumeMute)
    } else if vk == 0xAE {
        Some(PortableKey::VolumeDown)
    } else if vk == 0xAF {
        Some(PortableKey::VolumeUp)
    } else if vk == 0xB0 {
        Some(PortableKey::MediaNextTrack)
    } else if vk == 0xB1 {
        Some(PortableKey::MediaPrevTrack)
    } else if vk == 0xB3 {
        Some(PortableKey::MediaPlayPause)
    } else {
        None
    }
}

/// The punctuation on a US keyboard.
pub open spec fn punctuation(vk: u16) -> Option<char> {
    if vk == 0xBA {
        Some(';')
    } else if vk == 0xBB {
        Some('=')
    } else if vk == 0xBC {
        Some(',')
    } else if vk == 0xBD {
        Some('-')
    } else if vk == 0xBE {
        Some('.')
    } else if vk == 0xBF {
        Some('/')
    } else if vk == 0xC0 {
        Some('`')
    } else if vk == 0xDB {
        Some('[')
    } else if vk == 0xDC {
        Some('\\')
    } else if vk == 0xDD {
        Some(']')
    } else if vk == 0xDE {
        Some('\'')
    } else {
        None
    }
}

/// The portable name of a Windows virtual-key code.
pub open spec fn portable(vk: u16, os: Os) -> Option<PortableKey> {
    if 0x30 <= vk <= 0x39 {
        Some(PortableKey::Unicode((vk as u8) as char))
    } else if 0x41 <= vk <= 0x5A {
        Some(PortableKey::Unicode(((vk + 0x20) as u8) as char))
    } else if 0x60 <= vk <= 0x69 {
        Some(PortableKey::Numpad((vk - 0x60) as u8))
    } else if 0x70 <= vk <= 0x83 {
        Some(PortableKey::Function((vk - 0x6F) as u8))
    } else if punctuation(vk) is Some {
        Some(PortableKey::Unicode(punctuation(vk)->0))
    } else {
        named_key(vk, os)
    }
}

/// Windows virtual-key code to a portable key.
///
/// Anything printable goes through `Unicode`, which lets the client's own layout
/// decide what the key produces: the same behaviour as sitting at it.
pub fn translate(vk: u16, os: Os) -> (r: Option<PortableKey>)
    ensures
        r == portable(vk, os),
{
    if 0x30 <= vk && vk <= 0x39 {
        return Some(PortableKey::Unicode((vk as u8) as char));
    }
    if 0x41 <= vk && vk <= 0x5A {
        return Some(PortableKey::Unicode(((vk + 0x20) as u8) as char));
    }
    if 0x60 <= vk && vk <= 0x69 {
        return numpad(vk - 0x60);
    }
    if 0x70 <= vk && vk <= 0x83 {
        return function_key(vk - 0x70 + 1);
    }
    match vk {
        0x08 => Some(PortableKey::Backspace),
        0x09 => Some(PortableKey::Tab),
        0x0D => Some(PortableKey::Return),
        0x10 => Some(PortableKey::Shift),
        0x11 => Some(PortableKey::Control),
        0x12 => Some(PortableKey::Alt),
        0x14 => Some(PortableKey::CapsLock),
        0x1B => Some(PortableKey::Escape),
        0x20 => Some(PortableKey::Space),
        0x21 => Some(PortableKey::PageUp),
        0x22 => Some(PortableKey::PageDown),
        0x23 => Some(PortableKey::End),
        0x24 => Some(PortableKey::Home),
        0x25 => Some(PortableKey::LeftArrow),
        0x26 => Some(PortableKey::UpArrow),
        0x27 => Some(PortableKey::RightArrow),
        0x28 => Some(PortableKey::DownArrow),
        // Only X11 has a name for it.
        0x2D => if os == Os::Other {
            Some(PortableKey::Insert)
        } else {
            None
        },
        0x2E => Some(PortableKey::Delete),
        0x2F => Some(PortableKey::Help),
        0x5B | 0x5C => Some(PortableKey::Meta),
        0x6A => Some(PortableKey::Multiply),
        0x6B => Some(PortableKey::Add),
        0x6C => Some(PortableKey::Return),
        0x6D => Some(PortableKey::Subtract),
        0x6E => Some(PortableKey::Decimal),
        0x6F => Some(PortableKey::Divide),
        0xA0 => Some(PortableKey::LShift),
        0xA1 => Some(PortableKey::RShift),
        0xA2 => Some(PortableKey::LControl),
        0xA3 => Some(PortableKey::RControl),
        // Right Alt is AltGr on many layouts; there is no portable name for it,
        // and plain Alt is the closest honest answer.
        0xA4 | 0xA5 => Some(PortableKey::Alt),
        0xAD => Some(PortableKey::VolumeMute),
        0xAE => Some(PortableKey::VolumeDown),
        0xAF => Some(PortableKey::VolumeUp),
        0xB0 => Some(PortableKey::MediaNextTrack),
        0xB1 => Some(PortableKey::MediaPrevTrack),
        0xB3 => Some(PortableKey::MediaPlayPause),
        0xBA => Some(PortableKey::Unicode(';')),
        0xBB => Some(PortableKey::Unicode('=')),
        0xBC => Some(PortableKey::Unicode(',')),
        0xBD => Some(PortableKey::Unicode('-')),
        0xBE => Some(PortableKey::Unicode('.')),
        0xBF => Some(PortableKey::Unicode('/')),
        0xC0 => Some(PortableKey::Unicode('`')),
        0xDB => Some(PortableKey::Unicode('[')),
        0xDC => Some(PortableKey::Unicode('\\')),
        0xDD => Some(PortableKey::Unicode(']')),
        0xDE => Some(PortableKey::Unicode('\'')),
        _ => None,
    }
}

fn numpad(n: u16) -> (r: Option<PortableKey>)
    ensures
        r == if n <= 9 {
            Some(PortableKey::Numpad(n as u8))
        } else {
            None
        },
{
    if n <= 9 {
        Some(PortableKey::Numpad(n as u8))
    } else {
        None
    }
}

fn function_key(n: u16) -> (r: Option<PortableKey>)
    ensures
        r == if 1 <= n <= 20 {
            Some(PortableKey::Function(n as u8))
        } else {
            None
        },
{
    if 1 <= n && n <= 20 {
        Some(PortableKey::Function(n as u8))
    } else {
        None
    }
}

/// The whole part of `n / unit`, rounded towards zero.
pub open spec fn whole_part(n: int, unit: int) -> int {
    if n >= 0 {
        n / unit
    } else {
        -((-n) / unit)
    }
}

/// Sub-notch wheel movement, kept so a hi-res wheel still scrolls smoothly
/// through an API that only understands whole clicks.
#[derive(Clone, Copy, Debug, PartialEq, Eq, Structural)]
pub struct Wheel {
    pub x: i32,
    pub y: i32,
}

pub fn whole(n: i32, unit: i32) -> (r: i32)
    requires
        unit > 0,
        n > i32::MIN,
    ensures
        r == whole_part(n as int, unit as int),
        -unit < n - r * unit < unit,
        -0x7FFF_FFFF <= r <= 0x7FFF_FFFF,
{
    if n >= 0 {
        let q: i32 = n / unit;
        assert(0 <= n - q * unit < unit && 0 <= q <= n) by (nonlinear_arith)
            requires
                unit > 0,
                n >= 0,
                q == n / unit,
        ;
        q
    } else {
        let m: i32 = -n;
        let q: i32 = m / unit;
        assert(0 <= m - q * unit < unit && 0 <= q <= m) by (nonlinear_arith)
            requires
                unit > 0,
                m >= 0,
                q == m / unit,
        ;
        assert((-q) * unit == -(q * unit)) by (nonlinear_arith);
        -q
    }
}

impl Wheel {
    /// Less than a notch is kept on either axis.
    pub open spec fn wf(&self, unit: int) -> bool {
        -unit < self.x < unit && -unit < self.y < unit
    }

    pub fn new() -> (r: Self)
        ensures
            r.x == 0,
            r.y == 0,
    {
        Wheel { x: 0, y: 0 }
    }

    /// Takes in a wheel event and gives the whole notches to scroll, vertically
    /// and sideways. What is left over is kept for the next event.
    ///
    /// Windows reports wheel-up as positive; the portable layer scrolls down on
    /// positive, so the vertical sign flips.
    pub fn turn(&mut self, dx: i16, dy: i16) -> (r: (i32, i32))
        requires
            old(self).wf(WHEEL_UNIT as int),
        ensures
            final(self).wf(WHEEL_UNIT as int),
            r.0 == -whole_part(old(self).y + dy, WHEEL_UNIT as int),
            r.1 == whole_part(old(self).x + dx, WHEEL_UNIT as int),
            final(self).y == old(self).y + dy + r.0 * WHEEL_UNIT,
            final(self).x == old(self).x + dx - r.1 * WHEEL_UNIT,
    {
        let y: i32 = self.y + dy as i32;
        let x: i32 = self.x + dx as i32;
        let notches_y = whole(y, WHEEL_UNIT);
        let notches_x = whole(x, WHEEL_UNIT);
        self.y = y - notches_y * WHEEL_UNIT;
        self.x = x - notches_x * WHEEL_UNIT;
        (-notches_y, notches_x)
    }
}

} // verus!
