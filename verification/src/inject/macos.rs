//! Native macOS input injection, up to the calls into CoreGraphics.
//!
//! 1. Maps Windows virtual key codes directly to macOS key codes without slow
//!    runtime layout queries that fail on non-main threads.
//! 2. Correctly preserves and applies modifier flags (Shift, Command, Option,
//!    Control) and knows the character of a printable key.

use vstd::prelude::*;

use crate::inject::other;
use crate::inject::other::Wheel;
use crate::protocol::Button;

pub mod laws;

verus! {

// Modifier flag masks for CoreGraphics events.
pub const MASK_SHIFT: u64 = 0x0002_0000;

pub const MASK_CONTROL: u64 = 0x0004_0000;

pub const MASK_OPTION: u64 = 0x0008_0000;

pub const MASK_COMMAND: u64 = 0x0010_0000;

/// Wheel units to a scrolled pixel.
pub const PIXEL_UNIT: i32 = 10;

/// The macOS key code of a Windows virtual-key code.
pub open spec fn mac_code(vk: u16) -> Option<u16> {
    if vk == 0x41 {
        Some(0x00)
    } else if vk == 0x42 {
        Some(0x0B)
    } else if vk == 0x43 {
        Some(0x08)
    } else if vk == 0x44 {
        Some(0x02)
    } else if vk == 0x45 {
        Some(0x0E)
    } else if vk == 0x46 {
        Some(0x03)
    } else if vk == 0x47 {
        Some(0x05)
    } else if vk == 0x48 {
        Some(0x04)
    } else if vk == 0x49 {
        Some(0x22)
    } else if vk == 0x4A {
        Some(0x26)
    } else if vk == 0x4B {
        Some(0x28)
    } else if vk == 0x4C {
        Some(0x25)
    } else if vk == 0x4D {
        Some(0x2E)
    } else if vk == 0x4E {
        Some(0x2D)
    } else if vk == 0x4F {
        Some(0x1F)
    } else if vk == 0x50 {
        Some(0x23)
    } else if vk == 0x51 {
        Some(0x0C)
    } else if vk == 0x52 {
        Some(0x0F)
    } else if vk == 0x53 {
        Some(0x01)
    } else if vk == 0x54 {
        Some(0x11)
    } else if vk == 0x55 {
        Some(0x20)
    } else if vk == 0x56 {
        Some(0x09)
    } else if vk == 0x57 {
        Some(0x0D)
    } else if vk == 0x58 {
        Some(0x07)
    } else if vk == 0x59 {
        Some(0x10)
    } else if vk == 0x5A {
        Some(0x06)
    } else if vk == 0x30 {
        Some(0x1D)
    } else if vk == 0x31 {
        Some(0x12)
    } else if vk == 0x32 {
        Some(0x13)
    } else if vk == 0x33 {
        Some(0x14)
    } else if vk == 0x34 {
        Some(0x15)
    } else if vk == 0x35 {
        Some(0x17)
    } else if vk == 0x36 {
        Some(0x16)
    } else if vk == 0x37 {
        Some(0x1A)
    } else if vk == 0x38 {
        Some(0x1C)
    } else if vk == 0x39 {
        Some(0x19)
    } else if vk == 0xBA {
        Some(0x29)
    } else if vk == 0xBB {
        Some(0x18)
    } else if vk == 0xBC {
        Some(0x2B)
    } else if vk == 0xBD {
        Some(0x1B)
    } else if vk == 0xBE {
        Some(0x2F)
    } else if vk == 0xBF {
        Some(0x2C)
    } else if vk == 0xC0 {
        Some(0x32)
    } else if vk == 0xDB {
        Some(0x21)
    } else if vk == 0xDC {
        Some(0x2A)
    } else if vk == 0xDD {
        Some(0x1E)
    } else if vk == 0xDE {
        Some(0x27)
    } else if vk == 0x08 {
        Some(0x33)
    } else if vk == 0x09 {
        Some(0x30)
    } else if vk == 0x0D {
        Some(0x24)
    } else if vk == 0x1B {
        Some(0x35)
    } else if vk == 0x20 {
        Some(0x31)
    } else if vk == 0x21 {
        Some(0x74)
    } else if vk == 0x22 {
        Some(0x79)
    } else if vk == 0x23 {
        Some(0x77)
    } else if vk == 0x24 {
        Some(0x73)
    } else if vk == 0x25 {
        Some(0x7B)
    } else if vk == 0x26 {
        Some(0x7E)
    } else if vk == 0x27 {
        Some(0x7C)
    } else if vk == 0x28 {
        Some(0x7D)
    } else if vk == 0x2D {
        Some(0x72)
    } else if vk == 0x2E {
        Some(0x75)
    } else if vk == 0x14 {
        Some(0x39)
    } else if vk == 0x10 || vk == 0xA0 {
        Some(0x38)
    } else if vk == 0xA1 {
        Some(0x3C)
    } else if vk == 0x11 || vk == 0xA2 {
        Some(0x3B)
    } else if vk == 0xA3 {
        Some(0x3E)
    } else if vk == 0x12 || vk == 0xA4 {
        Some(0x3A)
    } else if vk == 0xA5 {
        Some(0x3D)
    } else if vk == 0x5B {
        Some(0x37)
    } else if vk == 0x5C {
        Some(0x36)
    } else if vk == 0x60 {
        Some(0x52)
    } else if vk == 0x61 {
        Some(0x53)
    } else if vk == 0x62 {
        Some(0x54)
    } else if vk == 0x63 {
        Some(0x55)
    } else if vk == 0x64 {
        Some(0x56)
    } else if vk == 0x65 {
        Some(0x57)
    } else if vk == 0x66 {
        Some(0x58)
    } else if vk == 0x67 {
        Some(0x59)
    } else if vk == 0x68 {
        Some(0x5B)
    } else if vk == 0x69 {
        Some(0x5C)
    } else if vk == 0x6A {
        Some(0x43)
    } else if vk == 0x6B {
        Some(0x45)
    } else if vk == 0x6C {
        Some(0x4C)
    } else if vk == 0x6D {
        Some(0x4E)
    } else if vk == 0x6E {
        Some(0x41)
    } else if vk == 0x6F {
        Some(0x4B)
    } else if vk == 0x70 {
        Some(0x7A)
    } else if vk == 0x71 {
        Some(0x78)
    } else if vk == 0x72 {
        Some(0x63)
    } else if vk == 0x73 {
        Some(0x76)
    } else if vk == 0x74 {
        Some(0x60)
    } else if vk == 0x75 {
        Some(0x61)
    } else if vk == 0x76 {
        Some(0x62)
    } else if vk == 0x77 {
        Some(0x64)
    } else if vk == 0x78 {
        Some(0x65)
    } else if vk == 0x79 {
        Some(0x6D)
    } else if vk == 0x7A {
        Some(0x67)
    } else if vk == 0x7B {
        Some(0x6F)
    } else if vk == 0x7C {
        Some(0x69)
    } else if vk == 0x7D {
        Some(0x6B)
    } else if vk == 0x7E {
        Some(0x71)
    } else if vk == 0x7F {
        Some(0x6A)
    } else if vk == 0x80 {
        Some(0x40)
    } else if vk == 0x81 {
        Some(0x4F)
    } else if vk == 0x82 {
        Some(0x50)
    } else if vk == 0x83 {
        Some(0x5A)
    } else if vk == 0xAD {
        Some(0x4A)
    } else if vk == 0xAE {
        Some(0x49)
    } else if vk == 0xAF {
        Some(0x48)
    } else {
        None
    }
}

/// The character that a printable key types without modifiers.
pub open spec fn mac_char(vk: u16) -> Option<char> {
    if 0x41 <= vk <= 0x5A {
        Some(((vk + 0x20) as u8) as char)
    } else if 0x30 <= vk <= 0x39 {
        Some((vk as u8) as char)
    } else if 0x60 <= vk <= 0x69 {
        Some(((vk - 0x30) as u8) as char)
    } else if vk == 0xBA {
        Some(';')
    } else if vk == 0xBB {
        Some('=')
    } else if vk == 0xBC {
        Some(',')
    } else if vk == 0xBD {
        Some('-')
    } else if vk == 0xBE {
        Some('.')
    } else if vk == 0xBF {
        Some('/')
    } else if vk == 0xC0 {
        Some('`')
    } else if vk == 0xDB {
        Some('[')
    } else if vk == 0xDC {
        Some('\\')
    } else if vk == 0xDD {
        Some(']')
    } else if vk == 0xDE {
        Some('\'')
    } else if vk == 0x20 {
        Some(' ')
    } else if vk == 0x6A {
        Some('*')
    } else if vk == 0x6B {
        Some('+')
    } else if vk == 0x6D {
        Some('-')
    } else if vk == 0x6E {
        Some('.')
    } else if vk == 0x6F {
        Some('/')
    } else {
        None
    }
}

/// Translates Windows virtual-key codes and scancodes to macOS key codes and
/// optional character representation.
pub fn vk_to_mac_keycode(vk: u16, _scan: u16, _ext: bool) -> (r: Option<(u16, Option<char>)>)
    ensures
        r == match mac_code(vk) {
            Some(code) => Some((code, mac_char(vk))),
            None => None,
        },
{
    match vk {
        // Letters (A - Z)
        0x41 => Some((0x00, Some('a'))),
        0x42 => Some((0x0B, Some('b'))),
        0x43 => Some((0x08, Some('c'))),
        0x44 => Some((0x02, Some('d'))),
        0x45 => Some((0x0E, Some('e'))),
        0x46 => Some((0x03, Some('f'))),
        0x47 => Some((0x05, Some('g'))),
        0x48 => Some((0x04, Some('h'))),
        0x49 => Some((0x22, Some('i'))),
        0x4A => Some((0x26, Some('j'))),
        0x4B => Some((0x28, Some('k'))),
        0x4C => Some((0x25, Some('l'))),
        0x4D => Some((0x2E, Some('m'))),
        0x4E => Some((0x2D, Some('n'))),
        0x4F => Some((0x1F, Some('o'))),
        0x50 => Some((0x23, Some('p'))),
        0x51 => Some((0x0C, Some('q'))),
        0x52 => Some((0x0F, Some('r'))),
        0x53 => Some((0x01, Some('s'))),
        0x54 => Some((0x11, Some('t'))),
        0x55 => Some((0x20, Some('u'))),
        0x56 => Some((0x09, Some('v'))),
        0x57 => Some((0x0D, Some('w'))),
        0x58 => Some((0x07, Some('x'))),
        0x59 => Some((0x10, Some('y'))),
        0x5A => Some((0x06, Some('z'))),
        // Numbers (0 - 9 top row)
        0x30 => Some((0x1D, Some('0'))),
        0x31 => Some((0x12, Some('1'))),
        0x32 => Some((0x13, Some('2'))),
        0x33 => Some((0x14, Some('3'))),
        0x34 => Some((0x15, Some('4'))),
        0x35 => Some((0x17, Some('5'))),
        0x36 => Some((0x16, Some('6'))),
        0x37 => Some((0x1A, Some('7'))),
        0x38 => Some((0x1C, Some('8'))),
        0x39 => Some((0x19, Some('9'))),
        // Punctuation
        0xBA => Some((0x29, Some(';'))),
        0xBB => Some((0x18, Some('='))),
        0xBC => Some((0x2B, Some(','))),
        0xBD => Some((0x1B, Some('-'))),
        0xBE => Some((0x2F, Some('.'))),
        0xBF => Some((0x2C, Some('/'))),
        0xC0 => Some((0x32, Some('`'))),
        0xDB => Some((0x21, Some('['))),
        0xDC => Some((0x2A, Some('\\'))),
        0xDD => Some((0x1E, Some(']'))),
        0xDE => Some((0x27, Some('\''))),
        // Basic Control & Navigation
        0x08 => Some((0x33, None)),  // Backspace (Mac Delete)
        0x09 => Some((0x30, None)),  // Tab
        0x0D => Some((0x24, None)),  // Return
        0x1B => Some((0x35, None)),  // Escape
        0x20 => Some((0x31, Some(' '))),  // Space
        0x21 => Some((0x74, None)),  // Page Up
        0x22 => Some((0x79, None)),  // Page Down
        0x23 => Some((0x77, None)),  // End
        0x24 => Some((0x73, None)),  // Home
        0x25 => Some((0x7B, None)),  // Left Arrow
        0x26 => Some((0x7E, None)),  // Up Arrow
        0x27 => Some((0x7C, None)),  // Right Arrow
        0x28 => Some((0x7D, None)),  // Down Arrow
        0x2D => Some((0x72, None)),  // Insert (Mac Help)
        0x2E => Some((0x75, None)),  // Forward Delete
        0x14 => Some((0x39, None)),  // Caps Lock
        // Modifiers
        0x10 | 0xA0 => Some((0x38, None)),  // Shift / Left Shift
        0xA1 => Some((0x3C, None)),  // Right Shift
        0x11 | 0xA2 => Some((0x3B, None)),  // Control / Left Control
        0xA3 => Some((0x3E, None)),  // Right Control
        0x12 | 0xA4 => Some((0x3A, None)),  // Alt / Left Alt (Option)
        0xA5 => Some((0x3D, None)),  // Right Alt (Option)
        0x5B => Some((0x37, None)),  // Left Windows (Command)
        0x5C => Some((0x36, None)),  // Right Windows (Command)
        // Numpad
        0x60 => Some((0x52, Some('0'))),
        0x61 => Some((0x53, Some('1'))),
        0x62 => Some((0x54, Some('2'))),
        0x63 => Some((0x55, Some('3'))),
        0x64 => Some((0x56, Some('4'))),
        0x65 => Some((0x57, Some('5'))),
        0x66 => Some((0x58, Some('6'))),
        0x67 => Some((0x59, Some('7'))),
        0x68 => Some((0x5B, Some('8'))),
        0x69 => Some((0x5C, Some('9'))),
        0x6A => Some((0x43, Some('*'))),
        0x6B => Some((0x45, Some('+'))),
        0x6C => Some((0x4C, None)),  // Numpad Enter
        0x6D => Some((0x4E, Some('-'))),
        0x6E => Some((0x41, Some('.'))),
        0x6F => Some((0x4B, Some('/'))),
        // Function Keys (F1 - F20)
        0x70 => Some((0x7A, None)),
        0x71 => Some((0x78, None)),
        0x72 => Some((0x63, None)),
        0x73 => Some((0x76, None)),
        0x74 => Some((0x60, None)),
        0x75 => Some((0x61, None)),
        0x76 => Some((0x62, None)),
        0x77 => Some((0x64, None)),
        0x78 => Some((0x65, None)),
        0x79 => Some((0x6D, None)),
        0x7A => Some((0x67, None)),
        0x7B => Some((0x6F, None)),
        0x7C => Some((0x69, None)),  // F13
        0x7D => Some((0x6B, None)),  // F14
        0x7E => Some((0x71, None)),  // F15
        0x7F => Some((0x6A, None)),  // F16
        0x80 => Some((0x40, None)),  // F17
        0x81 => Some((0x4F, None)),  // F18
        0x82 => Some((0x50, None)),  // F19
        0x83 => Some((0x5A, None)),  // F20
        // Media / Volume
        0xAD => Some((0x4A, None)),  // Mute
        0xAE => Some((0x49, None)),  // Volume Down
        0xAF => Some((0x48, None)),  // Volume Up
        _ => None,
    }
}

/// The modifier that a macOS key is, as a flag.
pub open spec fn modifier_mask(keycode: u16) -> Option<u64> {
    if keycode == 0x38 || keycode == 0x3C {
        Some(MASK_SHIFT)
    } else if keycode == 0x3B || keycode == 0x3E {
        Some(MASK_CONTROL)
    } else if keycode == 0x3A || keycode == 0x3D {
        Some(MASK_OPTION)
    } else if keycode == 0x37 || keycode == 0x36 {
        Some(MASK_COMMAND)
    } else {
        None
    }
}

fn mask_of(keycode: u16) -> (r: Option<u64>)
    ensures
        r == modifier_mask(keycode),
{
    match keycode {
        // Left / Right Shift
        0x38 | 0x3C => Some(MASK_SHIFT),
        // Left / Right Control
        0x3B | 0x3E => Some(MASK_CONTROL),
        // Left / Right Option (Alt)
        0x3A | 0x3D => Some(MASK_OPTION),
        // Left / Right Command (Win)
        0x37 | 0x36 => Some(MASK_COMMAND),
        _ => None,
    }
}

/// The kinds of mouse event that CoreGraphics tells apart.
#[derive(Clone, Copy, Debug, PartialEq, Eq, Structural)]
pub enum MouseKind {
    Moved,
    LeftDragged,
    RightDragged,
    OtherDragged,
    LeftDown,
    LeftUp,
    RightDown,
    RightUp,
    OtherDown,
    OtherUp,
}

/// The buttons that CoreGraphics tells apart.
#[derive(Clone, Copy, Debug, PartialEq, Eq, Structural)]
pub enum MacButton {
    Left,
    Right,
    Center,
}

/// A mouse event to post.
#[derive(Clone, Copy, Debug, PartialEq, Eq, Structural)]
pub struct MouseEvent {
    pub kind: MouseKind,
    pub button: MacButton,
    /// The number to put on the event, for buttons beyond the first two.
    pub number: Option<u8>,
    /// The modifiers to put on the event.
    pub flags: u64,
}

/// A keyboard event to post.
#[derive(Clone, Copy, Debug, PartialEq, Eq, Structural)]
pub struct KeyEvent {
    pub keycode: u16,
    pub down: bool,
    /// The character to put on the event.
    pub character: Option<char>,
    /// The modifiers to put on the event.
    pub flags: u64,
}

/// What has to be remembered between events.
#[derive(Clone, Copy, Debug, PartialEq, Eq, Structural)]
pub struct Backend {
    pub active_flags: u64,
    pub left_down: bool,
    pub right_down: bool,
    pub other_down: bool,
    pub wheel: Wheel,
}

impl Backend {
    pub open spec fn wf(&self) -> bool {
        self.wheel.wf(PIXEL_UNIT as int)
    }

    pub fn new() -> (r: Self)
        ensures
            r.wf(),
            r == (Backend {
                active_flags: 0,
                left_down: false,
                right_down: false,
                other_down: false,
                wheel: Wheel { x: 0, y: 0 },
            }),
    {
        Backend {
            active_flags: 0,
            left_down: false,
            right_down: false,
            other_down: false,
            wheel: Wheel::new(),
        }
    }

    /// How a movement is reported: as a drag while a button is down.
    pub fn move_abs(&self) -> (r: MouseEvent)
        ensures
            r == (MouseEvent {
                kind: if self.left_down {
                    MouseKind::LeftDragged
                } else if self.right_down {
                    MouseKind::RightDragged
                } else if self.other_down {
                    MouseKind::OtherDragged
                } else {
                    MouseKind::Moved
                },
                button: if self.right_down {
                    MacButton::Right
                } else if self.other_down {
                    MacButton::Center
                } else {
                    MacButton::Left
                },
                number: None,
                flags: self.active_flags,
            }),
    {
        let kind = if self.left_down {
            MouseKind::LeftDragged
        } else if self.right_down {
            MouseKind::RightDragged
        } else if self.other_down {
            MouseKind::OtherDragged
        } else {
            MouseKind::Moved
        };
        let button = if self.right_down {
            MacButton::Right
        } else if self.other_down {
            MacButton::Center
        } else {
            MacButton::Left
        };
        MouseEvent { kind, button, number: None, flags: self.active_flags }
    }

    /// How a button is reported.
    pub open spec fn button_event(&self, button: Button, down: bool) -> MouseEvent {
        let (pressed, released, mac, number) = match button {
            Button::Left => (MouseKind::LeftDown, MouseKind::LeftUp, MacButton::Left, None),
            Button::Right => (MouseKind::RightDown, MouseKind::RightUp, MacButton::Right, None),
            Button::Middle => (
                MouseKind::OtherDown,
                MouseKind::OtherUp,
                MacButton::Center,
                Some(2u8),
            ),
            Button::Back => (
                MouseKind::OtherDown,
                MouseKind::OtherUp,
                MacButton::Center,
                Some(3u8),
            ),
            Button::Forward => (
                MouseKind::OtherDown,
                MouseKind::OtherUp,
                MacButton::Center,
                Some(4u8),
            ),
        };
        MouseEvent {
            kind: if down {
                pressed
            } else {
                released
            },
            button: mac,
            number,
            flags: self.active_flags,
        }
    }

    pub fn button(&mut self, button: Button, down: bool) -> (r: MouseEvent)
        ensures
            r == old(self).button_event(button, down),
            *final(self) == match button {
                Button::Left => Backend { left_down: down, ..*old(self) },
                Button::Right => Backend { right_down: down, ..*old(self) },
                _ => Backend { other_down: down, ..*old(self) },
            },
    {
        let (kind, mac, number) = match button {
            Button::Left => {
                self.left_down = down;
                (
                    if down {
                        MouseKind::LeftDown
                    } else {
                        MouseKind::LeftUp
                    },
                    MacButton::Left,
                    None,
                )
            },
            Button::Right => {
                self.right_down = down;
                (
                    if down {
                        MouseKind::RightDown
                    } else {
                        MouseKind::RightUp
                    },
                    MacButton::Right,
                    None,
                )
            },
            Button::Middle => {
                self.other_down = down;
                (other_kind(down), MacButton::Center, Some(2u8))
            },
            Button::Back => {
                self.other_down = down;
                (other_kind(down), MacButton::Center, Some(3u8))
            },
            Button::Forward => {
                self.other_down = down;
                (other_kind(down), MacButton::Center, Some(4u8))
            },
        };
        MouseEvent { kind, button: mac, number, flags: self.active_flags }
    }

    /// Takes in a wheel event, in 1/120 of a notch, and gives the pixels to
    /// scroll, vertically and sideways, if there are any. What is left over is
    /// kept for the next event.
    pub fn wheel(&mut self, dx: i16, dy: i16) -> (r: Option<(i32, i32)>)
        requires
            old(self).wf(),
        ensures
            final(self).wf(),
            ({
                let py = other::whole_part(old(self).wheel.y + dy, PIXEL_UNIT as int);
                let px = other::whole_part(old(self).wheel.x + dx, PIXEL_UNIT as int);
                &&& r == if py != 0 || px != 0 {
                    Some((py as i32, px as i32))
                } else {
                    None
                }
                &&& *final(self) == (Backend {
                    wheel: Wheel {
                        x: (old(self).wheel.x + dx - px * PIXEL_UNIT) as i32,
                        y: (old(self).wheel.y + dy - py * PIXEL_UNIT) as i32,
                    },
                    ..*old(self)
                })
            }),
    {
        let y: i32 = self.wheel.y + dy as i32;
        let x: i32 = self.wheel.x + dx as i32;
        let py = other::whole(y, PIXEL_UNIT);
        let px = other::whole(x, PIXEL_UNIT);
        self.wheel = Wheel { x: x - px * PIXEL_UNIT, y: y - py * PIXEL_UNIT };
        if py != 0 || px != 0 {
            Some((py, px))
        } else {
            None
        }
    }

    /// The modifiers held after a key.
    pub open spec fn flags_after(&self, keycode: u16, down: bool) -> u64 {
        match modifier_mask(keycode) {
            Some(mask) => if down {
                self.active_flags | mask
            } else {
                self.active_flags & !mask
            },
            None => self.active_flags,
        }
    }

    /// Presses or lets go of a key, if macOS has it.
    pub fn key(&mut self, vk: u16, scan: u16, ext: bool, down: bool) -> (r: Option<KeyEvent>)
        ensures
            match mac_code(vk) {
                Some(keycode) => {
                    let flags = old(self).flags_after(keycode, down);
                    &&& *final(self) == (Backend { active_flags: flags, ..*old(self) })
                    &&& r == Some(
                        KeyEvent {
                            keycode,
                            down,
                            character: if down {
                                mac_char(vk)
                            } else {
                                None
                            },
                            flags,
                        },
                    )
                },
                None => r is None && *final(self) == *old(self),
            },
    {
        let (keycode, ch) = match vk_to_mac_keycode(vk, scan, ext) {
            Some(found) => found,
            None => {
                return None;
            },
        };
        // Update modifier bitmask
        if let Some(mask) = mask_of(keycode) {
            if down {
                self.active_flags = self.active_flags | mask;
            } else {
                self.active_flags = self.active_flags & !mask;
            }
        }
        // Set the character for printable keys if available
        let character = if down {
            ch
        } else {
            None
        };
        Some(KeyEvent { keycode, down, character, flags: self.active_flags })
    }
}

fn other_kind(down: bool) -> (r: MouseKind)
    ensures
        r == if down {
            MouseKind::OtherDown
        } else {
            MouseKind::OtherUp
        },
{
    if down {
        MouseKind::OtherDown
    } else {
        MouseKind::OtherUp
    }
}

/// A modifier that goes down is on every event until it goes up again, and then
/// leaves no trace, whatever other modifiers are held.
pub proof fn modifier_comes_and_goes(backend: Backend, keycode: u16)
    requires
        modifier_mask(keycode) is Some,
        backend.active_flags & modifier_mask(keycode)->0 == 0,
    ensures
        ({
            let mask = modifier_mask(keycode)->0;
            let pressed = Backend {
                active_flags: backend.flags_after(keycode, true),
                ..backend
            };
            &&& pressed.active_flags & mask == mask
            &&& pressed.flags_after(keycode, false) == backend.active_flags
        }),
{
    let flags = backend.active_flags;
    let mask = modifier_mask(keycode)->0;
    assert((flags | mask) & !mask == flags) by (bit_vector)
        requires
            flags & mask == 0,
    ;
    assert((flags | mask) & mask == mask) by (bit_vector);
}

} // verus!
