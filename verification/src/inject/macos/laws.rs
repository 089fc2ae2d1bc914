//! What injection on a Mac promises.

use vstd::prelude::*;

use crate::inject::macos;
use crate::inject::macos::{Backend, MacButton, MouseKind};
use crate::inject::other;
use crate::inject::other::PortableKey;
use crate::platform::Os;
use crate::protocol::Button;

verus! {

/// The letters, by the place that each has on a Mac's keyboard.
pub proof fn letters_have_their_places()
    ensures
        macos::mac_code(0x41) == Some(0x00u16),
        macos::mac_code(0x42) == Some(0x0Bu16),
        macos::mac_code(0x43) == Some(0x08u16),
        macos::mac_code(0x44) == Some(0x02u16),
        macos::mac_code(0x45) == Some(0x0Eu16),
        macos::mac_code(0x46) == Some(0x03u16),
        macos::mac_code(0x47) == Some(0x05u16),
        macos::mac_code(0x48) == Some(0x04u16),
        macos::mac_code(0x49) == Some(0x22u16),
        macos::mac_code(0x4A) == Some(0x26u16),
        macos::mac_code(0x4B) == Some(0x28u16),
        macos::mac_code(0x4C) == Some(0x25u16),
        macos::mac_code(0x4D) == Some(0x2Eu16),
        macos::mac_code(0x4E) == Some(0x2Du16),
        macos::mac_code(0x4F) == Some(0x1Fu16),
        macos::mac_code(0x50) == Some(0x23u16),
        macos::mac_code(0x51) == Some(0x0Cu16),
        macos::mac_code(0x52) == Some(0x0Fu16),
        macos::mac_code(0x53) == Some(0x01u16),
        macos::mac_code(0x54) == Some(0x11u16),
        macos::mac_code(0x55) == Some(0x20u16),
        macos::mac_code(0x56) == Some(0x09u16),
        macos::mac_code(0x57) == Some(0x0Du16),
        macos::mac_code(0x58) == Some(0x07u16),
        macos::mac_code(0x59) == Some(0x10u16),
        macos::mac_code(0x5A) == Some(0x06u16),
{
}

/// The digits above the letters.
pub proof fn digits_have_their_places()
    ensures
        macos::mac_code(0x30) == Some(0x1Du16),
        macos::mac_code(0x31) == Some(0x12u16),
        macos::mac_code(0x32) == Some(0x13u16),
        macos::mac_code(0x33) == Some(0x14u16),
        macos::mac_code(0x34) == Some(0x15u16),
        macos::mac_code(0x35) == Some(0x17u16),
        macos::mac_code(0x36) == Some(0x16u16),
        macos::mac_code(0x37) == Some(0x1Au16),
        macos::mac_code(0x38) == Some(0x1Cu16),
        macos::mac_code(0x39) == Some(0x19u16),
{
}

/// The numeric keypad.
pub proof fn the_keypad_has_its_places()
    ensures
        macos::mac_code(0x60) == Some(0x52u16),
        macos::mac_code(0x61) == Some(0x53u16),
        macos::mac_code(0x62) == Some(0x54u16),
        macos::mac_code(0x63) == Some(0x55u16),
        macos::mac_code(0x64) == Some(0x56u16),
        macos::mac_code(0x65) == Some(0x57u16),
        macos::mac_code(0x66) == Some(0x58u16),
        macos::mac_code(0x67) == Some(0x59u16),
        macos::mac_code(0x68) == Some(0x5Bu16),
        macos::mac_code(0x69) == Some(0x5Cu16),
        macos::mac_code(0x6A) == Some(0x43u16),
        macos::mac_code(0x6B) == Some(0x45u16),
        macos::mac_code(0x6C) == Some(0x4Cu16),
        macos::mac_code(0x6D) == Some(0x4Eu16),
        macos::mac_code(0x6E) == Some(0x41u16),
        macos::mac_code(0x6F) == Some(0x4Bu16),
{
}

/// The function keys, F1 to F20.
pub proof fn function_keys_have_their_places()
    ensures
        macos::mac_code(0x70) == Some(0x7Au16),
        macos::mac_code(0x71) == Some(0x78u16),
        macos::mac_code(0x72) == Some(0x63u16),
        macos::mac_code(0x73) == Some(0x76u16),
        macos::mac_code(0x74) == Some(0x60u16),
        macos::mac_code(0x75) == Some(0x61u16),
        macos::mac_code(0x76) == Some(0x62u16),
        macos::mac_code(0x77) == Some(0x64u16),
        macos::mac_code(0x78) == Some(0x65u16),
        macos::mac_code(0x79) == Some(0x6Du16),
        macos::mac_code(0x7A) == Some(0x67u16),
        macos::mac_code(0x7B) == Some(0x6Fu16),
        macos::mac_code(0x7C) == Some(0x69u16),
        macos::mac_code(0x7D) == Some(0x6Bu16),
        macos::mac_code(0x7E) == Some(0x71u16),
        macos::mac_code(0x7F) == Some(0x6Au16),
        macos::mac_code(0x80) == Some(0x40u16),
        macos::mac_code(0x81) == Some(0x4Fu16),
        macos::mac_code(0x82) == Some(0x50u16),
        macos::mac_code(0x83) == Some(0x5Au16),
{
}

/// The punctuation of a US keyboard.
pub proof fn punctuation_has_its_places()
    ensures
        macos::mac_code(0xBA) == Some(0x29u16),
        macos::mac_code(0xBB) == Some(0x18u16),
        macos::mac_code(0xBC) == Some(0x2Bu16),
        macos::mac_code(0xBD) == Some(0x1Bu16),
        macos::mac_code(0xBE) == Some(0x2Fu16),
        macos::mac_code(0xBF) == Some(0x2Cu16),
        macos::mac_code(0xC0) == Some(0x32u16),
        macos::mac_code(0xDB) == Some(0x21u16),
        macos::mac_code(0xDC) == Some(0x2Au16),
        macos::mac_code(0xDD) == Some(0x1Eu16),
        macos::mac_code(0xDE) == Some(0x27u16),
{
}

/// Shift, Control, Alt, which is Option, and the Windows key, which is Command; a key
/// that does not say which side it is on is the left one.
pub proof fn modifiers_have_their_places()
    ensures
        macos::mac_code(0x10) == Some(0x38u16),
        macos::mac_code(0xA0) == Some(0x38u16),
        macos::mac_code(0xA1) == Some(0x3Cu16),
        macos::mac_code(0x11) == Some(0x3Bu16),
        macos::mac_code(0xA2) == Some(0x3Bu16),
        macos::mac_code(0xA3) == Some(0x3Eu16),
        macos::mac_code(0x12) == Some(0x3Au16),
        macos::mac_code(0xA4) == Some(0x3Au16),
        macos::mac_code(0xA5) == Some(0x3Du16),
        macos::mac_code(0x5B) == Some(0x37u16),
        macos::mac_code(0x5C) == Some(0x36u16),
{
}

/// The keys that edit and move about: Backspace, Tab, Return, Caps Lock, Escape, Space,
/// Page Up, Page Down, End, Home, the arrows, Insert and Delete.
pub proof fn editing_keys_have_their_places()
    ensures
        macos::mac_code(0x08) == Some(0x33u16),
        macos::mac_code(0x09) == Some(0x30u16),
        macos::mac_code(0x0D) == Some(0x24u16),
        macos::mac_code(0x14) == Some(0x39u16),
        macos::mac_code(0x1B) == Some(0x35u16),
        macos::mac_code(0x20) == Some(0x31u16),
        macos::mac_code(0x21) == Some(0x74u16),
        macos::mac_code(0x22) == Some(0x79u16),
        macos::mac_code(0x23) == Some(0x77u16),
        macos::mac_code(0x24) == Some(0x73u16),
        macos::mac_code(0x25) == Some(0x7Bu16),
        macos::mac_code(0x26) == Some(0x7Eu16),
        macos::mac_code(0x27) == Some(0x7Cu16),
        macos::mac_code(0x28) == Some(0x7Du16),
        macos::mac_code(0x2D) == Some(0x72u16),
        macos::mac_code(0x2E) == Some(0x75u16),
{
}

/// Mute, and the volume down and up.
pub proof fn volume_keys_have_their_places()
    ensures
        macos::mac_code(0xAD) == Some(0x4Au16),
        macos::mac_code(0xAE) == Some(0x49u16),
        macos::mac_code(0xAF) == Some(0x48u16),
{
}

/// No other key is known.
pub proof fn other_keys_have_none(vk: u16)
    ensures
        macos::mac_code(vk) is Some <==> {
            ||| 0x30 <= vk <= 0x39
            ||| 0x41 <= vk <= 0x5A
            ||| 0x60 <= vk <= 0x83
            ||| 0xBA <= vk <= 0xC0
            ||| 0xDB <= vk <= 0xDE
            ||| 0xA0 <= vk <= 0xA5
            ||| 0xAD <= vk <= 0xAF
            ||| 0x10 <= vk <= 0x12
            ||| 0x20 <= vk <= 0x28
            ||| vk == 0x08 || vk == 0x09 || vk == 0x0D || vk == 0x14 || vk == 0x1B
            ||| vk == 0x2D || vk == 0x2E || vk == 0x5B || vk == 0x5C
        },
{
}

/// Two different keys are in the same place only where they are the same key by two
/// names: a modifier that does not say which side it is on.
pub proof fn keys_are_told_apart(a: u16, b: u16)
    requires
        macos::mac_code(a) is Some,
        macos::mac_code(a) == macos::mac_code(b),
        a < b,
    ensures
        a == 0x10 && b == 0xA0 || a == 0x11 && b == 0xA2 || a == 0x12 && b == 0xA4,
{
}

/// A key types what it has printed on it without Shift: a letter the small letter, a
/// digit, on the keypad too, the digit; and where the portable name of a key is a
/// character, it is the same one.
pub proof fn keys_type_what_is_on_them(vk: u16, n: int)
    ensures
        0 <= n < 26 && vk == 0x41 + n ==> (macos::mac_char(vk) matches Some(c) && c as int
            == 'a' as int + n),
        0 <= n < 10 && vk == 0x30 + n ==> (macos::mac_char(vk) matches Some(c) && c as int
            == '0' as int + n),
        0 <= n < 10 && vk == 0x60 + n ==> (macos::mac_char(vk) matches Some(c) && c as int
            == '0' as int + n),
        other::portable(vk, Os::MacOs) matches Some(PortableKey::Unicode(c)) ==> macos::mac_char(vk)
            == Some(c),
        macos::mac_char(0x20) == Some(' '),
        macos::mac_char(0x6A) == Some('*'),
        macos::mac_char(0x6B) == Some('+'),
        macos::mac_char(0x6D) == Some('-'),
        macos::mac_char(0x6E) == Some('.'),
        macos::mac_char(0x6F) == Some('/'),
{
}

/// Keys that print nothing type nothing.
pub proof fn silent_keys_type_nothing(vk: u16)
    requires
        !(0x30 <= vk <= 0x39),
        !(0x41 <= vk <= 0x5A),
        !(0x60 <= vk <= 0x6F) || vk == 0x6C,
        !(0xBA <= vk <= 0xC0),
        !(0xDB <= vk <= 0xDE),
        vk != 0x20,
    ensures
        macos::mac_char(vk) is None,
{
}

/// Each modifier has one flag, the same on the left and on the right, and no other key
/// has one.
pub proof fn modifiers_have_flags(keycode: u16)
    ensures
        macos::modifier_mask(keycode) == if keycode == 0x38 || keycode == 0x3C {
            Some(0x20000u64)
        } else if keycode == 0x3B || keycode == 0x3E {
            Some(0x40000u64)
        } else if keycode == 0x3A || keycode == 0x3D {
            Some(0x80000u64)
        } else if keycode == 0x37 || keycode == 0x36 {
            Some(0x100000u64)
        } else {
            None
        },
{
}

/// A key that is no modifier leaves the flags alone; a modifier sets its own flag while
/// it is down and clears it when it comes up, and no other.
pub proof fn flags_follow_the_modifiers(backend: Backend, keycode: u16, down: bool, flag: u64)
    requires
        flag == 0x20000 || flag == 0x40000 || flag == 0x80000 || flag == 0x100000,
    ensures
        ({
            let after = backend.flags_after(keycode, down);
            &&& macos::modifier_mask(keycode) is None ==> after == backend.active_flags
            &&& macos::modifier_mask(keycode) == Some(flag) ==> (after & flag != 0 <==> down)
            &&& macos::modifier_mask(keycode) != Some(flag) ==> (after & flag
                == backend.active_flags & flag)
        }),
{
    let f = backend.active_flags;
    modifiers_have_flags(keycode);
    assert((f | flag) & flag != 0) by (bit_vector)
        requires
            flag == 0x20000 || flag == 0x40000 || flag == 0x80000 || flag == 0x100000,
    ;
    assert((f & !flag) & flag == 0) by (bit_vector);
    if let Some(mask) = macos::modifier_mask(keycode) {
        if mask != flag {
            assert((f | mask) & flag == f & flag && (f & !mask) & flag == f & flag) by (bit_vector)
                requires
                    flag == 0x20000 || flag == 0x40000 || flag == 0x80000 || flag == 0x100000,
                    mask == 0x20000 || mask == 0x40000 || mask == 0x80000 || mask == 0x100000,
                    mask != flag,
            ;
        }
    }
}

/// A button is reported by its own event, down as down and up as up, with the modifiers
/// that are held; the buttons beyond the first two are numbered from two on.
pub proof fn buttons_are_reported_as_they_are(backend: Backend, button: Button, down: bool)
    ensures
        ({
            let e = backend.button_event(button, down);
            &&& e.flags == backend.active_flags
            &&& e.kind == match (button, down) {
                (Button::Left, true) => MouseKind::LeftDown,
                (Button::Left, false) => MouseKind::LeftUp,
                (Button::Right, true) => MouseKind::RightDown,
                (Button::Right, false) => MouseKind::RightUp,
                (_, true) => MouseKind::OtherDown,
                (_, false) => MouseKind::OtherUp,
            }
            &&& e.button == match button {
                Button::Left => MacButton::Left,
                Button::Right => MacButton::Right,
                _ => MacButton::Center,
            }
            &&& e.number == match button {
                Button::Left => None::<u8>,
                Button::Right => None::<u8>,
                Button::Middle => Some(2u8),
                Button::Back => Some(3u8),
                Button::Forward => Some(4u8),
            }
        }),
{
}

/// No two buttons are reported alike, nor a press like a release.
pub proof fn buttons_are_told_apart(
    backend: Backend,
    a: Button,
    b: Button,
    press: bool,
    release: bool,
)
    ensures
        backend.button_event(a, press) == backend.button_event(b, release) <==> a == b && press
            == release,
{
}

} // verus!
