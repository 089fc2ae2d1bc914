//! What injection by portable key names promises.

use vstd::prelude::*;

use crate::inject::other;
use crate::inject::other::PortableKey;
use crate::platform::Os;

verus! {

/// Letters are typed as small letters, digits as digits, the keypad digit by digit, and
/// the function keys are numbered from one.
pub proof fn runs_of_keys_are_counted(vk: u16, n: int, os: Os)
    ensures
        0 <= n < 26 && vk == 0x41 + n ==> (other::portable(vk, os) matches Some(
            PortableKey::Unicode(c),
        ) && c as int == 'a' as int + n),
        0 <= n < 10 && vk == 0x30 + n ==> (other::portable(vk, os) matches Some(
            PortableKey::Unicode(c),
        ) && c as int == '0' as int + n),
        0 <= n < 10 && vk == 0x60 + n ==> (other::portable(vk, os) matches Some(
            PortableKey::Numpad(d),
        ) && d == n),
        1 <= n <= 20 && vk == 0x6F + n ==> (other::portable(vk, os) matches Some(
            PortableKey::Function(f),
        ) && f == n),
{
}

/// The punctuation of a US keyboard is typed as it is printed.
pub proof fn punctuation_is_typed(os: Os)
    ensures
        other::portable(0xBA, os) == Some(PortableKey::Unicode(';')),
        other::portable(0xBB, os) == Some(PortableKey::Unicode('=')),
        other::portable(0xBC, os) == Some(PortableKey::Unicode(',')),
        other::portable(0xBD, os) == Some(PortableKey::Unicode('-')),
        other::portable(0xBE, os) == Some(PortableKey::Unicode('.')),
        other::portable(0xBF, os) == Some(PortableKey::Unicode('/')),
        other::portable(0xC0, os) == Some(PortableKey::Unicode('`')),
        other::portable(0xDB, os) == Some(PortableKey::Unicode('[')),
        other::portable(0xDC, os) == Some(PortableKey::Unicode('\\')),
        other::portable(0xDD, os) == Some(PortableKey::Unicode(']')),
        other::portable(0xDE, os) == Some(PortableKey::Unicode('\'')),
{
}

/// Every other key that has a portable name goes by it, whatever the system.
pub proof fn keys_go_by_their_names(os: Os)
    ensures
        other::portable(0x08, os) == Some(PortableKey::Backspace),
        other::portable(0x09, os) == Some(PortableKey::Tab),
        other::portable(0x0D, os) == Some(PortableKey::Return),
        other::portable(0x10, os) == Some(PortableKey::Shift),
        other::portable(0x11, os) == Some(PortableKey::Control),
        other::portable(0x12, os) == Some(PortableKey::Alt),
        other::portable(0x14, os) == Some(PortableKey::CapsLock),
        other::portable(0x1B, os) == Some(PortableKey::Escape),
        other::portable(0x20, os) == Some(PortableKey::Space),
        other::portable(0x21, os) == Some(PortableKey::PageUp),
        other::portable(0x22, os) == Some(PortableKey::PageDown),
        other::portable(0x23, os) == Some(PortableKey::End),
        other::portable(0x24, os) == Some(PortableKey::Home),
        other::portable(0x25, os) == Some(PortableKey::LeftArrow),
        other::portable(0x26, os) == Some(PortableKey::UpArrow),
        other::portable(0x27, os) == Some(PortableKey::RightArrow),
        other::portable(0x28, os) == Some(PortableKey::DownArrow),
        other::portable(0x2E, os) == Some(PortableKey::Delete),
        other::portable(0x2F, os) == Some(PortableKey::Help),
        other::portable(0x5B, os) == Some(PortableKey::Meta),
        other::portable(0x5C, os) == Some(PortableKey::Meta),
        other::portable(0x6A, os) == Some(PortableKey::Multiply),
        other::portable(0x6B, os) == Some(PortableKey::Add),
        other::portable(0x6C, os) == Some(PortableKey::Return),
        other::portable(0x6D, os) == Some(PortableKey::Subtract),
        other::portable(0x6E, os) == Some(PortableKey::Decimal),
        other::portable(0x6F, os) == Some(PortableKey::Divide),
        other::portable(0xA0, os) == Some(PortableKey::LShift),
        other::portable(0xA1, os) == Some(PortableKey::RShift),
        other::portable(0xA2, os) == Some(PortableKey::LControl),
        other::portable(0xA3, os) == Some(PortableKey::RControl),
        other::portable(0xA4, os) == Some(PortableKey::Alt),
        other::portable(0xA5, os) == Some(PortableKey::Alt),
        other::portable(0xAD, os) == Some(PortableKey::VolumeMute),
        other::portable(0xAE, os) == Some(PortableKey::VolumeDown),
        other::portable(0xAF, os) == Some(PortableKey::VolumeUp),
        other::portable(0xB0, os) == Some(PortableKey::MediaNextTrack),
        other::portable(0xB1, os) == Some(PortableKey::MediaPrevTrack),
        other::portable(0xB3, os) == Some(PortableKey::MediaPlayPause),
{
}

/// Insert has a name on X11 alone, and no other key has a name.
pub proof fn other_keys_have_no_name(vk: u16, os: Os)
    ensures
        other::portable(0x2D, Os::Other) == Some(PortableKey::Insert),
        other::portable(0x2D, Os::MacOs) is None,
        other::portable(0x2D, Os::Windows) is None,
        other::portable(vk, os) is Some ==> {
            ||| 0x30 <= vk <= 0x39
            ||| 0x41 <= vk <= 0x5C
            ||| 0x60 <= vk <= 0x83
            ||| 0xA0 <= vk <= 0xA5
            ||| 0xAD <= vk <= 0xB1
            ||| vk == 0xB3
            ||| 0xBA <= vk <= 0xC0
            ||| 0xDB <= vk <= 0xDE
            ||| 0x10 <= vk <= 0x12
            ||| 0x20 <= vk <= 0x28
            ||| 0x2D <= vk <= 0x2F
            ||| vk == 0x08 || vk == 0x09 || vk == 0x0D || vk == 0x14 || vk == 0x1B
        },
{
}

/// Whole notches and what is left over make up the turn, and both go the way of it.
pub proof fn notches_and_rest_make_the_turn(n: int, unit: int)
    requires
        unit > 0,
    ensures
        ({
            let whole = other::whole_part(n, unit);
            let rest = n - whole * unit;
            &&& -unit < rest < unit
            &&& n >= 0 ==> whole >= 0 && rest >= 0
            &&& n <= 0 ==> whole <= 0 && rest <= 0
        }),
{
    if n >= 0 {
        assert(n / unit >= 0 && 0 <= n - (n / unit) * unit < unit) by (nonlinear_arith)
            requires
                n >= 0,
                unit > 0,
        ;
        assert(n == 0 ==> n / unit == 0) by (nonlinear_arith)
            requires
                unit > 0,
        ;
    } else {
        let m = -n;
        let q = m / unit;
        assert(q >= 0 && 0 <= m - q * unit < unit) by (nonlinear_arith)
            requires
                m >= 0,
                unit > 0,
                q == m / unit,
        ;
        assert((-q) * unit == -(q * unit)) by (nonlinear_arith);
    }
}

/// A wheel keeps less than a notch on either axis.
pub proof fn less_than_a_notch_is_kept(wheel: other::Wheel, unit: int)
    ensures
        wheel.wf(unit) <==> -unit < wheel.x && wheel.x < unit && -unit < wheel.y && wheel.y < unit,
{
}

} // verus!
