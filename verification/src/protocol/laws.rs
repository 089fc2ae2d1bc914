//! What the values on the wire promise.

use vstd::prelude::*;

use crate::protocol;
use crate::protocol::{Display, DeviceId};

verus! {

/// The text of some bytes has two digits for each, the high half first, of which
/// those below ten are `0` to `9` and the others `a` to `f`.
pub proof fn bytes_are_two_digits_each(bytes: Seq<u8>, i: int)
    requires
        0 <= i < bytes.len(),
    ensures
        ({
            let text = protocol::hex_of(bytes);
            let high = bytes[i] as int / 16;
            let low = bytes[i] as int % 16;
            &&& text.len() == 2 * bytes.len()
            &&& high < 10 ==> text[2 * i] as int == '0' as int + high
            &&& high >= 10 ==> text[2 * i] as int == 'a' as int + (high - 10)
            &&& low < 10 ==> text[2 * i + 1] as int == '0' as int + low
            &&& low >= 10 ==> text[2 * i + 1] as int == 'a' as int + (low - 10)
        }),
{
    assert((2 * i) / 2 == i && (2 * i) % 2 == 0);
    assert((2 * i + 1) / 2 == i && (2 * i + 1) % 2 == 1);
}

/// A byte is read as a digit exactly if it is one, and then as that digit; capitals
/// count as small letters.
pub proof fn digits_are_read_as_written(b: u8)
    ensures
        match protocol::hex_value(b) {
            Some(v) => {
                ||| 0 <= v <= 9 && b == 0x30 + v
                ||| 10 <= v <= 15 && b == 0x61 + (v - 10)
                ||| 10 <= v <= 15 && b == 0x41 + (v - 10)
            },
            None => !(0x30 <= b <= 0x39) && !(0x61 <= b <= 0x66) && !(0x41 <= b <= 0x46),
        },
{
}

/// Digits are read in pairs, the first of a pair counting sixteenfold.
pub proof fn pairs_of_digits_make_bytes(digits: Seq<u8>, i: int)
    requires
        protocol::all_hex(digits),
        0 <= i,
        2 * i + 1 < digits.len(),
    ensures
        protocol::unhex(digits).len() == digits.len() / 2,
        protocol::unhex(digits)[i] == 16 * protocol::hex_value(digits[2 * i])->0
            + protocol::hex_value(digits[2 * i + 1])->0,
{
    assert(protocol::hex_value(digits[2 * i]) is Some);
    assert(protocol::hex_value(digits[2 * i + 1]) is Some);
}

/// Text is an id only if every byte of it is a digit.
pub proof fn one_bad_digit_spoils_an_id(bytes: Seq<u8>, i: int)
    requires
        0 <= i < bytes.len(),
        protocol::hex_value(bytes[i]) is None,
    ensures
        !protocol::all_hex(bytes),
{
}

/// Two scales are equal if their bits are, unless they are not numbers, and the two
/// zeros are equal.
pub proof fn scales_are_compared_as_numbers(a: u32, b: u32)
    ensures
        ({
            let size = |bits: u32| bits as int % 0x8000_0000;
            protocol::same_scale(a, b) <==> size(a) <= 0x7F80_0000 && size(b) <= 0x7F80_0000 && (a
                == b || size(a) == 0 && size(b) == 0)
        }),
{
}

/// Lists of monitors are equal if they are so one by one, in every field.
pub proof fn monitors_are_compared_in_every_field(a: Seq<Display>, b: Seq<Display>)
    ensures
        protocol::same_displays(a, b) <==> {
            &&& a.len() == b.len()
            &&& forall|i: int|
                0 <= i < a.len() ==> {
                    &&& (#[trigger] a[i]).id == b[i].id
                    &&& a[i].name@ == b[i].name@
                    &&& a[i].x == b[i].x
                    &&& a[i].y == b[i].y
                    &&& a[i].width == b[i].width
                    &&& a[i].height == b[i].height
                    &&& a[i].primary == b[i].primary
                    &&& protocol::same_scale(a[i].scale_bits, b[i].scale_bits)
                }
        },
{
}

/// Every id can be written and read back, and no two are written alike.
pub proof fn ids_survive_as_text(a: DeviceId, b: DeviceId)
    ensures
        protocol::hex_of(a@).len() == 32,
        protocol::hex_of(a@) == protocol::hex_of(b@) <==> a@ == b@,
{
    if protocol::hex_of(a@) == protocol::hex_of(b@) {
        protocol::hex_injective(a, b);
    }
}

} // verus!
