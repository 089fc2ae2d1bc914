//! What injection on Windows promises.

use vstd::prelude::*;

use crate::inject::win;
use crate::inject::win::KeyInput;
use crate::protocol::Button;

verus! {

/// A pixel is mapped to the nearest of the 65536 places across the screen: no other is
/// nearer to where the pixel lies. What is off the screen on either side is mapped to
/// that side's end.
pub proof fn pixels_go_to_the_nearest_place(offset: int, extent: int)
    requires
        extent >= 1,
    ensures
        ({
            let place = win::normalised(offset, extent);
            &&& 0 <= place <= 65535
            &&& 0 <= offset <= extent ==> -extent <= 2 * (place * extent - offset * 65535)
                <= extent
            &&& offset < 0 ==> place == 0
            &&& offset >= extent ==> place == 65535
        }),
{
    let scaled = offset * 65535 + extent / 2;
    let q = scaled / extent;
    assert(q * extent <= scaled < q * extent + extent) by (nonlinear_arith)
        requires
            q == scaled / extent,
            extent > 0,
    ;
    if offset < 0 {
        assert(q < 1) by (nonlinear_arith)
            requires
                q * extent <= scaled,
                scaled < extent,
                extent > 0,
        ;
    }
    if 0 <= offset {
        assert(q >= 0) by (nonlinear_arith)
            requires
                scaled < q * extent + extent,
                scaled >= 0,
                extent > 0,
        ;
    }
    if offset <= extent {
        assert(q <= 65535) by (nonlinear_arith)
            requires
                q * extent <= scaled,
                scaled < 65536 * extent,
                extent > 0,
        ;
    }
    if offset >= extent {
        assert(q >= 65535) by (nonlinear_arith)
            requires
                scaled < q * extent + extent,
                scaled >= 65535 * extent,
                extent > 0,
        ;
    }
}

/// What each button is, down and up: the release of a button has the flag after that of
/// its press, and the side buttons are told apart by the data.
pub proof fn buttons_have_their_flags()
    ensures
        win::button_flags(Button::Left, true) == (2u32, 0u32),
        win::button_flags(Button::Left, false) == (4u32, 0u32),
        win::button_flags(Button::Right, true) == (8u32, 0u32),
        win::button_flags(Button::Right, false) == (16u32, 0u32),
        win::button_flags(Button::Middle, true) == (32u32, 0u32),
        win::button_flags(Button::Middle, false) == (64u32, 0u32),
        win::button_flags(Button::Back, true) == (128u32, 1u32),
        win::button_flags(Button::Back, false) == (256u32, 1u32),
        win::button_flags(Button::Forward, true) == (128u32, 2u32),
        win::button_flags(Button::Forward, false) == (256u32, 2u32),
{
}

/// No two buttons are injected alike, nor a press like a release.
pub proof fn buttons_are_told_apart(a: Button, b: Button, press: bool, release: bool)
    ensures
        win::button_flags(a, press) == win::button_flags(b, release) <==> a == b && press == release,
        win::button_flags(a, false).0 == 2 * win::button_flags(a, true).0,
{
}

/// A turn of the wheel is carried whole: as it is, or, backwards, as what is short of two
/// to the thirty-second.
pub proof fn turns_are_carried_whole(delta: i16)
    ensures
        delta >= 0 ==> win::wheel_data(delta) == delta,
        delta < 0 ==> win::wheel_data(delta) == 0x1_0000_0000 + delta,
{
}

/// A key says that it came up, that it is on the extended part of the keyboard and that
/// it goes by its place, each by a flag of its own, exactly where that is so.
pub proof fn keys_say_what_they_do(scan: u16, ext: bool, down: bool)
    ensures
        win::key_flags(scan, ext, down) == (if ext {
            1int
        } else {
            0int
        }) + (if down {
            0int
        } else {
            2int
        }) + (if scan != 0 {
            8int
        } else {
            0int
        }),
{
    assert(0u32 | 1u32 == 1u32 && 2u32 | 1u32 == 3u32 && 0u32 | 8u32 == 8u32 && 1u32 | 8u32 == 9u32
        && 2u32 | 8u32 == 10u32 && 3u32 | 8u32 == 11u32) by (bit_vector);
}

/// A character in UTF-16 can be read back: it is one unit that is no half of a pair, or
/// the two halves of a pair.
pub proof fn characters_read_back(c: char)
    ensures
        ({
            let units = win::utf16(c);
            &&& units.len() == 1 || units.len() == 2
            &&& units.len() == 1 ==> units[0] as int == c as int && !(0xD800 <= units[0] <= 0xDFFF)
            &&& units.len() == 2 ==> {
                &&& 0xD800 <= units[0] <= 0xDBFF
                &&& 0xDC00 <= units[1] <= 0xDFFF
                &&& c as int == 0x10000 + (units[0] - 0xD800) * 0x400 + (units[1] - 0xDC00)
            }
        }),
{
    vstd::utf8::char_is_scalar(c);
}

/// A text is typed character by character, and each unit of one by a press and then a
/// release that carry it.
pub proof fn texts_are_typed_in_order(before: Seq<char>, c: char)
    ensures
        ({
            let units = win::utf16(c);
            let old = win::typed_text(before);
            let new = win::typed_text(before.push(c));
            let n = old.len() as int;
            &&& win::typed_text(Seq::<char>::empty()).len() == 0
            &&& new.len() == n + 2 * units.len()
            &&& new.subrange(0, n) == old
            &&& forall|k: int|
                0 <= k < units.len() ==> {
                    &&& new[n + 2 * k] == (KeyInput { vk: 0, scan: #[trigger] units[k], flags: 4 })
                    &&& new[n + 2 * k + 1] == (KeyInput { vk: 0, scan: units[k], flags: 6 })
                }
        }),
{
    let old = win::typed_text(before);
    let new = win::typed_text(before.push(c));
    assert(before.push(c).drop_last() =~= before);
    assert(4u32 | 2u32 == 6u32) by (bit_vector);
    assert(new.subrange(0, old.len() as int) =~= old);
}

/// A screen without an extent counts as one pixel.
pub proof fn empty_screens_count_as_a_pixel(offset: int, extent: int)
    requires
        extent < 1,
    ensures
        win::normalised(offset, extent) == win::normalised(offset, 1),
{
}

} // verus!
