//! What the hooks promise, said of the system's own numbers.

use vstd::prelude::*;

use crate::capture::win;
use crate::capture::CaptureEvent;
use crate::protocol::Button;

verus! {

/// The upper half of a word is a signed number of sixteen bits: with the lower half it
/// makes up the word, read with a sign.
pub proof fn halves_make_up_the_word(v: u32)
    ensures
        -32768 <= win::high_half(v) <= 32767,
        win::high_half(v) >= 0 ==> win::high_half(v) * 65536 + v as int % 65536 == v,
        win::high_half(v) < 0 ==> win::high_half(v) * 65536 + v as int % 65536 == v - 0x1_0000_0000,
{
}

/// What each message of the mouse reports. A button's release has the number after its
/// press; the two wheels turn on different axes, by the upper half of the data; which of
/// the side buttons it was is there too. Everything else is the position.
pub proof fn mouse_messages_mean_this(data: u32, x: i32, y: i32)
    ensures
        win::mouse_event(0x0201, data, x, y) == (CaptureEvent::Button {
            button: Button::Left,
            down: true,
        }),
        win::mouse_event(0x0202, data, x, y) == (CaptureEvent::Button {
            button: Button::Left,
            down: false,
        }),
        win::mouse_event(0x0204, data, x, y) == (CaptureEvent::Button {
            button: Button::Right,
            down: true,
        }),
        win::mouse_event(0x0205, data, x, y) == (CaptureEvent::Button {
            button: Button::Right,
            down: false,
        }),
        win::mouse_event(0x0207, data, x, y) == (CaptureEvent::Button {
            button: Button::Middle,
            down: true,
        }),
        win::mouse_event(0x0208, data, x, y) == (CaptureEvent::Button {
            button: Button::Middle,
            down: false,
        }),
        data as int / 65536 == 2 ==> {
            &&& win::mouse_event(0x020B, data, x, y) == (CaptureEvent::Button {
                button: Button::Forward,
                down: true,
            })
            &&& win::mouse_event(0x020C, data, x, y) == (CaptureEvent::Button {
                button: Button::Forward,
                down: false,
            })
        },
        data as int / 65536 != 2 ==> {
            &&& win::mouse_event(0x020B, data, x, y) == (CaptureEvent::Button {
                button: Button::Back,
                down: true,
            })
            &&& win::mouse_event(0x020C, data, x, y) == (CaptureEvent::Button {
                button: Button::Back,
                down: false,
            })
        },
        win::mouse_event(0x020A, data, x, y) matches CaptureEvent::Wheel { dx, dy } && dx == 0
            && dy == win::high_half(data),
        win::mouse_event(0x020E, data, x, y) matches CaptureEvent::Wheel { dx, dy } && dy == 0
            && dx == win::high_half(data),
{
    halves_make_up_the_word(data);
}

/// Every other message is a movement, and tells where to.
pub proof fn other_messages_are_movements(msg: u32, data: u32, x: i32, y: i32)
    requires
        !(0x0201 <= msg <= 0x020E) || msg == 0x0203 || msg == 0x0206 || msg == 0x0209 || msg
            == 0x020D,
    ensures
        win::mouse_event(msg, data, x, y) == (CaptureEvent::MotionAbs { x, y }),
{
}

/// Keys go down and come up by two messages each, one of them for keys with Alt.
pub proof fn key_messages_mean_this(msg: u32)
    ensures
        win::is_down(msg) <==> msg == 0x0100 || msg == 0x0104,
        win::is_up(msg) <==> msg == 0x0101 || msg == 0x0105,
        !(win::is_down(msg) && win::is_up(msg)),
{
}

/// The modifiers: each of the three has a key that does not say which side it is on, a
/// left one and a right one.
pub proof fn modifier_keys_are_these(vk: u16)
    ensures
        win::modifier_of(vk) == Some(1u32) <==> vk == 0x11 || vk == 0xA2 || vk == 0xA3,
        win::modifier_of(vk) == Some(2u32) <==> vk == 0x12 || vk == 0xA4 || vk == 0xA5,
        win::modifier_of(vk) == Some(4u32) <==> vk == 0x10 || vk == 0xA0 || vk == 0xA1,
        win::modifier_of(vk) matches Some(bit) ==> bit == 1 || bit == 2 || bit == 4,
{
}

/// The hotkey is Home going down while the bits of Ctrl and Alt are set.
pub proof fn the_hotkey_is_ctrl_alt_home(mods: u32, msg: u32, vk: u16)
    ensures
        win::is_escape(mods, msg, vk) <==> {
            &&& msg == 0x0100 || msg == 0x0104
            &&& vk == 0x24
            &&& mods & 1 != 0
            &&& mods & 2 != 0
        },
{
}

/// After one message a modifier's bit is set if its key went down, clear if it came up,
/// and otherwise as it was.
pub proof fn one_message_moves_one_bit(mods: u32, msg: u32, vk: u16, bit: u32)
    requires
        bit == 1 || bit == 2 || bit == 4,
    ensures
        ({
            let after = win::modifiers_after(mods, msg, vk);
            let mine = win::modifier_of(vk) == Some(bit);
            &&& mine && (msg == 0x0100 || msg == 0x0104) ==> after & bit != 0
            &&& mine && (msg == 0x0101 || msg == 0x0105) ==> after & bit == 0
            &&& !mine || !(msg == 0x0100 || msg == 0x0104 || msg == 0x0101 || msg == 0x0105) ==> (
            after & bit != 0 <==> mods & bit != 0)
        }),
{
    let one = Seq::<(u32, u16)>::empty().push((msg, vk));
    assert(one.drop_last() =~= Seq::<(u32, u16)>::empty());
    reveal_with_fuel(win::modifiers_over, 2);
    assert(win::modifiers_over(mods, one) == win::modifiers_after(mods, msg, vk));
    win::bits_follow_the_keys(mods, one, bit);
    assert(one[0] == (msg, vk));
    if win::presses((msg, vk), bit) {
        assert(win::kept_from(one, 0, bit));
    }
}

} // verus!
