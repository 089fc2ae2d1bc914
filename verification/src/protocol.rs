//! Wire protocol for CrossDesk.
//!
//! These are the values that travel between a host and its clients. The order
//! of fields and variants is part of the protocol: only ever append variants,
//! never reorder them.

use vstd::prelude::*;
use vstd::string::StringSliceAdditionalSpecFns;

pub mod laws;

verus! {

/// Bumped whenever the framing or message layout changes incompatibly.
pub const PROTOCOL_VERSION: u8 = 1;

/// Magic prefix on the very first bytes of a TCP connection, so a stray
/// connection from something else is rejected before any crypto work.
pub const MAGIC: [u8; 4] = [0x58, 0x44, 0x53, 0x4B];

/// TCP port the host listens on for peers.
pub const DEFAULT_PORT: u16 = 47810;

/// UDP port used for LAN discovery.
pub const DISCOVERY_PORT: u16 = 47811;

/// Frames larger than this are refused outright (guards against a bad peer
/// making us allocate). Large clipboard images are the only big payload.
pub const MAX_FRAME: usize = 33554432;

pub type DeviceId = [u8; 16];

/// The lower-case hexadecimal digit of a value below sixteen.
pub open spec fn hex_digit(n: int) -> char {
    if n < 10 {
        ((48 + n) as u8) as char
    } else {
        ((87 + n) as u8) as char
    }
}

/// Two lower-case hexadecimal digits per byte, high half first.
pub open spec fn hex_of(bytes: Seq<u8>) -> Seq<char> {
    Seq::new(
        2 * bytes.len(),
        |i: int|
            if i % 2 == 0 {
                hex_digit(bytes[i / 2] as int / 16)
            } else {
                hex_digit(bytes[i / 2] as int % 16)
            },
    )
}

/// The value of a byte read as an ASCII hexadecimal digit, in either case.
pub open spec fn hex_value(b: u8) -> Option<int> {
    if 48 <= b <= 57 {
        Some(b - 48)
    } else if 97 <= b <= 102 {
        Some(b - 87)
    } else if 65 <= b <= 70 {
        Some(b - 55)
    } else {
        None
    }
}

/// Whether every byte is an ASCII hexadecimal digit.
pub open spec fn all_hex(bytes: Seq<u8>) -> bool {
    forall|i: int| 0 <= i < bytes.len() ==> hex_value(#[trigger] bytes[i]) is Some
}

/// The bytes that a run of hexadecimal digits spells, two digits to a byte.
pub open spec fn unhex(digits: Seq<u8>) -> Seq<u8> {
    Seq::new(
        digits.len() / 2,
        |i: int| (16 * hex_value(digits[2 * i])->0 + hex_value(digits[2 * i + 1])->0) as u8,
    )
}

fn digit_of(n: u8) -> (r: char)
    requires
        n < 16,
    ensures
        r == hex_digit(n as int),
{
    if n < 10 {
        (48 + n) as char
    } else {
        (87 + n) as char
    }
}

/// Writes an id as 32 lower-case hexadecimal digits.
pub fn id_to_hex(id: &DeviceId) -> (s: String)
    ensures
        s@ == hex_of(id@),
{
    let mut s = String::new();
    let mut i: usize = 0;
    while i < 16
        invariant
            i <= 16,
            s@ == hex_of(id@).take(2 * i),
        decreases 16 - i,
    {
        let b: u8 = id[i];
        s.push(digit_of(b / 16));
        s.push(digit_of(b % 16));
        assert(s@ =~= hex_of(id@).take(2 * (i + 1)));
        i += 1;
    }
    assert(hex_of(id@).take(32) =~= hex_of(id@));
    s
}

fn value_of(b: u8) -> (r: Option<u8>)
    ensures
        r is Some <==> hex_value(b) is Some,
        r is Some ==> r->0 == hex_value(b)->0 && r->0 < 16,
{
    if 48 <= b && b <= 57 {
        Some(b - 48)
    } else if 97 <= b && b <= 102 {
        Some(b - 87)
    } else if 65 <= b && b <= 70 {
        Some(b - 55)
    } else {
        None
    }
}

/// Reads an id back from text. Succeeds exactly when the text is 32 bytes long
/// and all of them are hexadecimal digits, of either case.
pub fn id_from_hex(s: &str) -> (r: Option<DeviceId>)
    ensures
        r is Some <==> s.spec_bytes().len() == 32 && all_hex(s.spec_bytes()),
        r is Some ==> r->0@ == unhex(s.spec_bytes()),
{
    let b = s.as_bytes();
    if b.len() != 32 {
        return None;
    }
    let mut out: DeviceId = [0u8; 16];
    let mut i: usize = 0;
    while i < 16
        invariant
            i <= 16,
            b@ == s.spec_bytes(),
            b@.len() == 32,
            forall|k: int| 0 <= k < 2 * i ==> hex_value(#[trigger] b@[k]) is Some,
            forall|k: int| 0 <= k < i ==> #[trigger] out@[k] == unhex(b@)[k],
        decreases 16 - i,
    {
        let hi = match value_of(b[2 * i]) {
            Some(v) => v,
            None => {
                assert(hex_value(b@[2 * i]) is None);
                return None;
            },
        };
        let lo = match value_of(b[2 * i + 1]) {
            Some(v) => v,
            None => {
                assert(hex_value(b@[2 * i + 1]) is None);
                return None;
            },
        };
        out[i] = 16 * hi + lo;
        i += 1;
    }
    assert(out@ =~= unhex(b@));
    Some(out)
}

/// Whether two ids are the same.
pub fn same_id(a: &DeviceId, b: &DeviceId) -> (r: bool)
    ensures
        r == (a@ == b@),
        r == (*a == *b),
{
    let mut i: usize = 0;
    while i < 16
        invariant
            i <= 16,
            forall|k: int| 0 <= k < i ==> #[trigger] a@[k] == b@[k],
        decreases 16 - i,
    {
        if a[i] != b[i] {
            assert(a@[i as int] != b@[i as int]);
            return false;
        }
        i += 1;
    }
    assert(a@ =~= b@);
    assert forall|k: int| 0 <= k < 16 implies a[k] == b[k] by {
        assert(a@[k] == b@[k]);
    }
    assert(*a =~= *b);
    true
}

/// Reading back what was written gives the id again: every id survives the trip
/// through text.
pub proof fn hex_round_trip(id: DeviceId)
    ensures
        vstd::utf8::encode_utf8(hex_of(id@)).len() == 32,
        all_hex(vstd::utf8::encode_utf8(hex_of(id@))),
        unhex(vstd::utf8::encode_utf8(hex_of(id@))) == id@,
{
    let text = hex_of(id@);
    assert forall|i: int| 0 <= i < text.len() implies (#[trigger] text[i] as u32) < 128 by {}
    assert(vstd::utf8::is_ascii_chars(text));
    vstd::utf8::is_ascii_chars_encode_utf8(text);
    let bytes = vstd::utf8::encode_utf8(text);
    assert forall|i: int| 0 <= i < 32 implies hex_value(#[trigger] bytes[i]) == Some(
        if i % 2 == 0 {
            id@[i / 2] as int / 16
        } else {
            id@[i / 2] as int % 16
        },
    ) by {
        assert(bytes[i] == text[i] as u8);
    }
    assert(unhex(bytes) =~= id@) by {
        assert forall|i: int| 0 <= i < 16 implies unhex(bytes)[i] == id@[i] by {
            assert(hex_value(bytes[2 * i]) == Some(id@[i] as int / 16));
            assert(hex_value(bytes[2 * i + 1]) == Some(id@[i] as int % 16));
        }
    }
}

/// Two ids that read the same in hexadecimal are the same id, so the text can
/// stand for the id as a key.
pub proof fn hex_injective(a: DeviceId, b: DeviceId)
    requires
        hex_of(a@) == hex_of(b@),
    ensures
        a@ == b@,
{
    hex_round_trip(a);
    hex_round_trip(b);
}

/// One physical monitor, in the owning device's own virtual-desktop pixels.
#[derive(Debug)]
pub struct Display {
    pub id: u32,
    pub name: String,
    pub x: i32,
    pub y: i32,
    pub width: u32,
    pub height: u32,
    /// The scale factor, as the bits of an IEEE-754 single. Nothing here does
    /// arithmetic on it.
    pub scale_bits: u32,
    pub primary: bool,
}

impl Clone for Display {
    fn clone(&self) -> (r: Self)
        ensures
            r == *self,
    {
        Display {
            id: self.id,
            name: self.name.clone(),
            x: self.x,
            y: self.y,
            width: self.width,
            height: self.height,
            scale_bits: self.scale_bits,
            primary: self.primary,
        }
    }
}

/// The bits of a single without its sign.
pub open spec fn magnitude(bits: u32) -> int {
    if bits >= 0x8000_0000 {
        bits - 0x8000_0000
    } else {
        bits as int
    }
}

/// IEEE-754 equality of two singles given by their bits: NaN equals nothing,
/// and the two zeros are equal.
pub open spec fn same_scale(a: u32, b: u32) -> bool {
    &&& magnitude(a) <= 0x7F80_0000
    &&& magnitude(b) <= 0x7F80_0000
    &&& a == b || (magnitude(a) == 0 && magnitude(b) == 0)
}

/// Equality of two monitors, field by field.
pub open spec fn same_display(a: Display, b: Display) -> bool {
    &&& a.id == b.id
    &&& a.name@ == b.name@
    &&& a.x == b.x
    &&& a.y == b.y
    &&& a.width == b.width
    &&& a.height == b.height
    &&& same_scale(a.scale_bits, b.scale_bits)
    &&& a.primary == b.primary
}

/// Equality of two lists of monitors.
pub open spec fn same_displays(a: Seq<Display>, b: Seq<Display>) -> bool {
    &&& a.len() == b.len()
    &&& forall|i: int| 0 <= i < a.len() ==> same_display(#[trigger] a[i], b[i])
}

fn scales_match(a: u32, b: u32) -> (r: bool)
    ensures
        r == same_scale(a, b),
{
    let m: u32 = if a >= 0x8000_0000 {
        a - 0x8000_0000
    } else {
        a
    };
    let n: u32 = if b >= 0x8000_0000 {
        b - 0x8000_0000
    } else {
        b
    };
    m <= 0x7F80_0000 && n <= 0x7F80_0000 && (a == b || (m == 0 && n == 0))
}

/// Whether two lists of monitors are equal. A list with a scale that is not a
/// number is never equal to anything, itself included.
pub fn displays_match(a: &Vec<Display>, b: &Vec<Display>) -> (r: bool)
    ensures
        r == same_displays(a@, b@),
{
    if a.len() != b.len() {
        return false;
    }
    let mut i: usize = 0;
    while i < a.len()
        invariant
            i <= a@.len(),
            a@.len() == b@.len(),
            forall|k: int| 0 <= k < i ==> same_display(#[trigger] a@[k], b@[k]),
        decreases a@.len() - i,
    {
        let p = &a[i];
        let q = &b[i];
        if !(p.id == q.id && p.name == q.name && p.x == q.x && p.y == q.y && p.width == q.width
            && p.height == q.height && scales_match(p.scale_bits, q.scale_bits) && p.primary
            == q.primary) {
            assert(!same_display(a@[i as int], b@[i as int]));
            return false;
        }
        i += 1;
    }
    true
}

/// A copy of a list of monitors.
pub fn copy_displays(displays: &Vec<Display>) -> (r: Vec<Display>)
    ensures
        r@ == displays@,
{
    let r = displays.clone();
    assert forall|i: int| 0 <= i < r@.len() implies r@[i] == displays@[i] by {
        assert(cloned::<Display>(displays@[i], r@[i]));
    }
    assert(r@ =~= displays@);
    r
}

/// Identity a peer announces once the secure channel is up.
#[derive(Debug)]
pub struct DeviceInfo {
    pub id: DeviceId,
    pub name: String,
    pub os: String,
    pub displays: Vec<Display>,
}

/// Mouse buttons, kept small and platform neutral.
#[derive(Clone, Copy, Debug, PartialEq, Eq, Structural)]
pub enum Button {
    Left,
    Right,
    Middle,
    Back,
    Forward,
}

/// A single piece of input to replay on the client.
///
/// Coordinates are already translated into the *receiving* device's virtual
/// desktop pixels: the host owns all layout maths so clients stay dumb and fast.
#[derive(Debug)]
pub enum InputEvent {
    /// Absolute pointer position in the client's own desktop coordinates.
    MoveAbs { x: i32, y: i32 },
    Button { button: Button, down: bool },
    /// Wheel deltas in 1/120 of a notch, matching what Windows reports, so
    /// high-resolution wheels keep their precision end to end.
    Wheel { dx: i16, dy: i16 },
    /// `scan` is the physical key (preferred, layout independent); `vk` is the
    /// Windows virtual-key code used as a fallback and for hotkey logic.
    Key { vk: u16, scan: u16, ext: bool, down: bool },
    /// Type literal text (used for characters no scancode can express).
    Text(String),
    /// Release every key/button we might have left held down.
    ReleaseAll,
}

/// Clipboard payloads. Text is the common case; images are opt-in per settings.
#[derive(Debug)]
pub enum Clip {
    Text(String),
    Image {
        width: u32,
        height: u32,
        /// Raw RGBA8, row-major, no padding.
        rgba: Vec<u8>,
    },
}

/// Host to client.
#[derive(Debug)]
pub enum HostMsg {
    Welcome {
        host: DeviceInfo,
        /// Long-term key to reuse so the pairing code is only ever typed once.
        psk: Option<[u8; 32]>,
        clipboard_sync: bool,
    },
    /// Control just moved onto this client; warp its pointer here first.
    Enter { x: i32, y: i32 },
    /// Control left this client.
    Leave,
    Input(InputEvent),
    Clipboard(Clip),
    Ping { stamp: u64 },
    Bye { reason: String },
}

/// Client to host.
#[derive(Debug)]
pub enum ClientMsg {
    Hello { device: DeviceInfo },
    DisplaysChanged { displays: Vec<Display> },
    Clipboard(Clip),
    Pong { stamp: u64 },
    Bye { reason: String },
}

/// UDP discovery beacon. Deliberately contains nothing secret: it is broadcast
/// in the clear so clients can list hosts before any pairing happens.
#[derive(Debug)]
pub enum Beacon {
    /// Sent by a host in reply to a `Query`.
    Announce {
        protocol: u8,
        id: DeviceId,
        name: String,
        os: String,
        port: u16,
        /// True while the host is willing to pair with a device it has never
        /// seen. A client that already holds a stored key ignores this.
        needs_code: bool,
    },
    /// Sent by a client that wants hosts to answer immediately.
    Query { protocol: u8 },
}

} // verus!
