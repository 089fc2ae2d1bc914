//! What clipboard sharing promises, said of pixels and of payloads.

use vstd::prelude::*;

use crate::clipboard;
use crate::clipboard::{Clipboard, Fingerprint, MAX_IMAGE_BYTES};
use crate::protocol::Clip;

verus! {

/// One channel of one pixel of an image that is `width` pixels wide: rows from the
/// top, pixels from the left, four channels each.
pub open spec fn channel(rgba: Seq<u8>, width: int, x: int, y: int, c: int) -> int {
    rgba[4 * (y * width + x) + c] as int
}

/// The sum of one channel over the two by two pixels that one pixel of the
/// half-size image stands for.
pub open spec fn block_sum(rgba: Seq<u8>, width: int, x: int, y: int, c: int) -> int {
    channel(rgba, width, 2 * x, 2 * y, c) + channel(rgba, width, 2 * x + 1, 2 * y, c) + channel(
        rgba,
        width,
        2 * x,
        2 * y + 1,
        c,
    ) + channel(rgba, width, 2 * x + 1, 2 * y + 1, c)
}

/// An image is another at half the size: every channel of every pixel is the mean
/// of the four pixels it stands for, rounded to the nearest.
pub open spec fn is_half(width: int, height: int, rgba: Seq<u8>, smaller: Seq<u8>) -> bool {
    &&& smaller.len() == 4 * ((width / 2) * (height / 2))
    &&& forall|x: int, y: int, c: int|
        #![trigger channel(smaller, width / 2, x, y, c)]
        0 <= x < width / 2 && 0 <= y < height / 2 && 0 <= c < 4 ==> {
            let sum = block_sum(rgba, width, x, y, c);
            let mean = channel(smaller, width / 2, x, y, c);
            4 * mean <= sum + 2 < 4 * mean + 4
        }
}

proof fn place_of(w: int, h: int, x: int, y: int, c: int)
    requires
        0 <= x < w,
        0 <= y < h,
        0 <= c < 4,
    ensures
        ({
            let i = 4 * (y * w + x) + c;
            &&& 0 <= i < 4 * (w * h)
            &&& i % 4 == c
            &&& i / 4 == y * w + x
            &&& i / 4 % w == x
            &&& i / 4 / w == y
        }),
{
    let k = y * w + x;
    assert(0 <= y * w) by (nonlinear_arith)
        requires
            0 <= y,
            0 < w,
    ;
    assert(k < w * h) by (nonlinear_arith)
        requires
            k == y * w + x,
            0 <= x < w,
            0 <= y < h,
    ;
    vstd::arithmetic::div_mod::lemma_fundamental_div_mod_converse(k, w, y, x);
}

proof fn pixel_at(w: int, h: int, i: int)
    requires
        0 < w,
        0 < h,
        0 <= i < 4 * (w * h),
    ensures
        ({
            let x = i / 4 % w;
            let y = i / 4 / w;
            &&& 0 <= x < w
            &&& 0 <= y < h
            &&& 0 <= i % 4 < 4
            &&& i == 4 * (y * w + x) + i % 4
        }),
{
    let k = i / 4;
    let y = k / w;
    let x = k % w;
    vstd::arithmetic::div_mod::lemma_fundamental_div_mod(k, w);
    assert(k == y * w + x) by (nonlinear_arith)
        requires
            k == w * y + x,
    ;
    assert(0 <= x < w) by (nonlinear_arith)
        requires
            x == k % w,
            0 < w,
    ;
    assert(0 <= y) by (nonlinear_arith)
        requires
            y == k / w,
            0 <= k,
            0 < w,
    ;
    assert(y < h) by (nonlinear_arith)
        requires
            k == y * w + x,
            0 <= x,
            k < w * h,
            0 < w,
    ;
}

/// Halving averages blocks of two by two pixels.
pub proof fn halving_averages_blocks(width: int, height: int, rgba: Seq<u8>)
    requires
        width > 1,
        height > 1,
    ensures
        is_half(width, height, rgba, clipboard::halved(width, height, rgba)),
{
    let w = width / 2;
    let h = height / 2;
    let smaller = clipboard::halved(width, height, rgba);
    assert(w * h >= 0) by (nonlinear_arith)
        requires
            w >= 0,
            h >= 0,
    ;
    assert forall|x: int, y: int, c: int|
        #![trigger channel(smaller, width / 2, x, y, c)]
        0 <= x < width / 2 && 0 <= y < height / 2 && 0 <= c < 4 implies {
        let sum = block_sum(rgba, width, x, y, c);
        let mean = channel(smaller, width / 2, x, y, c);
        4 * mean <= sum + 2 < 4 * mean + 4
    } by {
        place_of(w, h, x, y, c);
        let i = 4 * (y * w + x) + c;
        assert(smaller[i] == clipboard::averaged(rgba, width, x, y, c));
        assert(clipboard::sample(rgba, width, 2 * x, 2 * y, c) == channel(
            rgba,
            width,
            2 * x,
            2 * y,
            c,
        ));
    }
}

/// There is only one image at half the size.
proof fn half_is_unique(width: int, height: int, rgba: Seq<u8>, a: Seq<u8>, b: Seq<u8>)
    requires
        width > 1,
        height > 1,
        is_half(width, height, rgba, a),
        is_half(width, height, rgba, b),
    ensures
        a == b,
{
    let w = width / 2;
    let h = height / 2;
    assert forall|i: int| 0 <= i < a.len() implies a[i] == b[i] by {
        pixel_at(w, h, i);
        let x = i / 4 % w;
        let y = i / 4 / w;
        let c = i % 4;
        assert(channel(a, width / 2, x, y, c) == a[i]);
        assert(channel(b, width / 2, x, y, c) == b[i]);
    }
    assert(a =~= b);
}

/// A block of one colour keeps it.
pub proof fn flat_blocks_keep_their_colour(
    width: int,
    height: int,
    rgba: Seq<u8>,
    x: int,
    y: int,
    c: int,
    value: int,
)
    requires
        width > 1,
        height > 1,
        0 <= x < width / 2,
        0 <= y < height / 2,
        0 <= c < 4,
        channel(rgba, width, 2 * x, 2 * y, c) == value,
        channel(rgba, width, 2 * x + 1, 2 * y, c) == value,
        channel(rgba, width, 2 * x, 2 * y + 1, c) == value,
        channel(rgba, width, 2 * x + 1, 2 * y + 1, c) == value,
    ensures
        channel(clipboard::halved(width, height, rgba), width / 2, x, y, c) == value,
{
    halving_averages_blocks(width, height, rgba);
    let smaller = clipboard::halved(width, height, rgba);
    assert(block_sum(rgba, width, x, y, c) == 4 * value);
    assert(4 * channel(smaller, width / 2, x, y, c) <= 4 * value + 2);
}

/// A strip of pixels is another at half the length: every channel of every pixel
/// is the mean of the two pixels it stands for, rounded to the nearest.
pub open spec fn is_half_strip(pixels: int, rgba: Seq<u8>, smaller: Seq<u8>) -> bool {
    &&& smaller.len() == 4 * (pixels / 2)
    &&& forall|i: int, c: int|
        #![trigger smaller[4 * i + c]]
        0 <= i < pixels / 2 && 0 <= c < 4 ==> {
            let sum = rgba[4 * (2 * i) + c] + rgba[4 * (2 * i + 1) + c];
            2 * smaller[4 * i + c] <= sum + 1 < 2 * smaller[4 * i + c] + 2
        }
}

/// Halving a strip averages its pixels in pairs.
pub proof fn halving_averages_pairs(pixels: int, rgba: Seq<u8>)
    requires
        pixels > 1,
    ensures
        is_half_strip(pixels, rgba, clipboard::strip_halved(pixels, rgba)),
{
    let smaller = clipboard::strip_halved(pixels, rgba);
    assert forall|i: int, c: int|
        #![trigger smaller[4 * i + c]]
        0 <= i < pixels / 2 && 0 <= c < 4 implies {
        let sum = rgba[4 * (2 * i) + c] + rgba[4 * (2 * i + 1) + c];
        2 * smaller[4 * i + c] <= sum + 1 < 2 * smaller[4 * i + c] + 2
    } by {
        assert((4 * i + c) / 4 == i && (4 * i + c) % 4 == c);
        assert(smaller[4 * i + c] == clipboard::strip_averaged(rgba, i, c));
        assert(4 * (2 * i) + c == 8 * i + c && 4 * (2 * i + 1) + c == 8 * i + 4 + c);
    }
}

proof fn half_strip_is_unique(pixels: int, rgba: Seq<u8>, a: Seq<u8>, b: Seq<u8>)
    requires
        pixels > 1,
        is_half_strip(pixels, rgba, a),
        is_half_strip(pixels, rgba, b),
    ensures
        a == b,
{
    assert forall|k: int| 0 <= k < a.len() implies a[k] == b[k] by {
        let i = k / 4;
        let c = k % 4;
        assert(k == 4 * i + c);
        assert(a[4 * i + c] == a[k]);
        assert(b[4 * i + c] == b[k]);
    }
    assert(a =~= b);
}

/// An image that is too large is shared as it would be at half the size, in both
/// dimensions; and so on until it is not too large.
pub proof fn large_images_are_halved(width: int, height: int, rgba: Seq<u8>, smaller: Seq<u8>)
    requires
        width > 1,
        height > 1,
        rgba.len() > MAX_IMAGE_BYTES,
        is_half(width, height, rgba, smaller),
    ensures
        clipboard::shared_image(width, height, rgba) == clipboard::shared_image(
            width / 2,
            height / 2,
            smaller,
        ),
{
    halving_averages_blocks(width, height, rgba);
    half_is_unique(width, height, rgba, smaller, clipboard::halved(width, height, rgba));
}

/// The same of an image that is one pixel across, along its length.
pub proof fn large_strips_are_halved(pixels: int, rgba: Seq<u8>, smaller: Seq<u8>)
    requires
        pixels > 1,
        rgba.len() >= 8 * (pixels / 2),
        rgba.len() > MAX_IMAGE_BYTES,
        is_half_strip(pixels, rgba, smaller),
    ensures
        clipboard::shared_image(pixels, 1, rgba) == clipboard::shared_image(pixels / 2, 1, smaller),
        clipboard::shared_image(1, pixels, rgba) == clipboard::shared_image(1, pixels / 2, smaller),
{
    halving_averages_pairs(pixels, rgba);
    half_strip_is_unique(pixels, rgba, smaller, clipboard::strip_halved(pixels, rgba));
}

/// An image of no pixels is not shared, whatever bytes come with it; and nothing
/// is shared that is too large.
pub proof fn only_fitting_images_are_shared(width: int, height: int, rgba: Seq<u8>)
    requires
        width >= 0,
        height >= 0,
    ensures
        width == 0 || height == 0 ==> clipboard::shared_image(width, height, rgba) is None,
        clipboard::shared_image(width, height, rgba) matches Some(image) ==> {
            &&& image.2.len() <= 25165824
            &&& 1 <= image.0 <= width
            &&& 1 <= image.1 <= height
        },
    decreases width + height,
{
    if rgba.len() > MAX_IMAGE_BYTES && clipboard::can_shrink(width, height, rgba.len() as int) {
        only_fitting_images_are_shared(
            clipboard::half_side(width),
            clipboard::half_side(height),
            clipboard::shrunk(width, height, rgba),
        );
    }
}

/// An image whose bytes are those of its pixels can always be halved.
pub proof fn whole_images_can_be_halved(width: int, height: int)
    requires
        width >= 0,
        height >= 0,
    ensures
        clipboard::covers_blocks(width, height, 4 * (width * height)),
{
    let w = width / 2;
    let h = height / 2;
    assert((2 * h - 1) * width <= (height - 1) * width) by (nonlinear_arith)
        requires
            2 * h <= height,
            width >= 0,
    ;
    assert((height - 1) * width == width * height - width) by (nonlinear_arith);
}

/// Payloads that differ stand for different bytes, so only a collision of the hash
/// could take one for the other.
pub proof fn payloads_are_told_apart(a: Clip, b: Clip)
    ensures
        clipboard::clip_bytes(a) == clipboard::clip_bytes(b) <==> match (a, b) {
            (Clip::Text(x), Clip::Text(y)) => x@ == y@,
            (
                Clip::Image { width: w, height: h, rgba: x },
                Clip::Image { width: v, height: g, rgba: y },
            ) => w == v && h == g && x@ == y@,
            _ => false,
        },
{
    let p = clipboard::clip_bytes(a);
    let q = clipboard::clip_bytes(b);
    match (a, b) {
        (Clip::Text(x), Clip::Text(y)) => {
            let u = vstd::utf8::encode_utf8(x@);
            let v = vstd::utf8::encode_utf8(y@);
            assert(p.subrange(1, p.len() as int) =~= u);
            assert(q.subrange(1, q.len() as int) =~= v);
            vstd::utf8::encode_utf8_decode_utf8(x@);
            vstd::utf8::encode_utf8_decode_utf8(y@);
        },
        (
            Clip::Image { width: w, height: h, rgba: x },
            Clip::Image { width: v, height: g, rgba: y },
        ) => {
            vstd::bytes::lemma_auto_spec_u32_to_from_le_bytes();
            let one = vstd::bytes::spec_u32_to_le_bytes(w);
            let two = vstd::bytes::spec_u32_to_le_bytes(h);
            let three = vstd::bytes::spec_u32_to_le_bytes(v);
            let four = vstd::bytes::spec_u32_to_le_bytes(g);
            assert(one.len() == 4 && two.len() == 4 && three.len() == 4 && four.len() == 4);
            assert(p.subrange(1, 5) =~= one);
            assert(p.subrange(5, 9) =~= two);
            assert(p.subrange(9, p.len() as int) =~= x@);
            assert(q.subrange(1, 5) =~= three);
            assert(q.subrange(5, 9) =~= four);
            assert(q.subrange(9, q.len() as int) =~= y@);
            if p == q {
                assert(vstd::bytes::spec_u32_from_le_bytes(one) == w);
                assert(vstd::bytes::spec_u32_from_le_bytes(three) == v);
                assert(vstd::bytes::spec_u32_from_le_bytes(two) == h);
                assert(vstd::bytes::spec_u32_from_le_bytes(four) == g);
            }
        },
        _ => {
            assert(p[0] != q[0]);
        },
    }
}

/// A payload is news exactly if its hash is not the one last seen; before anything
/// was seen, everything is.
pub proof fn news_is_what_was_not_seen_last(board: Clipboard, clip: Clip)
    ensures
        board.last is Nothing ==> board.is_news(clip),
        board.last matches Fingerprint::Hash(h) ==> (board.is_news(clip) <==> h@
            != clipboard::blake3_hash(clipboard::clip_bytes(clip))),
{
}

/// Once a payload has been seen, another is news to the same board unless the hash
/// of the two is the same.
pub proof fn a_change_is_news(board: Clipboard, seen: Clip, other: Clip)
    requires
        !board.is_news(seen),
        clipboard::blake3_hash(clipboard::clip_bytes(seen)) != clipboard::blake3_hash(
            clipboard::clip_bytes(other),
        ),
    ensures
        board.is_news(other),
{
}

/// Fingerprints are the same if they hold the same.
pub proof fn prints_are_compared_whole(a: [u8; 32], b: [u8; 32])
    ensures
        clipboard::same_print(Fingerprint::Hash(a), Fingerprint::Hash(b)) <==> a@ == b@,
        clipboard::same_print(Fingerprint::Nothing, Fingerprint::Nothing),
        !clipboard::same_print(Fingerprint::Hash(a), Fingerprint::Nothing),
        !clipboard::same_print(Fingerprint::Nothing, Fingerprint::Hash(a)),
{
}

/// A strip that is too large and lacks the bytes of the pixels that would be averaged
/// is not shared.
pub proof fn strips_without_their_bytes_are_not_shared(pixels: int, rgba: Seq<u8>)
    requires
        pixels >= 1,
        rgba.len() > MAX_IMAGE_BYTES,
        8 * (pixels / 2) > rgba.len() || pixels == 1,
    ensures
        clipboard::shared_image(pixels, 1, rgba) is None,
        clipboard::shared_image(1, pixels, rgba) is None,
{
}

/// An image whose bytes are those of its pixels can always be shared, and so can any
/// that is small enough.
pub proof fn whole_images_can_be_shared(image: (u32, u32, Vec<u8>))
    ensures
        image.2@.len() == 4 * (image.0 * image.1) ==> clipboard::can_fit(image),
        image.2@.len() <= 25165824 ==> clipboard::can_fit(image),
{
    whole_images_can_be_halved(image.0 as int, image.1 as int);
}

} // verus!
