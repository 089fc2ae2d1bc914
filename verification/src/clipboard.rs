//! Clipboard sharing.
//!
//! There is no clipboard-change notification worth having across three
//! operating systems, so the program polls. A hash of the content is compared
//! instead of the content itself, which keeps the common "nothing changed" case
//! down to one clipboard read and one 32-byte compare.
//!
//! The loop-suppression matters more than it looks: writing a received clip
//! into the local clipboard would otherwise be seen as a local change on the
//! next tick and echoed straight back.

use vstd::prelude::*;
use vstd::string::StringSliceAdditionalSpecFns;

use crate::protocol::{Clip, MAX_FRAME};
use crate::text;

pub mod laws;

verus! {

/// Images larger than this are downscaled to ensure they fit within protocol
/// frame limits while never being dropped.
pub const MAX_IMAGE_BYTES: usize = 25165824;

/// One byte of an image that is `width` pixels wide.
pub open spec fn sample(rgba: Seq<u8>, width: int, x: int, y: int, channel: int) -> int {
    rgba[(y * width + x) * 4 + channel] as int
}

/// One byte of the half-size image: the average of the two by two pixels it
/// stands for, rounded to the nearest.
pub open spec fn averaged(rgba: Seq<u8>, width: int, x: int, y: int, channel: int) -> u8 {
    ((sample(rgba, width, 2 * x, 2 * y, channel) + sample(rgba, width, 2 * x + 1, 2 * y, channel)
        + sample(rgba, width, 2 * x, 2 * y + 1, channel) + sample(
        rgba,
        width,
        2 * x + 1,
        2 * y + 1,
        channel,
    ) + 2) / 4) as u8
}

/// The pixels of the half-size image, row by row, four bytes each.
pub open spec fn halved(width: int, height: int, rgba: Seq<u8>) -> Seq<u8> {
    let w = width / 2;
    let h = height / 2;
    Seq::new(
        (w * h * 4) as nat,
        |i: int| averaged(rgba, width, i / 4 % w, i / 4 / w, i % 4),
    )
}

/// There are enough bytes for every pixel that the half-size image is made of.
pub open spec fn covers_blocks(width: int, height: int, len: int) -> bool {
    let w = width / 2;
    let h = height / 2;
    w > 0 && h > 0 ==> ((2 * h - 1) * width + 2 * w) * 4 <= len
}

/// Whether an image has enough bytes to be halved.
pub fn has_blocks(width: u32, height: u32, len: usize) -> (r: bool)
    ensures
        r == covers_blocks(width as int, height as int, len as int),
{
    let w: u128 = width as u128 / 2;
    let h: u128 = height as u128 / 2;
    if w == 0 || h == 0 {
        return true;
    }
    let rows: u128 = 2 * h - 1;
    assert(0 <= rows * width <= 0x1_0000_0000 * 0x1_0000_0000) by (nonlinear_arith)
        requires
            0 <= rows <= 0x1_0000_0000,
            0 <= width <= 0x1_0000_0000,
    ;
    (rows * width as u128 + 2 * w) * 4 <= len as u128
}

/// A flat area keeps its colour: where the four pixels agree, so does their
/// average; and an average never leaves the range of what it averages.
pub proof fn average_stays_in_range(
    rgba: Seq<u8>,
    width: int,
    x: int,
    y: int,
    channel: int,
    lo: int,
    hi: int,
)
    requires
        lo <= sample(rgba, width, 2 * x, 2 * y, channel) <= hi,
        lo <= sample(rgba, width, 2 * x + 1, 2 * y, channel) <= hi,
        lo <= sample(rgba, width, 2 * x, 2 * y + 1, channel) <= hi,
        lo <= sample(rgba, width, 2 * x + 1, 2 * y + 1, channel) <= hi,
    ensures
        lo <= averaged(rgba, width, x, y, channel) <= hi,
{
}

proof fn block_in_bounds(width: int, height: int, x: int, y: int)
    requires
        0 <= x < width / 2,
        0 <= y < height / 2,
        width >= 0,
    ensures
        0 <= 2 * y * width,
        (2 * y + 1) * width == 2 * y * width + width,
        ((2 * y + 1) * width + 2 * x + 1) * 4 + 3 < ((2 * (height / 2) - 1) * width + 2 * (width
            / 2)) * 4,
{
    let h = height / 2;
    assert(0 <= 2 * y * width) by (nonlinear_arith)
        requires
            0 <= y,
            0 <= width,
    ;
    assert((2 * y + 1) * width == 2 * y * width + width) by (nonlinear_arith);
    assert((2 * y + 1) * width <= (2 * h - 1) * width) by (nonlinear_arith)
        requires
            y < h,
            0 <= width,
    ;
}

/// Rounds the average of four bytes to the nearest.
fn mean(a: u8, b: u8, c: u8, d: u8) -> (r: u8)
    ensures
        r == (a + b + c + d + 2) / 4,
{
    ((a as u32 + b as u32 + c as u32 + d as u32 + 2) / 4) as u8
}

/// Downsamples an RGBA image by a factor of 2 in both dimensions using box
/// averaging. This allows Retina and 4K screenshots (~25MB - 60MB raw RGBA) to
/// safely fit within the frame limit without sacrificing visual clarity or being
/// dropped. An image with a dimension that cannot be halved is left as it is.
pub fn downscale_2x(width: u32, height: u32, rgba: &[u8]) -> (r: (u32, u32, Vec<u8>))
    requires
        covers_blocks(width as int, height as int, rgba@.len() as int),
    ensures
        if width / 2 == 0 || height / 2 == 0 {
            r.0 == width && r.1 == height && r.2@ == rgba@
        } else {
            r.0 == width / 2 && r.1 == height / 2 && r.2@ == halved(
                width as int,
                height as int,
                rgba@,
            )
        },
{
    let new_w: u32 = width / 2;
    let new_h: u32 = height / 2;
    if new_w == 0 || new_h == 0 {
        let mut same: Vec<u8> = Vec::new();
        same.extend_from_slice(rgba);
        assert(same@ =~= rgba@);
        return (width, height, same);
    }
    let ghost w = new_w as int;
    let ghost h = new_h as int;
    let ghost goal = halved(width as int, height as int, rgba@);
    assert(rgba@.len() == rgba.len());
    assert(w * h >= 0) by (nonlinear_arith)
        requires
            w > 0,
            h > 0,
    ;
    let mut out: Vec<u8> = Vec::new();
    let mut ny: u32 = 0;
    assert(0 * w == 0) by (nonlinear_arith);
    while ny < new_h
        invariant
            ny <= new_h,
            new_w == width / 2,
            new_h == height / 2,
            w == new_w,
            h == new_h,
            w > 0,
            h > 0,
            w * h >= 0,
            goal == halved(width as int, height as int, rgba@),
            covers_blocks(width as int, height as int, rgba@.len() as int),
            rgba@.len() <= usize::MAX,
            out@.len() == ny * w * 4,
            forall|i: int| 0 <= i < out@.len() ==> #[trigger] out@[i] == goal[i],
        decreases new_h - ny,
    {
        let mut nx: u32 = 0;
        while nx < new_w
            invariant
                nx <= new_w,
                ny < new_h,
                new_w == width / 2,
                new_h == height / 2,
                w == new_w,
                h == new_h,
                w > 0,
                h > 0,
                w * h >= 0,
                goal == halved(width as int, height as int, rgba@),
                covers_blocks(width as int, height as int, rgba@.len() as int),
                rgba@.len() <= usize::MAX,
                out@.len() == (ny * w + nx) * 4,
                forall|i: int| 0 <= i < out@.len() ==> #[trigger] out@[i] == goal[i],
            decreases new_w - nx,
        {
            let ghost k = ny * w + nx;
            proof {
                block_in_bounds(width as int, height as int, nx as int, ny as int);
                assert(k / w == ny && k % w == nx) by {
                    vstd::arithmetic::div_mod::lemma_fundamental_div_mod_converse(
                        k,
                        w,
                        ny as int,
                        nx as int,
                    );
                }
                assert(k < w * h) by (nonlinear_arith)
                    requires
                        k == ny * w + nx,
                        0 <= nx < w,
                        0 <= ny < h,
                ;
                assert(0 <= k) by (nonlinear_arith)
                    requires
                        k == ny * w + nx,
                        0 <= nx,
                        0 <= ny,
                        0 < w,
                ;
                assert((2 * ny) * width == 2 * ny * width);
            }
            let wide: usize = width as usize;
            let twice: usize = ny as usize + ny as usize;
            assert(twice * wide == 2 * ny * width) by (nonlinear_arith)
                requires
                    twice == 2 * ny,
                    wide == width,
            ;
            let p0: usize = (twice * wide + 2 * nx as usize) * 4;
            let p1: usize = p0 + 4;
            let p2: usize = (twice * wide + wide + 2 * nx as usize) * 4;
            let p3: usize = p2 + 4;
            let ghost before = out@;
            out.push(mean(rgba[p0], rgba[p1], rgba[p2], rgba[p3]));
            out.push(mean(rgba[p0 + 1], rgba[p1 + 1], rgba[p2 + 1], rgba[p3 + 1]));
            out.push(mean(rgba[p0 + 2], rgba[p1 + 2], rgba[p2 + 2], rgba[p3 + 2]));
            out.push(mean(rgba[p0 + 3], rgba[p1 + 3], rgba[p2 + 3], rgba[p3 + 3]));
            proof {
                assert((2 * ny + 1) * width == 2 * ny * width + width);
                assert forall|i: int| 0 <= i < out@.len() implies #[trigger] out@[i] == goal[i] by {
                    if i < before.len() {
                        assert(out@[i] == before[i]);
                    } else {
                        let c = i - 4 * k;
                        assert(0 <= c < 4);
                        assert(i / 4 == k && i % 4 == c);
                        assert(i < w * h * 4);
                        assert(goal[i] == averaged(rgba@, width as int, nx as int, ny as int, c));
                    }
                }
            }
            nx += 1;
        }
        assert((ny + 1) * w == ny * w + w) by (nonlinear_arith);
        ny += 1;
    }
    assert(new_h * w == w * h) by (nonlinear_arith)
        requires
            new_h == h,
    ;
    assert(out@ =~= goal);
    (new_w, new_h, out)
}

/// One byte of a strip that is one pixel across, at half its length: the average
/// of the two pixels it stands for, rounded to the nearest.
pub open spec fn strip_averaged(rgba: Seq<u8>, at: int, channel: int) -> u8 {
    ((rgba[8 * at + channel] + rgba[8 * at + 4 + channel] + 1) / 2) as u8
}

/// The pixels of a strip at half its length. A row and a column hold their pixels
/// in the same order, so it does not matter which of them the strip is.
pub open spec fn strip_halved(pixels: int, rgba: Seq<u8>) -> Seq<u8> {
    Seq::new((pixels / 2 * 4) as nat, |i: int| strip_averaged(rgba, i / 4, i % 4))
}

/// A flat strip keeps its colour, and an average never leaves the range of what
/// it averages.
pub proof fn strip_average_stays_in_range(
    rgba: Seq<u8>,
    at: int,
    channel: int,
    lo: int,
    hi: int,
)
    requires
        lo <= rgba[8 * at + channel] <= hi,
        lo <= rgba[8 * at + 4 + channel] <= hi,
    ensures
        lo <= strip_averaged(rgba, at, channel) <= hi,
{
}

/// Rounds the average of two bytes to the nearest.
fn mean_of_two(a: u8, b: u8) -> (r: u8)
    ensures
        r == (a + b + 1) / 2,
{
    ((a as u32 + b as u32 + 1) / 2) as u8
}

/// Downsamples a strip of RGBA pixels, one pixel across, by a factor of 2 along
/// its length.
pub fn downscale_strip(pixels: u32, rgba: &[u8]) -> (r: Vec<u8>)
    requires
        8 * (pixels / 2) <= rgba@.len(),
    ensures
        r@ == strip_halved(pixels as int, rgba@),
{
    let half: u32 = pixels / 2;
    let ghost goal = strip_halved(pixels as int, rgba@);
    assert(rgba@.len() == rgba.len());
    let mut out: Vec<u8> = Vec::new();
    let mut i: u32 = 0;
    while i < half
        invariant
            i <= half,
            half == pixels / 2,
            8 * half <= rgba@.len() <= usize::MAX,
            goal == strip_halved(pixels as int, rgba@),
            out@.len() == 4 * i,
            forall|k: int| 0 <= k < out@.len() ==> #[trigger] out@[k] == goal[k],
        decreases half - i,
    {
        let p: usize = i as usize * 8;
        let ghost before = out@;
        out.push(mean_of_two(rgba[p], rgba[p + 4]));
        out.push(mean_of_two(rgba[p + 1], rgba[p + 5]));
        out.push(mean_of_two(rgba[p + 2], rgba[p + 6]));
        out.push(mean_of_two(rgba[p + 3], rgba[p + 7]));
        assert forall|k: int| 0 <= k < out@.len() implies #[trigger] out@[k] == goal[k] by {
            if k < before.len() {
                assert(out@[k] == before[k]);
            } else {
                assert(k / 4 == i && k % 4 == k - 4 * i);
            }
        }
        i += 1;
    }
    assert(out@ =~= goal);
    out
}

/// A side after halving: one pixel stays one pixel.
pub open spec fn half_side(side: int) -> int {
    if side > 1 {
        side / 2
    } else {
        side
    }
}

/// An image can be made smaller: it has pixels, more than one of them, and where
/// it is one pixel across, the bytes of those that are averaged.
pub open spec fn can_shrink(width: int, height: int, len: int) -> bool {
    if width > 1 && height > 1 {
        true
    } else if width > 1 && height == 1 {
        8 * (width / 2) <= len
    } else if width == 1 && height > 1 {
        8 * (height / 2) <= len
    } else {
        false
    }
}

/// An image at half its size: in both dimensions, or along its length where it is
/// one pixel across.
pub open spec fn shrunk(width: int, height: int, rgba: Seq<u8>) -> Seq<u8> {
    if width > 1 && height > 1 {
        halved(width, height, rgba)
    } else if width > 1 {
        strip_halved(width, rgba)
    } else {
        strip_halved(height, rgba)
    }
}

/// An image halved as often as it takes to be small enough.
pub open spec fn fitted(width: int, height: int, rgba: Seq<u8>) -> (int, int, Seq<u8>)
    decreases width + height,
{
    if rgba.len() > MAX_IMAGE_BYTES && can_shrink(width, height, rgba.len() as int) {
        fitted(half_side(width), half_side(height), shrunk(width, height, rgba))
    } else {
        (width, height, rgba)
    }
}

/// What is shared of an image: it, made small enough. Only of one that has no
/// pixels, or whose bytes are not those of its pixels, there may be nothing.
pub open spec fn shared_image(width: int, height: int, rgba: Seq<u8>) -> Option<
    (int, int, Seq<u8>),
> {
    let fit = fitted(width, height, rgba);
    if fit.2.len() <= MAX_IMAGE_BYTES && fit.0 > 0 && fit.1 > 0 {
        Some(fit)
    } else {
        None
    }
}

proof fn halved_covers_blocks(width: int, height: int, rgba: Seq<u8>)
    requires
        width > 1,
        height > 1,
    ensures
        covers_blocks(
            width / 2,
            height / 2,
            halved(width, height, rgba).len() as int,
        ),
{
    let w = width / 2;
    let h = height / 2;
    let hw = w / 2;
    let hh = h / 2;
    assert(w * h >= 0) by (nonlinear_arith)
        requires
            w >= 0,
            h >= 0,
    ;
    assert((2 * hh - 1) * w <= (h - 1) * w) by (nonlinear_arith)
        requires
            2 * hh <= h,
            w >= 0,
    ;
    assert((h - 1) * w == w * h - w) by (nonlinear_arith);
}

/// Picks the image to share from a picture on the clipboard. Large images (e.g.
/// Retina screenshots) are halved until they fit safely within frame limits.
pub fn from_image(width: u32, height: u32, rgba: Vec<u8>) -> (r: Option<Clip>)
    requires
        rgba@.len() > MAX_IMAGE_BYTES ==> covers_blocks(
            width as int,
            height as int,
            rgba@.len() as int,
        ),
    ensures
        match r {
            Some(Clip::Image { width: w, height: h, rgba: bytes }) => shared_image(
                width as int,
                height as int,
                rgba@,
            ) == Some((w as int, h as int, bytes@)),
            Some(_) => false,
            None => shared_image(width as int, height as int, rgba@) is None,
        },
{
    let ghost goal = fitted(width as int, height as int, rgba@);
    let mut width = width;
    let mut height = height;
    let mut rgba = rgba;
    while rgba.len() > MAX_IMAGE_BYTES && shrinks(width, height, rgba.len())
        invariant
            fitted(width as int, height as int, rgba@) == goal,
            rgba@.len() > MAX_IMAGE_BYTES ==> covers_blocks(
                width as int,
                height as int,
                rgba@.len() as int,
            ),
        decreases width + height,
    {
        if width > 1 && height > 1 {
            proof {
                halved_covers_blocks(width as int, height as int, rgba@);
            }
            let (new_w, new_h, new_rgba) = downscale_2x(width, height, rgba.as_slice());
            width = new_w;
            height = new_h;
            rgba = new_rgba;
        } else if width > 1 {
            rgba = downscale_strip(width, rgba.as_slice());
            width = width / 2;
        } else {
            rgba = downscale_strip(height, rgba.as_slice());
            height = height / 2;
        }
    }
    if rgba.len() <= MAX_IMAGE_BYTES && width > 0 && height > 0 {
        Some(Clip::Image { width, height, rgba })
    } else {
        None
    }
}

fn shrinks(width: u32, height: u32, len: usize) -> (r: bool)
    ensures
        r == can_shrink(width as int, height as int, len as int),
{
    if width > 1 && height > 1 {
        true
    } else if width > 1 && height == 1 {
        8 * (width as u64 / 2) <= len as u64
    } else if width == 1 && height > 1 {
        8 * (height as u64 / 2) <= len as u64
    } else {
        false
    }
}

/// No image is dropped: one whose bytes are its pixels is shared, however large
/// and however thin it is, as an image whose bytes are its pixels and that fits
/// in a frame with a quarter of it to spare.
pub proof fn no_image_is_dropped(width: int, height: int, rgba: Seq<u8>)
    requires
        width >= 1,
        height >= 1,
        rgba.len() == 4 * width * height,
    ensures
        shared_image(width, height, rgba) matches Some(i) && i.2.len() == 4 * i.0 * i.1
            && i.2.len() <= MAX_IMAGE_BYTES && i.2.len() + MAX_FRAME / 4 <= MAX_FRAME,
    decreases width + height,
{
    if rgba.len() > MAX_IMAGE_BYTES {
        let w = half_side(width);
        let h = half_side(height);
        assert(width == 1 && height == 1 ==> 4 * width * height == 4) by (nonlinear_arith);
        assert(width == 1 ==> 4 * width * height == 4 * height) by (nonlinear_arith);
        assert(height == 1 ==> 4 * width * height == 4 * width) by (nonlinear_arith);
        assert(w * h * 4 == 4 * w * h && w * h >= 0) by (nonlinear_arith)
            requires
                w >= 0,
                h >= 0,
        ;
        assert(w == 1 ==> 4 * w * h == 4 * h) by (nonlinear_arith);
        assert(h == 1 ==> 4 * w * h == 4 * w) by (nonlinear_arith);
        no_image_is_dropped(w, h, shrunk(width, height, rgba));
    }
}

/// An image that is small enough is shared as it is.
pub proof fn small_images_are_unchanged(width: int, height: int, rgba: Seq<u8>)
    requires
        width >= 1,
        height >= 1,
        rgba.len() <= MAX_IMAGE_BYTES,
    ensures
        shared_image(width, height, rgba) == Some((width, height, rgba)),
{
}

/// Picks the text to share: any that is not empty.
pub fn from_text(text: String) -> (r: Option<Clip>)
    ensures
        r == if text@.len() > 0 {
            Some(Clip::Text(text))
        } else {
            None
        },
{
    if text::has_text(text.as_str()) {
        Some(Clip::Text(text))
    } else {
        None
    }
}

/// What is shared of a clipboard, from what could be read of it. Where images
/// are enabled one comes first: copying an image or a screenshot often places a
/// textual title or URL beside it, which must not shadow the image itself. Text
/// is taken when there is no image to share.
pub fn read(images: bool, image: Option<(u32, u32, Vec<u8>)>, text: Option<String>) -> (r: Option<
    Clip,
>)
    requires
        images && image is Some ==> can_fit(image->0),
    ensures
        ({
            let shared = match image {
                Some((width, height, rgba)) => if images {
                    shared_image(width as int, height as int, rgba@)
                } else {
                    None
                },
                None => None,
            };
            match r {
                Some(Clip::Image { width, height, rgba }) => shared == Some(
                    (width as int, height as int, rgba@),
                ),
                Some(Clip::Text(words)) => shared is None && text == Some(words) && words@.len()
                    > 0,
                None => shared is None && (text matches Some(words) ==> words@.len() == 0),
            }
        }),
{
    if images {
        if let Some((width, height, rgba)) = image {
            let clip = from_image(width, height, rgba);
            if clip.is_some() {
                return clip;
            }
        }
    }
    match text {
        Some(text) => from_text(text),
        None => None,
    }
}

/// An image that needs halving has enough bytes for it.
pub open spec fn can_fit(image: (u32, u32, Vec<u8>)) -> bool {
    image.2@.len() > MAX_IMAGE_BYTES ==> covers_blocks(
        image.0 as int,
        image.1 as int,
        image.2@.len() as int,
    )
}

/// Cheap identity for a clipboard payload.
#[derive(Clone, Copy, Debug)]
pub enum Fingerprint {
    Nothing,
    Hash([u8; 32]),
}

/// What BLAKE3 makes of a run of bytes.
pub uninterp spec fn blake3_hash(data: Seq<u8>) -> Seq<u8>;

/// `blake3::Hasher`, fed with three runs of bytes one after the other: a fixed
/// function of all the bytes in that order, named and not described further.
#[verifier::external_body]
fn hash_parts(a: &[u8], b: &[u8], c: &[u8]) -> (r: [u8; 32])
    ensures
        r@ == blake3_hash(a@ + b@ + c@),
{
    let mut hasher = blake3::Hasher::new();
    hasher.update(a);
    hasher.update(b);
    hasher.update(c);
    *hasher.finalize().as_bytes()
}

/// The bytes that stand for a payload: a letter for its kind, then all of it.
pub open spec fn clip_bytes(clip: Clip) -> Seq<u8> {
    match clip {
        Clip::Text(text) => seq![116u8] + vstd::utf8::encode_utf8(text@) + Seq::<u8>::empty(),
        Clip::Image { width, height, rgba } => seq![105u8] + (
        vstd::bytes::spec_u32_to_le_bytes(width) + vstd::bytes::spec_u32_to_le_bytes(height))
            + rgba@,
    }
}

/// Fingerprints by what they hold.
pub open spec fn same_print(a: Fingerprint, b: Fingerprint) -> bool {
    match (a, b) {
        (Fingerprint::Nothing, Fingerprint::Nothing) => true,
        (Fingerprint::Hash(x), Fingerprint::Hash(y)) => x@ == y@,
        _ => false,
    }
}

fn same_bytes(x: &[u8; 32], y: &[u8; 32]) -> (r: bool)
    ensures
        r == (x@ == y@),
{
    let mut i: usize = 0;
    while i < 32
        invariant
            i <= 32,
            forall|k: int| 0 <= k < i ==> #[trigger] x@[k] == y@[k],
        decreases 32 - i,
    {
        if x[i] != y[i] {
            assert(x@[i as int] != y@[i as int]);
            return false;
        }
        i += 1;
    }
    assert(x@ =~= y@);
    true
}

fn prints_match(a: &Fingerprint, b: &Fingerprint) -> (r: bool)
    ensures
        r == same_print(*a, *b),
{
    match (a, b) {
        (Fingerprint::Nothing, Fingerprint::Nothing) => true,
        (Fingerprint::Hash(x), Fingerprint::Hash(y)) => same_bytes(x, y),
        _ => false,
    }
}

pub fn fingerprint_of(clip: &Clip) -> (r: Fingerprint)
    ensures
        r matches Fingerprint::Hash(h) && h@ == blake3_hash(clip_bytes(*clip)),
{
    match clip {
        Clip::Text(text) => {
            let kind: [u8; 1] = [116];
            let rest: [u8; 0] = [];
            assert(kind@ =~= seq![116u8]);
            assert(rest@ =~= Seq::<u8>::empty());
            Fingerprint::Hash(
                hash_parts(kind.as_slice(), text.as_str().as_bytes(), rest.as_slice()),
            )
        },
        Clip::Image { width, height, rgba } => {
            let kind: [u8; 1] = [105];
            assert(kind@ =~= seq![105u8]);
            let mut size = vstd::bytes::u32_to_le_bytes(*width);
            let tail = vstd::bytes::u32_to_le_bytes(*height);
            size.extend_from_slice(tail.as_slice());
            assert(size@ =~= vstd::bytes::spec_u32_to_le_bytes(*width)
                + vstd::bytes::spec_u32_to_le_bytes(*height));
            Fingerprint::Hash(hash_parts(kind.as_slice(), size.as_slice(), rgba.as_slice()))
        },
    }
}

/// The polling side of clipboard sharing.
pub struct Clipboard {
    /// What was last written or announced.
    pub last: Fingerprint,
    /// Something from a peer was written in this tick.
    pub applied: bool,
}

impl Clipboard {
    /// A payload would be news: its fingerprint is not the last one.
    pub open spec fn is_news(&self, clip: Clip) -> bool {
        !(self.last matches Fingerprint::Hash(h) && h@ == blake3_hash(clip_bytes(clip)))
    }

    /// Starts watching, having seen nothing.
    pub fn start() -> (r: Self)
        ensures
            r.last is Nothing,
            !r.applied,
    {
        Clipboard { last: Fingerprint::Nothing, applied: false }
    }

    /// Begins a tick.
    pub fn begin(&mut self)
        ensures
            *final(self) == (Clipboard { applied: false, ..*old(self) }),
    {
        self.applied = false;
    }

    /// A peer's payload has been put into the local clipboard. Its fingerprint
    /// is what the next poll compares against, so the change is not echoed back
    /// to where it came from.
    pub fn apply(&mut self, clip: &Clip)
        ensures
            final(self).applied,
            final(self).last matches Fingerprint::Hash(h) && h@ == blake3_hash(clip_bytes(*clip)),
            !final(self).is_news(*clip),
    {
        self.last = fingerprint_of(clip);
        self.applied = true;
    }

    /// Whether to read the local clipboard in this tick. Some platforms take a
    /// moment to make a write visible; a tick is skipped rather than a stale
    /// value read.
    pub fn reads(&self) -> (r: bool)
        ensures
            r == !self.applied,
    {
        !self.applied
    }

    /// Takes in what was read, and gives what to announce: a payload that is not
    /// the last one seen.
    pub fn saw(&mut self, clip: Option<Clip>) -> (r: Option<Clip>)
        ensures
            final(self).applied == old(self).applied,
            match clip {
                Some(clip) => if old(self).is_news(clip) {
                    &&& r == Some(clip)
                    &&& !final(self).is_news(clip)
                } else {
                    &&& r is None
                    &&& final(self).last == old(self).last
                },
                None => r is None && final(self).last == old(self).last,
            },
    {
        match clip {
            Some(clip) => {
                let print = fingerprint_of(&clip);
                if prints_match(&print, &self.last) {
                    return None;
                }
                self.last = print;
                Some(clip)
            },
            None => None,
        }
    }
}

/// Payloads with the same content.
pub open spec fn same_clip(a: Clip, b: Clip) -> bool {
    match (a, b) {
        (Clip::Text(x), Clip::Text(y)) => x@ == y@,
        (
            Clip::Image { width: w, height: h, rgba: x },
            Clip::Image { width: v, height: g, rgba: y },
        ) => w == v && h == g && x@ == y@,
        _ => false,
    }
}

/// What a peer sent is not echoed: once it has been written here, reading the
/// same content back is not news.
pub proof fn no_echo(board: Clipboard, written: Clip, read: Clip)
    requires
        !board.is_news(written),
        same_clip(written, read),
    ensures
        !board.is_news(read),
{
}

} // verus!
