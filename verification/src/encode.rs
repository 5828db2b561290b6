//! The panel encoder: packs a quantized image into the two controllers'
//! byte layout.
//!
//! The physical panel is mounted 1200 x 1600, taller than wide, so the
//! landscape image is first rotated 270 degrees clockwise; then each row is
//! walked two pixels at a time and packed one byte per pair, high nibble
//! first. Bytes from the first half of a row belong to the left
//! controller, the rest to the right one.

use vstd::prelude::*;

use crate::frame::RgbImage;
use crate::palette::{Color, color_from_code, is_palette_code, lemma_color_of_code_round,
    lemma_color_of_rgb_round, map_color_to_byte, spec_color_of_code, spec_color_of_rgb};
use crate::quantize::is_quantized;

verus! {

/// The two per-controller byte buffers of one encoded photo.
pub struct ProccessedImage {
    /// Bytes for the left half-panel controller.
    pub left: Vec<u8>,
    /// Bytes for the right half-panel controller.
    pub right: Vec<u8>,
}

/// Two 4-bit color codes packed into one byte, first pixel in the high
/// nibble.
pub open spec fn spec_pack(c0: u8, c1: u8) -> int {
    16 * c0 + c1
}

/// The device code of a pixel's RGB triple.
pub open spec fn spec_code_of(rgb: (u8, u8, u8)) -> u8 {
    spec_color_of_rgb(rgb).spec_code()
}

/// The packed byte made of rotated-grid pixels (x, y) and (x+1, y): after
/// the 270-degree rotation, rotated pixel (x, y) is source pixel
/// (width-1-y, x).
pub open spec fn spec_pack_at(img: RgbImage, y: int, x: int) -> int {
    spec_pack(
        spec_code_of(img.pixel(img.width - 1 - y, x)),
        spec_code_of(img.pixel(img.width - 1 - y, x + 1)),
    )
}

/// `f` is exactly the panel encoding of `img`: both buffers hold one byte
/// per pixel pair of the rotated image, row-major, the left buffer the
/// first half of every rotated row and the right buffer the second half.
pub open spec fn is_encoding_of(f: ProccessedImage, img: RgbImage) -> bool {
    let rows = img.width as int;
    let half = img.height as int / 4;
    &&& f.left@.len() == rows * half
    &&& f.right@.len() == rows * half
    &&& forall|y: int, j: int|
        0 <= y < rows && 0 <= j < half ==> #[trigger] f.left@[y * half + j] == spec_pack_at(
            img, y, 2 * j,
        )
    &&& forall|y: int, j: int|
        0 <= y < rows && 0 <= j < half ==> #[trigger] f.right@[y * half + j] == spec_pack_at(
            img, y, 2 * j + img.height as int / 2,
        )
}

impl Clone for ProccessedImage {
    /// Clones both buffers byte for byte.
    fn clone(&self) -> (r: Self)
        ensures
            r.left@ == self.left@,
            r.right@ == self.right@,
    {
        ProccessedImage { left: clone_bytes(&self.left), right: clone_bytes(&self.right) }
    }
}

/// Copies a byte buffer.
fn clone_bytes(src: &Vec<u8>) -> (r: Vec<u8>)
    ensures
        r@ == src@,
{
    let mut r: Vec<u8> = Vec::new();
    let mut i: usize = 0;
    while i < src.len()
        invariant
            i <= src@.len(),
            r@ =~= src@.take(i as int),
        decreases src@.len() - i,
    {
        r.push(src[i]);
        i = i + 1;
    }
    proof {
        assert(r@ =~= src@);
    }
    r
}

impl ProccessedImage {
    /// Both buffers exist and are the same length.
    pub open spec fn wf(self) -> bool {
        self.left@.len() == self.right@.len()
    }

    /// Encodes a quantized landscape image into the two controllers' byte
    /// buffers. The buffers come out the same length, together half a byte
    /// per pixel.
    pub fn from(img: &RgbImage) -> (r: ProccessedImage)
        requires
            img.wf(),
            is_quantized(*img),
            img.height % 4 == 0,
        ensures
            is_encoding_of(r, *img),
            r.wf(),
            r.left@.len() == r.right@.len(),
            r.left@.len() + r.right@.len() == (img.width * img.height) / 2,
    {
        let rot = img.rotate270();
        let rows = rot.height;
        let half_px = rot.width / 2;
        let half = rot.width / 4;
        let ghost gimg = *img;
        proof {
            lemma_quarters(img.height as int);
        }

        let mut left: Vec<u8> = Vec::new();
        let mut right: Vec<u8> = Vec::new();
        let mut y: usize = 0;
        while y < rows
            invariant
                rot_setup(rot, gimg, rows as int, half_px as int, half as int),
                is_quantized(gimg),
                y <= rows,
                left@.len() == y * half,
                right@.len() == y * half,
                forall|b: int, j: int|
                    0 <= b < y && 0 <= j < half ==> #[trigger] left@[b * half + j] == spec_pack_at(
                        gimg, b, 2 * j,
                    ),
                forall|b: int, j: int|
                    0 <= b < y && 0 <= j < half ==> #[trigger] right@[b * half + j] == spec_pack_at(
                        gimg, b, 2 * j + half_px,
                    ),
            decreases rows - y,
        {
            let mut j: usize = 0;
            while j < half
                invariant
                    rot_setup(rot, gimg, rows as int, half_px as int, half as int),
                    is_quantized(gimg),
                    y < rows,
                    j <= half,
                    left@.len() == y * half + j,
                    forall|b: int, jj: int|
                        0 <= b < y && 0 <= jj < half ==> #[trigger] left@[b * half + jj]
                            == spec_pack_at(gimg, b, 2 * jj),
                    forall|jj: int|
                        0 <= jj < j ==> #[trigger] left@[y * half + jj] == spec_pack_at(
                            gimg, y as int, 2 * jj,
                        ),
                decreases half - j,
            {
                let byte = pack_pixels(&rot, 2 * j, y, Ghost(gimg));
                proof {
                    lemma_row_major_order(y as int, j as int, half as int);
                }
                left.push(byte);
                j = j + 1;
            }
            let mut j2: usize = 0;
            while j2 < half
                invariant
                    rot_setup(rot, gimg, rows as int, half_px as int, half as int),
                    is_quantized(gimg),
                    y < rows,
                    j2 <= half,
                    right@.len() == y * half + j2,
                    forall|b: int, jj: int|
                        0 <= b < y && 0 <= jj < half ==> #[trigger] right@[b * half + jj]
                            == spec_pack_at(gimg, b, 2 * jj + half_px),
                    forall|jj: int|
                        0 <= jj < j2 ==> #[trigger] right@[y * half + jj] == spec_pack_at(
                            gimg, y as int, 2 * jj + half_px,
                        ),
                decreases half - j2,
            {
                let byte = pack_pixels(&rot, 2 * j2 + half_px, y, Ghost(gimg));
                proof {
                    lemma_row_major_order(y as int, j2 as int, half as int);
                }
                right.push(byte);
                j2 = j2 + 1;
            }
            proof {
                lemma_mul_step(half as int, y as int);
            }
            y = y + 1;
        }
        proof {
            lemma_total_is_half_the_pixels(
                rows as int, half as int, gimg.width as int, gimg.height as int,
            );
        }
        ProccessedImage { left, right }
    }
}

/// The fixed relation between a source image and its rotated counterpart,
/// carried through the packing loops.
spec fn rot_setup(rot: RgbImage, img: RgbImage, rows: int, half_px: int, half: int) -> bool {
    &&& img.wf()
    &&& rot.wf()
    &&& img.height % 4 == 0
    &&& rot.width == img.height
    &&& rot.height == img.width
    &&& rows == rot.height
    &&& half_px == rot.width / 2
    &&& half == rot.width / 4
    &&& half_px == 2 * half
    &&& forall|xx: int, yy: int|
        0 <= xx < rot.width && 0 <= yy < rot.height ==> #[trigger] rot.pixel(xx, yy) == img.pixel(
            img.width - 1 - yy, xx,
        )
}

/// Packs rotated pixels (x, y) and (x+1, y) into one byte, high nibble
/// first.
fn pack_pixels(rot: &RgbImage, x: usize, y: usize, src: Ghost<RgbImage>) -> (byte: u8)
    requires
        rot.wf(),
        is_quantized(src@),
        x + 1 < rot.width,
        y < rot.height,
        rot.width == src@.height,
        rot.height == src@.width,
        src@.wf(),
        forall|xx: int, yy: int|
            0 <= xx < rot.width && 0 <= yy < rot.height ==> #[trigger] rot.pixel(xx, yy)
                == src@.pixel(src@.width - 1 - yy, xx),
    ensures
        byte == spec_pack_at(src@, y as int, x as int),
        byte == spec_pack(
            spec_code_of(src@.pixel(src@.width - 1 - y, x as int)),
            spec_code_of(src@.pixel(src@.width - 1 - y, x as int + 1)),
        ),
{
    let p0 = rot.get_pixel(x, y);
    let p1 = rot.get_pixel(x + 1, y);
    let c0 = map_color_to_byte(p0);
    let c1 = map_color_to_byte(p1);
    c0 * 16 + c1
}

/// A length divisible by four splits into two equal pixel halves of two
/// equal byte quarters.
proof fn lemma_quarters(h: int)
    requires
        h % 4 == 0,
        h >= 0,
    ensures
        h / 2 == 2 * (h / 4),
        h % 2 == 0,
{
    assert(h / 2 == 2 * (h / 4) && h % 2 == 0) by (nonlinear_arith)
        requires
            h % 4 == 0,
            h >= 0,
    ;
}

/// Cells of earlier rows come before cells of later rows.
proof fn lemma_row_major_order(y: int, j: int, half: int)
    requires
        0 <= j < half,
        0 <= y,
    ensures
        forall|b: int, jj: int|
            0 <= b < y && 0 <= jj < half ==> 0 <= #[trigger] (b * half + jj) < y * half + j,
        0 <= y * half + j,
{
    assert forall|b: int, jj: int| 0 <= b < y && 0 <= jj < half implies 0 <= #[trigger] (b * half
        + jj) < y * half + j by {
        assert(0 <= b * half + jj < y * half + j) by (nonlinear_arith)
            requires
                0 <= b < y,
                0 <= jj < half,
                0 <= j,
        ;
    }
    assert(0 <= y * half + j) by (nonlinear_arith)
        requires
            0 <= y,
            0 <= j,
            0 < half,
    ;
}

/// One more row is `half` more bytes.
proof fn lemma_mul_step(half: int, y: int)
    ensures
        (y + 1) * half == y * half + half,
{
    assert((y + 1) * half == y * half + half) by (nonlinear_arith);
}

/// Both buffers together hold half a byte per source pixel.
proof fn lemma_total_is_half_the_pixels(rows: int, half: int, w: int, h: int)
    requires
        rows == w,
        h % 4 == 0,
        h >= 0,
        w >= 0,
        half == h / 4,
    ensures
        rows * half + rows * half == (w * h) / 2,
{
    assert(rows * half + rows * half == (w * h) / 2) by (nonlinear_arith)
        requires
            rows == w,
            h % 4 == 0,
            h >= 0,
            w >= 0,
            half == h / 4,
    ;
}

/// The high nibble of a packed byte.
pub open spec fn spec_hi(b: u8) -> u8 {
    b / 16
}

/// The low nibble of a packed byte.
pub open spec fn spec_lo(b: u8) -> u8 {
    b % 16
}

/// Packs two colors into one byte: the first color's device code in the
/// high nibble, the second's in the low nibble.
pub fn pack_colors(first: Color, second: Color) -> (r: u8)
    ensures
        r == spec_pack(first.spec_code(), second.spec_code()),
{
    first.code() * 16 + second.code()
}

/// Splits a packed byte back into the two colors its nibbles encode;
/// yields nothing when a nibble is not a palette code.
pub fn unpack_byte(b: u8) -> (r: Option<(Color, Color)>)
    ensures
        r is Some <==> is_palette_code(spec_hi(b)) && is_palette_code(spec_lo(b)),
        r matches Some(p) ==> p.0.spec_code() == spec_hi(b) && p.1.spec_code() == spec_lo(b),
{
    let hi = b / 16;
    let lo = b % 16;
    match (color_from_code(hi), color_from_code(lo)) {
        (Some(a), Some(c)) => Some((a, c)),
        _ => None,
    }
}

/// Packing is lossless: a byte built from two palette codes gives both
/// codes back, nibble by nibble.
pub proof fn lemma_pack_unpack(c0: u8, c1: u8)
    requires
        c0 < 16,
        c1 < 16,
    ensures
        spec_hi((spec_pack(c0, c1)) as u8) == c0,
        spec_lo((spec_pack(c0, c1)) as u8) == c1,
{
    assert((16 * c0 + c1) / 16 == c0 as int && (16 * c0 + c1) % 16 == c1 as int)
        by (nonlinear_arith)
        requires
            0 <= c0 < 16,
            0 <= c1 < 16,
    ;
}

/// Decoding a panel frame by unpacking nibbles and looking the palette
/// colors back up reproduces the quantized image exactly: for every byte
/// of either buffer, the colors its two nibbles encode are the two rotated
/// source pixels it was packed from.
pub proof fn lemma_frame_round_trip(img: RgbImage, f: ProccessedImage)
    requires
        img.wf(),
        is_quantized(img),
        img.height % 4 == 0,
        is_encoding_of(f, img),
    ensures
        forall|y: int, j: int|
            0 <= y < img.width && 0 <= j < img.height as int / 4 ==> {
                let b = #[trigger] f.left@[y * (img.height as int / 4) + j];
                spec_color_of_code(spec_hi(b)).spec_rgb() == img.pixel(img.width - 1 - y, 2 * j)
                    && spec_color_of_code(spec_lo(b)).spec_rgb() == img.pixel(
                    img.width - 1 - y, 2 * j + 1,
                )
            },
        forall|y: int, j: int|
            0 <= y < img.width && 0 <= j < img.height as int / 4 ==> {
                let b = #[trigger] f.right@[y * (img.height as int / 4) + j];
                spec_color_of_code(spec_hi(b)).spec_rgb() == img.pixel(
                    img.width - 1 - y, 2 * j + img.height as int / 2,
                ) && spec_color_of_code(spec_lo(b)).spec_rgb() == img.pixel(
                    img.width - 1 - y, 2 * j + 1 + img.height as int / 2,
                )
            },
{
    let half = img.height as int / 4;
    assert forall|y: int, j: int| 0 <= y < img.width && 0 <= j < half implies {
        let b = #[trigger] f.left@[y * half + j];
        spec_color_of_code(spec_hi(b)).spec_rgb() == img.pixel(img.width - 1 - y, 2 * j)
            && spec_color_of_code(spec_lo(b)).spec_rgb() == img.pixel(img.width - 1 - y, 2 * j + 1)
    } by {
        lemma_byte_recovers_pixels(img, f.left@[y * half + j], y, 2 * j);
    }
    assert forall|y: int, j: int| 0 <= y < img.width && 0 <= j < half implies {
        let b = #[trigger] f.right@[y * half + j];
        spec_color_of_code(spec_hi(b)).spec_rgb() == img.pixel(
            img.width - 1 - y, 2 * j + img.height as int / 2,
        ) && spec_color_of_code(spec_lo(b)).spec_rgb() == img.pixel(
            img.width - 1 - y, 2 * j + 1 + img.height as int / 2,
        )
    } by {
        lemma_quarters(img.height as int);
        lemma_byte_recovers_pixels(img, f.right@[y * half + j], y, 2 * j + img.height as int / 2);
    }
}

/// One packed byte recovers the two pixels it encodes.
proof fn lemma_byte_recovers_pixels(img: RgbImage, b: u8, y: int, x: int)
    requires
        img.wf(),
        is_quantized(img),
        0 <= y < img.width,
        0 <= x,
        x + 1 < img.height,
        b == spec_pack_at(img, y, x),
    ensures
        spec_color_of_code(spec_hi(b)).spec_rgb() == img.pixel(img.width - 1 - y, x),
        spec_color_of_code(spec_lo(b)).spec_rgb() == img.pixel(img.width - 1 - y, x + 1),
{
    let p0 = img.pixel(img.width - 1 - y, x);
    let p1 = img.pixel(img.width - 1 - y, x + 1);
    let c0 = spec_code_of(p0);
    let c1 = spec_code_of(p1);
    assert(c0 < 16 && c1 < 16);
    lemma_pack_unpack(c0, c1);
    lemma_color_of_code_round(spec_color_of_rgb(p0));
    lemma_color_of_code_round(spec_color_of_rgb(p1));
    lemma_color_of_rgb_round(p0);
    lemma_color_of_rgb_round(p1);
}

} // verus!
