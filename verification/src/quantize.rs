//! The palette quantizer: decode, straighten, crop, resize, dither.
//!
//! The pipeline takes arbitrary compressed photo bytes and produces a
//! landscape 1600 x 1200 image whose every pixel is one of the six palette
//! colors exactly. Decoding and Lanczos resampling are done by the `image`
//! crate behind trusted wrappers; the orientation fix, the 4:3 center crop
//! and the Floyd-Steinberg dithering pass are verified here.

use vstd::prelude::*;

use crate::errors::DeliveryError;
use crate::frame::{pixel_of, set_pixel_seq, RgbImage};
use crate::palette::{is_nearest_index, is_palette_rgb, nearest_palette_index, palette_at,
    spec_color_distance, spec_palette};

verus! {

/// Width of the quantizer's output, in pixels.
pub const TARGET_WIDTH: usize = 1600;

/// Height of the quantizer's output, in pixels.
pub const TARGET_HEIGHT: usize = 1200;

/// The centered crop rectangle `(x, y, w, h)` that takes a `w0` x `h0`
/// image to a 4:3 aspect ratio: the longer side is cut down to the nearest
/// integer matching 4:3, split evenly between the two ends.
pub open spec fn spec_crop_rect(w0: int, h0: int) -> (int, int, int, int) {
    if 3 * w0 > 4 * h0 {
        let nw = (8 * h0 + 3) / 6;
        ((w0 - nw) / 2, 0, nw, h0)
    } else if 3 * w0 < 4 * h0 {
        let nh = (3 * w0 + 2) / 4;
        (0, (h0 - nh) / 2, w0, nh)
    } else {
        (0, 0, w0, h0)
    }
}

/// Computes the centered 4:3 crop rectangle for a `width` x `height`
/// image: `(x, y, w, h)` with the rectangle inside the image. A side that
/// is already at 4:3 is kept whole; otherwise the longer side is reduced
/// to the rounded 4:3 match of the shorter one.
pub fn calculate_crop_cordinates(width: u32, height: u32) -> (r: (u32, u32, u32, u32))
    ensures
        (r.0 as int, r.1 as int, r.2 as int, r.3 as int) == spec_crop_rect(
            width as int, height as int,
        ),
        r.0 + r.2 <= width,
        r.1 + r.3 <= height,
{
    let w0 = width as u64;
    let h0 = height as u64;
    if 3 * w0 > 4 * h0 {
        let nw = (8 * h0 + 3) / 6;
        proof {
            assert(8 * h0 + 3 < 6 * (w0 + 1) && (8 * h0 + 3) / 6 < w0 + 1) by (nonlinear_arith)
                requires
                    3 * w0 > 4 * h0,
            ;
        }
        let x = (w0 - nw) / 2;
        (x as u32, 0, nw as u32, height)
    } else if 3 * w0 < 4 * h0 {
        let nh = (3 * w0 + 2) / 4;
        proof {
            assert(3 * w0 + 2 < 4 * (h0 + 1) && (3 * w0 + 2) / 4 < h0 + 1) by (nonlinear_arith)
                requires
                    3 * w0 < 4 * h0,
            ;
        }
        let y = (h0 - nh) / 2;
        (0, y as u32, width, nh as u32)
    } else {
        (0, 0, width, height)
    }
}

/// All pixels of the image that come strictly before (x, y) in row-major
/// order are palette colors.
pub open spec fn palette_prefix(img: RgbImage, x: int, y: int) -> bool {
    forall|a: int, b: int|
        0 <= a < img.width && 0 <= b < img.height && (b < y || (b == y && a < x))
            ==> is_palette_rgb(#[trigger] img.pixel(a, b))
}

/// Every pixel of the image is a palette color.
pub open spec fn is_quantized(img: RgbImage) -> bool {
    forall|a: int, b: int|
        0 <= a < img.width && 0 <= b < img.height
            ==> is_palette_rgb(#[trigger] img.pixel(a, b))
}

/// The index of the palette entry nearest to `rgb`; there is exactly one
/// index satisfying `is_nearest_index`, so this pins it down.
pub open spec fn spec_nearest_index(rgb: (u8, u8, u8)) -> int {
    choose|i: int| is_nearest_index(rgb, i)
}

/// At most one palette index is the nearest with first-declared
/// tie-breaking.
pub proof fn lemma_nearest_unique(rgb: (u8, u8, u8), i: int, j: int)
    requires
        is_nearest_index(rgb, i),
        is_nearest_index(rgb, j),
    ensures
        i == j,
{
    if i < j {
        assert(spec_color_distance(spec_palette(i).spec_rgb(), rgb) > spec_color_distance(
            spec_palette(j).spec_rgb(), rgb,
        ));
        assert(spec_color_distance(spec_palette(i).spec_rgb(), rgb) <= spec_color_distance(
            spec_palette(j).spec_rgb(), rgb,
        ));
    }
    if j < i {
        assert(spec_color_distance(spec_palette(j).spec_rgb(), rgb) > spec_color_distance(
            spec_palette(i).spec_rgb(), rgb,
        ));
        assert(spec_color_distance(spec_palette(j).spec_rgb(), rgb) <= spec_color_distance(
            spec_palette(i).spec_rgb(), rgb,
        ));
    }
}

/// One quantization, at grid level: the pixel at (x, y) replaced by its
/// nearest palette color, and the per-channel error `old - new`.
pub open spec fn spec_quantize_cell(px: Seq<u8>, w: int, x: int, y: int) -> (
    Seq<u8>,
    (int, int, int),
) {
    let old = pixel_of(px, w, x, y);
    let nc = spec_palette(spec_nearest_index(old)).spec_rgb();
    (
        set_pixel_seq(px, w, x, y, nc),
        (old.0 - nc.0, old.1 - nc.1, old.2 - nc.2),
    )
}

/// One error diffusion, at grid level: the pixel at (x, y) moved by its
/// share of the error, channel by channel.
pub open spec fn spec_diffuse_cell(
    px: Seq<u8>,
    w: int,
    x: int,
    y: int,
    err: (int, int, int),
    factor: int,
) -> Seq<u8> {
    let old = pixel_of(px, w, x, y);
    set_pixel_seq(
        px,
        w,
        x,
        y,
        (
            spec_diffused_channel(old.0, err.0, factor),
            spec_diffused_channel(old.1, err.1, factor),
            spec_diffused_channel(old.2, err.2, factor),
        ),
    )
}

/// One full dithering step at grid level: quantize the pixel at (x, y),
/// then spread its error 7/16 right, 3/16 lower left, 5/16 below and
/// 1/16 lower right, each share only where that neighbor exists.
pub open spec fn spec_dither_cell(px: Seq<u8>, w: int, h: int, x: int, y: int) -> Seq<u8> {
    let qe = spec_quantize_cell(px, w, x, y);
    let err = qe.1;
    let q0 = qe.0;
    let q1 = if x + 1 < w {
        spec_diffuse_cell(q0, w, x + 1, y, err, 7)
    } else {
        q0
    };
    let q2 = if y + 1 < h && x >= 1 {
        spec_diffuse_cell(q1, w, x - 1, y + 1, err, 3)
    } else {
        q1
    };
    let q3 = if y + 1 < h {
        spec_diffuse_cell(q2, w, x, y + 1, err, 5)
    } else {
        q2
    };
    if y + 1 < h && x + 1 < w {
        spec_diffuse_cell(q3, w, x + 1, y + 1, err, 1)
    } else {
        q3
    }
}

/// The grid after the first `k` dithering steps in row-major order.
pub open spec fn spec_dither_upto(px: Seq<u8>, w: int, h: int, k: int) -> Seq<u8>
    decreases k,
{
    if k <= 0 {
        px
    } else {
        spec_dither_cell(spec_dither_upto(px, w, h, k - 1), w, h, (k - 1) % w, (k - 1) / w)
    }
}

/// The grid after the whole Floyd-Steinberg pass.
pub open spec fn spec_dithered(px: Seq<u8>, w: int, h: int) -> Seq<u8> {
    spec_dither_upto(px, w, h, w * h)
}

/// A channel after error diffusion: the scaled error (truncated towards
/// zero, as the reference integer arithmetic does) is added and the sum is
/// clamped to a byte.
pub open spec fn spec_diffused_channel(c: u8, e: int, factor: int) -> u8 {
    let p = e * factor;
    let q = if p >= 0 {
        p / 16
    } else {
        -((-p) / 16)
    };
    let v = c + q;
    if v < 0 {
        0
    } else if v > 255 {
        255
    } else {
        v as u8
    }
}

/// Adds `e * factor / 16` to a channel, clamped to a byte.
fn diffuse_channel(c: u8, e: i16, factor: i16) -> (r: u8)
    requires
        -255 <= e <= 255,
        1 <= factor <= 7,
    ensures
        r == spec_diffused_channel(c, e as int, factor as int),
{
    proof {
        assert(-1785 <= e * factor <= 1785) by (nonlinear_arith)
            requires
                -255 <= e <= 255,
                1 <= factor <= 7,
        ;
    }
    let p: i16 = e * factor;
    let q: i16 = if p >= 0 {
        p / 16
    } else {
        -((0 - p) / 16)
    };
    let v: i16 = c as i16 + q;
    if v < 0 {
        0
    } else if v > 255 {
        255
    } else {
        v as u8
    }
}

/// Spreads a share of the quantization error onto the pixel at (x, y);
/// every other pixel keeps its value.
fn diffuse(img: &mut RgbImage, x: usize, y: usize, err: (i16, i16, i16), factor: i16)
    requires
        old(img).wf(),
        x < old(img).width,
        y < old(img).height,
        -255 <= err.0 <= 255,
        -255 <= err.1 <= 255,
        -255 <= err.2 <= 255,
        1 <= factor <= 7,
    ensures
        final (img).wf(),
        final (img).width == old(img).width,
        final (img).height == old(img).height,
        final (img).pixel(x as int, y as int) == (
            spec_diffused_channel(old(img).pixel(x as int, y as int).0, err.0 as int, factor as int),
            spec_diffused_channel(old(img).pixel(x as int, y as int).1, err.1 as int, factor as int),
            spec_diffused_channel(old(img).pixel(x as int, y as int).2, err.2 as int, factor as int),
        ),
        final (img).pixels@ == spec_diffuse_cell(
            old(img).pixels@,
            old(img).width as int,
            x as int,
            y as int,
            (err.0 as int, err.1 as int, err.2 as int),
            factor as int,
        ),
        forall|a: int, b: int|
            0 <= a < old(img).width && 0 <= b < old(img).height && !(a == x && b == y)
                ==> final (img).pixel(a, b) == old(img).pixel(a, b),
{
    let c = img.get_pixel(x, y);
    let nc = (
        diffuse_channel(c.0, err.0, factor),
        diffuse_channel(c.1, err.1, factor),
        diffuse_channel(c.2, err.2, factor),
    );
    img.set_pixel(x, y, nc);
}

/// Replaces the pixel at (x, y) by its nearest palette color and returns
/// the per-channel quantization error `old - new`; every other pixel keeps
/// its value.
fn dither_pixel(img: &mut RgbImage, x: usize, y: usize) -> (err: (i16, i16, i16))
    requires
        old(img).wf(),
        x < old(img).width,
        y < old(img).height,
    ensures
        final (img).wf(),
        final (img).width == old(img).width,
        final (img).height == old(img).height,
        is_palette_rgb(final (img).pixel(x as int, y as int)),
        exists|i: int|
            is_nearest_index(old(img).pixel(x as int, y as int), i) && final (img).pixel(
                x as int, y as int,
            ) == spec_palette(i).spec_rgb(),
        -255 <= err.0 <= 255,
        -255 <= err.1 <= 255,
        -255 <= err.2 <= 255,
        err.0 == old(img).pixel(x as int, y as int).0 - final (img).pixel(x as int, y as int).0,
        err.1 == old(img).pixel(x as int, y as int).1 - final (img).pixel(x as int, y as int).1,
        err.2 == old(img).pixel(x as int, y as int).2 - final (img).pixel(x as int, y as int).2,
        final (img).pixels@ == spec_quantize_cell(
            old(img).pixels@, old(img).width as int, x as int, y as int,
        ).0,
        (err.0 as int, err.1 as int, err.2 as int) == spec_quantize_cell(
            old(img).pixels@, old(img).width as int, x as int, y as int,
        ).1,
        forall|a: int, b: int|
            0 <= a < old(img).width && 0 <= b < old(img).height && !(a == x && b == y)
                ==> final (img).pixel(a, b) == old(img).pixel(a, b),
{
    let c = img.get_pixel(x, y);
    let i = nearest_palette_index(c);
    let nc = palette_at(i).rgb();
    img.set_pixel(x, y, nc);
    proof {
        assert(is_palette_rgb(nc)) by {
            assert(spec_palette(i as int).spec_rgb() == nc);
        }
        assert(is_nearest_index(c, spec_nearest_index(c))) by {
            assert(is_nearest_index(c, i as int));
        }
        lemma_nearest_unique(c, i as int, spec_nearest_index(c));
    }
    (
        c.0 as i16 - nc.0 as i16,
        c.1 as i16 - nc.1 as i16,
        c.2 as i16 - nc.2 as i16,
    )
}

/// Quantizes the pixel at (x, y) and diffuses its error onto the unvisited
/// neighbors, exactly as the reference Floyd-Steinberg pass does: 7/16 to
/// the right, 3/16 to the lower left, 5/16 below, 1/16 to the lower right,
/// each share only where the neighbor exists.
fn dither_step(img: &mut RgbImage, x: usize, y: usize)
    requires
        old(img).wf(),
        x < old(img).width,
        y < old(img).height,
    ensures
        final (img).wf(),
        final (img).width == old(img).width,
        final (img).height == old(img).height,
        is_palette_rgb(final (img).pixel(x as int, y as int)),
        final (img).pixels@ == spec_dither_cell(
            old(img).pixels@, old(img).width as int, old(img).height as int, x as int, y as int,
        ),
        forall|a: int, b: int|
            0 <= a < old(img).width && 0 <= b < old(img).height && (b < y || (b == y && a < x))
                ==> final (img).pixel(a, b) == old(img).pixel(a, b),
{
    let err = dither_pixel(img, x, y);
    if x + 1 < img.width {
        diffuse(img, x + 1, y, err, 7);
    }
    if y + 1 < img.height {
        if x >= 1 {
            diffuse(img, x - 1, y + 1, err, 3);
        }
        diffuse(img, x, y + 1, err, 5);
        if x + 1 < img.width {
            diffuse(img, x + 1, y + 1, err, 1);
        }
    }
}

/// Maps every pixel onto the palette with Floyd-Steinberg error-diffusion
/// dithering: after the pass, every pixel equals one of the six palette
/// RGB triples exactly.
pub fn quantize_dither(img: &mut RgbImage)
    requires
        old(img).wf(),
    ensures
        final (img).wf(),
        final (img).width == old(img).width,
        final (img).height == old(img).height,
        is_quantized(*final (img)),
        final (img).pixels@ == spec_dithered(
            old(img).pixels@, old(img).width as int, old(img).height as int,
        ),
{
    let w = img.width;
    let h = img.height;
    let ghost orig = img.pixels@;
    let mut y: usize = 0;
    while y < h
        invariant
            img.wf(),
            img.width == w,
            img.height == h,
            y <= h,
            palette_prefix(*img, 0, y as int),
            img.pixels@ == spec_dither_upto(orig, w as int, h as int, y as int * w as int),
        decreases h - y,
    {
        let mut x: usize = 0;
        while x < w
            invariant
                img.wf(),
                img.width == w,
                img.height == h,
                y < h,
                x <= w,
                palette_prefix(*img, x as int, y as int),
                img.pixels@ == spec_dither_upto(orig, w as int, h as int, y as int * w as int + x),
            decreases w - x,
        {
            dither_step(img, x, y);
            proof {
                let k = y as int * w as int + x;
                lemma_row_major_divmod(x as int, y as int, w as int);
                assert(img.pixels@ == spec_dither_upto(orig, w as int, h as int, k + 1));
            }
            x = x + 1;
        }
        proof {
            assert(y as int * w as int + w == (y + 1) as int * w as int) by (nonlinear_arith);
        }
        y = y + 1;
    }
    proof {
        assert(h as int * w as int == w as int * h as int) by (nonlinear_arith);
    }
}

/// Row-major position arithmetic: the cell counter `y*w + x` decomposes
/// back into its column and row.
proof fn lemma_row_major_divmod(x: int, y: int, w: int)
    requires
        0 <= x < w,
        0 <= y,
    ensures
        (y * w + x) % w == x,
        (y * w + x) / w == y,
{
    assert((y * w + x) % w == x && (y * w + x) / w == y) by (nonlinear_arith)
        requires
            0 <= x < w,
            0 <= y,
    ;
}

/// What `image::load_from_memory` (read as RGB8) yields on these bytes:
/// the width, height and channel bytes of the decoded photo, or nothing
/// when the bytes are not a decodable image.
pub uninterp spec fn decoded_rgb(bytes: Seq<u8>) -> Option<(nat, nat, Seq<u8>)>;

/// What `image::imageops::resize` with the Lanczos3 filter yields: the
/// channel bytes of the `nw` x `nh` resampling of a `w` x `h` image.
pub uninterp spec fn lanczos_resized(px: Seq<u8>, w: nat, h: nat, nw: nat, nh: nat) -> Seq<u8>;

/// Relies on image::load_from_memory and DynamicImage::to_rgb8: decodes
/// compressed photo bytes into an RGB8 buffer of three bytes per pixel;
/// the outcome depends on the bytes alone.
#[verifier::external_body]
fn decode_rgb_bytes(bytes: &Vec<u8>) -> (r: Option<(u32, u32, Vec<u8>)>)
    ensures
        r matches Some(t) ==> decoded_rgb(bytes@) == Some(
            ((t.0 as nat), (t.1 as nat), t.2@),
        ) && t.2@.len() == 3 * ((t.0 as nat) * (t.1 as nat)),
        r is None ==> decoded_rgb(bytes@) is None,
{
    match image::load_from_memory(bytes) {
        Ok(img) => {
            let rgb = img.to_rgb8();
            let (w, h) = (rgb.width(), rgb.height());
            Some((w, h, rgb.into_raw()))
        },
        Err(_) => None,
    }
}

/// Relies on image::imageops::resize with FilterType::Lanczos3: resamples
/// a `w` x `h` RGB8 buffer to `nw` x `nh`; the result depends on the
/// buffer and the dimensions alone.
#[verifier::external_body]
fn resize_lanczos(px: Vec<u8>, w: u32, h: u32, nw: u32, nh: u32) -> (r: Vec<u8>)
    requires
        px@.len() == 3 * ((w as nat) * (h as nat)),
        w > 0,
        h > 0,
        nw > 0,
        nh > 0,
    ensures
        r@ == lanczos_resized(px@, w as nat, h as nat, nw as nat, nh as nat),
        r@.len() == 3 * ((nw as nat) * (nh as nat)),
{
    let buf: image::RgbImage = match image::ImageBuffer::from_raw(w, h, px) {
        Some(b) => b,
        None => image::ImageBuffer::new(w, h),
    };
    let out = image::imageops::resize(&buf, nw, nh, image::imageops::FilterType::Lanczos3);
    out.into_raw()
}

/// Do these bytes decode to a usable (non-degenerate) photo?
pub open spec fn decodable(bytes: Seq<u8>) -> bool {
    match decoded_rgb(bytes) {
        Some(t) => t.0 > 0 && t.1 > 0,
        None => false,
    }
}

/// `dst` is `src` (a `w` x `h` row-major RGB grid) rotated 90 degrees
/// clockwise; `dst` is `h` wide and `w` tall.
pub open spec fn is_rotation90(src: Seq<u8>, w: int, h: int, dst: Seq<u8>) -> bool {
    &&& dst.len() == 3 * (h * w)
    &&& forall|x: int, y: int|
        0 <= x < h && 0 <= y < w ==> #[trigger] pixel_of(dst, h, x, y) == pixel_of(
            src, w, y, h - 1 - x,
        )
}

/// `dst` is the `cw` x `ch` rectangle of `src` (a grid `w` wide) whose
/// top-left corner is (cx, cy).
pub open spec fn is_crop_of(
    src: Seq<u8>,
    w: int,
    dst: Seq<u8>,
    cx: int,
    cy: int,
    cw: int,
    ch: int,
) -> bool {
    &&& dst.len() == 3 * (cw * ch)
    &&& forall|x: int, y: int|
        0 <= x < cw && 0 <= y < ch ==> #[trigger] pixel_of(dst, cw, x, y) == pixel_of(
            src, w, cx + x, cy + y,
        )
}

/// The quantizer pipeline's stages, with the oriented and cropped
/// intermediates named: `bytes` decode to a photo, `opx` is that photo
/// turned landscape, `cpx` its centered 4:3 crop, and `out` is the
/// dithering of the crop's Lanczos resampling at the target resolution.
pub open spec fn pipeline_stages(bytes: Seq<u8>, opx: Seq<u8>, cpx: Seq<u8>, out: Seq<u8>)
    -> bool {
    &&& decodable(bytes)
    &&& match decoded_rgb(bytes) {
        Some(t) => {
            let w0 = t.0 as int;
            let h0 = t.1 as int;
            let ow = if h0 > w0 { h0 } else { w0 };
            let oh = if h0 > w0 { w0 } else { h0 };
            let rect = spec_crop_rect(ow, oh);
            &&& if h0 > w0 {
                is_rotation90(t.2, w0, h0, opx)
            } else {
                opx == t.2
            }
            &&& is_crop_of(opx, ow, cpx, rect.0, rect.1, rect.2, rect.3)
            &&& out == spec_dithered(
                lanczos_resized(
                    cpx, rect.2 as nat, rect.3 as nat, TARGET_WIDTH as nat, TARGET_HEIGHT as nat,
                ),
                TARGET_WIDTH as int,
                TARGET_HEIGHT as int,
            )
        },
        None => false,
    }
}

/// `out` is exactly what the quantizer pipeline makes of `bytes`: the
/// decoded photo, turned landscape, center-cropped to 4:3, resampled to
/// the target resolution, and dithered -- each stage pinned down, the
/// outside stages through their named results. The two intermediates
/// are determined by the stage predicates, pixel for pixel.
pub open spec fn is_processed_output(bytes: Seq<u8>, out: Seq<u8>) -> bool {
    exists|opx: Seq<u8>, cpx: Seq<u8>| #[trigger] pipeline_stages(bytes, opx, cpx, out)
}

/// Turns arbitrary compressed photo bytes into a quantized landscape
/// 1600 x 1200 image: decode, rotate portrait input 90 degrees clockwise,
/// center-crop to 4:3, resample with a Lanczos filter, and dither onto the
/// palette. Fails exactly on bytes that do not decode to a non-empty photo.
pub fn process_image(bytes: &Vec<u8>) -> (r: Result<RgbImage, DeliveryError>)
    ensures
        r is Ok <==> decodable(bytes@),
        r matches Err(e) ==> e == DeliveryError::DecodeError,
        r matches Ok(q) ==> {
            &&& q.wf()
            &&& q.width == TARGET_WIDTH
            &&& q.height == TARGET_HEIGHT
            &&& is_quantized(q)
            &&& is_processed_output(bytes@, q.pixels@)
        },
{
    let decoded = match decode_rgb_bytes(bytes) {
        Some(t) => t,
        None => {
            return Err(DeliveryError::DecodeError);
        },
    };
    let (dw, dh, px) = decoded;
    if dw == 0 || dh == 0 {
        return Err(DeliveryError::DecodeError);
    }
    let ghost t = decoded_rgb(bytes@)->Some_0;
    let ghost w0 = t.0 as int;
    let ghost h0 = t.1 as int;
    let mut img = RgbImage::from_raw(dw as usize, dh as usize, px);

    // Landscape orientation first: a portrait photo is turned clockwise.
    if img.height > img.width {
        let rotated = img.rotate90();
        proof {
            assert forall|x: int, y: int| 0 <= x < h0 && 0 <= y < w0 implies #[trigger] pixel_of(
                rotated.pixels@, h0, x, y,
            ) == pixel_of(t.2, w0, y, h0 - 1 - x) by {
                assert(rotated.pixel(x, y) == img.pixel(y, img.height - 1 - x));
            }
            assert(is_rotation90(t.2, w0, h0, rotated.pixels@)) by {
                assert(rotated.pixels@.len() == 3 * ((rotated.width * rotated.height) as int));
                assert(3 * (h0 * w0) == 3 * ((rotated.width * rotated.height) as int))
                    by (nonlinear_arith)
                    requires
                        rotated.width == h0,
                        rotated.height == w0,
                ;
            }
        }
        img = rotated;
    }
    let ghost oriented_px = img.pixels@;
    let ghost ow = img.width as int;
    let ghost oh = img.height as int;
    proof {
        assert(img.width <= u32::MAX && img.height <= u32::MAX);
    }

    // Center-crop to 4:3.
    let (cx, cy, cw, ch) = calculate_crop_cordinates(img.width as u32, img.height as u32);
    let cropped = img.crop(cx as usize, cy as usize, cw as usize, ch as usize);
    let ghost cropped_px = cropped.pixels@;
    let ghost rect = spec_crop_rect(ow, oh);
    proof {
        assert forall|x: int, y: int| 0 <= x < rect.2 && 0 <= y < rect.3 implies #[trigger]
            pixel_of(cropped_px, rect.2, x, y) == pixel_of(
            oriented_px, ow, rect.0 + x, rect.1 + y,
        ) by {
            assert(cropped.pixel(x, y) == img.pixel(cx + x, cy + y));
        }
        assert(is_crop_of(oriented_px, ow, cropped_px, rect.0, rect.1, rect.2, rect.3)) by {
            assert(cropped.pixels@.len() == 3 * ((cropped.width * cropped.height) as int));
            assert(3 * (rect.2 * rect.3) == 3 * ((cropped.width * cropped.height) as int))
                by (nonlinear_arith)
                requires
                    cropped.width == rect.2,
                    cropped.height == rect.3,
            ;
        }
    }

    // Resample to the fixed panel resolution; exact output dimensions are
    // a hard requirement of the packing stage.
    if cropped.width == 0 || cropped.height == 0 {
        return Err(DeliveryError::DecodeError);
    }
    let resized_px = resize_lanczos(
        cropped.pixels,
        cropped.width as u32,
        cropped.height as u32,
        TARGET_WIDTH as u32,
        TARGET_HEIGHT as u32,
    );
    let mut out = RgbImage::from_raw(TARGET_WIDTH, TARGET_HEIGHT, resized_px);

    quantize_dither(&mut out);
    proof {
        assert(pipeline_stages(bytes@, oriented_px, cropped_px, out.pixels@)) by {
            assert(ow == if h0 > w0 { h0 } else { w0 });
            assert(oh == if h0 > w0 { w0 } else { h0 });
            assert(if h0 > w0 {
                is_rotation90(t.2, w0, h0, oriented_px)
            } else {
                oriented_px == t.2
            });
            assert(is_crop_of(oriented_px, ow, cropped_px, rect.0, rect.1, rect.2, rect.3));
            assert(out.pixels@ == spec_dithered(
                lanczos_resized(
                    cropped_px, rect.2 as nat, rect.3 as nat, TARGET_WIDTH as nat,
                    TARGET_HEIGHT as nat,
                ),
                TARGET_WIDTH as int,
                TARGET_HEIGHT as int,
            ));
        }
        assert(is_processed_output(bytes@, out.pixels@));
    }
    Ok(out)
}

} // verus!
