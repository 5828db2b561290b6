//! A plain RGB image: the data model every pipeline stage works on.
//!
//! Pixels are stored row-major, three bytes per pixel. The geometric
//! operations (rotation, cropping) are stated pixel-for-pixel.

use vstd::prelude::*;

verus! {

/// An RGB image with one byte per channel, row-major, top-left origin.
pub struct RgbImage {
    /// Width in pixels.
    pub width: usize,
    /// Height in pixels.
    pub height: usize,
    /// Channel bytes: pixel (x, y) occupies indices 3*(y*width+x) .. +3.
    pub pixels: Vec<u8>,
}

/// The RGB triple at grid position (x, y) of a row-major buffer `w` wide.
pub open spec fn pixel_of(pixels: Seq<u8>, w: int, x: int, y: int) -> (u8, u8, u8) {
    let i = 3 * (y * w + x);
    (pixels[i], pixels[i + 1], pixels[i + 2])
}

/// The buffer with the RGB triple at grid position (x, y) overwritten.
pub open spec fn set_pixel_seq(pixels: Seq<u8>, w: int, x: int, y: int, rgb: (u8, u8, u8))
    -> Seq<u8> {
    let i = 3 * (y * w + x);
    pixels.update(i, rgb.0).update(i + 1, rgb.1).update(i + 2, rgb.2)
}

impl RgbImage {
    /// The buffer holds exactly three bytes per pixel.
    pub open spec fn wf(self) -> bool {
        self.pixels@.len() == 3 * (self.width * self.height)
    }

    /// The RGB triple of pixel (x, y).
    pub open spec fn pixel(self, x: int, y: int) -> (u8, u8, u8) {
        pixel_of(self.pixels@, self.width as int, x, y)
    }

    /// Builds an image from its raw parts.
    pub fn from_raw(width: usize, height: usize, pixels: Vec<u8>) -> (r: Self)
        requires
            pixels@.len() == 3 * (width * height),
        ensures
            r.wf(),
            r.width == width,
            r.height == height,
            r.pixels@ == pixels@,
    {
        RgbImage { width, height, pixels }
    }

    /// Reads the RGB triple of pixel (x, y).
    pub fn get_pixel(&self, x: usize, y: usize) -> (rgb: (u8, u8, u8))
        requires
            self.wf(),
            x < self.width,
            y < self.height,
        ensures
            rgb == self.pixel(x as int, y as int),
    {
        let n = self.pixels.len();
        proof {
            lemma_pixel_index_bound(x as int, y as int, self.width as int, self.height as int);
        }
        let i = 3 * (y * self.width + x);
        (self.pixels[i], self.pixels[i + 1], self.pixels[i + 2])
    }

    /// Overwrites the RGB triple of pixel (x, y); every other pixel keeps
    /// its value.
    pub fn set_pixel(&mut self, x: usize, y: usize, rgb: (u8, u8, u8))
        requires
            old(self).wf(),
            x < old(self).width,
            y < old(self).height,
        ensures
            final (self).wf(),
            final (self).width == old(self).width,
            final (self).height == old(self).height,
            final (self).pixel(x as int, y as int) == rgb,
            final (self).pixels@ == set_pixel_seq(
                old(self).pixels@, old(self).width as int, x as int, y as int, rgb,
            ),
            forall|a: int, b: int|
                0 <= a < old(self).width && 0 <= b < old(self).height && !(a == x && b == y)
                    ==> final (self).pixel(a, b) == old(self).pixel(a, b),
    {
        let n = self.pixels.len();
        proof {
            lemma_pixel_index_bound(x as int, y as int, self.width as int, self.height as int);
        }
        let i = 3 * (y * self.width + x);
        self.pixels[i] = rgb.0;
        self.pixels[i + 1] = rgb.1;
        self.pixels[i + 2] = rgb.2;
        proof {
            assert forall|a: int, b: int|
                0 <= a < self.width && 0 <= b < self.height && !(a == x && b == y)
                    implies self.pixel(a, b) == old(self).pixel(a, b) by {
                lemma_pixel_index_bound(a, b, self.width as int, self.height as int);
                lemma_row_major_injective(
                    a, b, x as int, y as int, self.width as int, self.height as int,
                );
            }
        }
    }

    /// Rotates the image 90 degrees clockwise: the result has swapped
    /// dimensions and `r.pixel(X, Y) == self.pixel(Y, height - 1 - X)`.
    pub fn rotate90(&self) -> (r: Self)
        requires
            self.wf(),
        ensures
            r.wf(),
            r.width == self.height,
            r.height == self.width,
            forall|xx: int, yy: int|
                0 <= xx < r.width && 0 <= yy < r.height
                    ==> #[trigger] r.pixel(xx, yy) == self.pixel(yy, self.height - 1 - xx),
    {
        rebuild_rotated(self, RotationKind::Clockwise)
    }

    /// Rotates the image 270 degrees clockwise: the result has swapped
    /// dimensions and `r.pixel(X, Y) == self.pixel(width - 1 - Y, X)`.
    pub fn rotate270(&self) -> (r: Self)
        requires
            self.wf(),
        ensures
            r.wf(),
            r.width == self.height,
            r.height == self.width,
            forall|xx: int, yy: int|
                0 <= xx < r.width && 0 <= yy < r.height
                    ==> #[trigger] r.pixel(xx, yy) == self.pixel(self.width - 1 - yy, xx),
    {
        rebuild_rotated(self, RotationKind::CounterClockwise)
    }

    /// Cuts the `cw` x `ch` rectangle whose top-left corner is (cx, cy).
    pub fn crop(&self, cx: usize, cy: usize, cw: usize, ch: usize) -> (r: Self)
        requires
            self.wf(),
            cx + cw <= self.width,
            cy + ch <= self.height,
        ensures
            r.wf(),
            r.width == cw,
            r.height == ch,
            forall|xx: int, yy: int|
                0 <= xx < cw && 0 <= yy < ch
                    ==> #[trigger] r.pixel(xx, yy) == self.pixel(cx + xx, cy + yy),
    {
        let mut pixels: Vec<u8> = Vec::new();
        let mut yy: usize = 0;
        while yy < ch
            invariant
                self.wf(),
                cx + cw <= self.width,
                cy + ch <= self.height,
                yy <= ch,
                pixels@.len() == 3 * ((cw * yy) as int),
                forall|a: int, b: int|
                    0 <= a < cw && 0 <= b < yy ==> #[trigger] pixel_of(pixels@, cw as int, a, b)
                        == self.pixel(cx + a, cy + b),
            decreases ch - yy,
        {
            let mut xx: usize = 0;
            while xx < cw
                invariant
                    self.wf(),
                    cx + cw <= self.width,
                    cy + ch <= self.height,
                    yy < ch,
                    xx <= cw,
                    pixels@.len() == 3 * ((cw * yy) as int + xx),
                    forall|a: int, b: int|
                        0 <= a < cw && 0 <= b < yy ==> #[trigger] pixel_of(pixels@, cw as int, a, b)
                            == self.pixel(cx + a, cy + b),
                    forall|a: int|
                        0 <= a < xx ==> #[trigger] pixel_of(pixels@, cw as int, a, yy as int)
                            == self.pixel(cx + a, cy + yy),
                decreases cw - xx,
            {
                let rgb = self.get_pixel(cx + xx, cy + yy);
                proof {
                    lemma_push_pixel(pixels@, cw as int, xx as int, yy as int, rgb);
                }
                pixels.push(rgb.0);
                pixels.push(rgb.1);
                pixels.push(rgb.2);
                xx = xx + 1;
            }
            proof {
                lemma_mul_step(cw as int, yy as int);
            }
            yy = yy + 1;
        }
        proof {
            lemma_mul_commute(cw as int, ch as int);
        }
        RgbImage { width: cw, height: ch, pixels }
    }
}

/// Which quarter-turn `rebuild_rotated` performs.
#[derive(Copy, Clone, PartialEq, Eq, Structural)]
enum RotationKind {
    Clockwise,
    CounterClockwise,
}

/// The source position that pixel (x, y) of the rotated image reads from.
spec fn grid_source(kind: RotationKind, w: int, h: int, x: int, y: int) -> (int, int) {
    if kind == RotationKind::Clockwise {
        (y, h - 1 - x)
    } else {
        (w - 1 - y, x)
    }
}

/// Builds the rotated image by walking the destination grid row-major and
/// fetching each pixel from its source position.
fn rebuild_rotated(src: &RgbImage, kind: RotationKind) -> (r: RgbImage)
    requires
        src.wf(),
    ensures
        r.wf(),
        r.width == src.height,
        r.height == src.width,
        forall|xx: int, yy: int|
            0 <= xx < r.width && 0 <= yy < r.height ==> #[trigger] r.pixel(xx, yy) == src.pixel(
                grid_source(kind, src.width as int, src.height as int, xx, yy).0,
                grid_source(kind, src.width as int, src.height as int, xx, yy).1,
            ),
{
    let dst_w = src.height;
    let dst_h = src.width;
    let mut pixels: Vec<u8> = Vec::new();
    let mut yy: usize = 0;
    while yy < dst_h
        invariant
            src.wf(),
            dst_w == src.height,
            dst_h == src.width,
            yy <= dst_h,
            pixels@.len() == 3 * ((dst_w * yy) as int),
            forall|a: int, b: int|
                0 <= a < dst_w && 0 <= b < yy ==> #[trigger] pixel_of(pixels@, dst_w as int, a, b)
                    == src.pixel(
                    grid_source(kind, src.width as int, src.height as int, a, b).0,
                    grid_source(kind, src.width as int, src.height as int, a, b).1,
                ),
        decreases dst_h - yy,
    {
        let mut xx: usize = 0;
        while xx < dst_w
            invariant
                src.wf(),
                dst_w == src.height,
                dst_h == src.width,
                yy < dst_h,
                xx <= dst_w,
                pixels@.len() == 3 * ((dst_w * yy) as int + xx),
                forall|a: int, b: int|
                    0 <= a < dst_w && 0 <= b < yy ==> #[trigger] pixel_of(
                        pixels@, dst_w as int, a, b,
                    ) == src.pixel(
                        grid_source(kind, src.width as int, src.height as int, a, b).0,
                        grid_source(kind, src.width as int, src.height as int, a, b).1,
                    ),
                forall|a: int|
                    0 <= a < xx ==> #[trigger] pixel_of(pixels@, dst_w as int, a, yy as int)
                        == src.pixel(
                        grid_source(kind, src.width as int, src.height as int, a, yy as int).0,
                        grid_source(kind, src.width as int, src.height as int, a, yy as int).1,
                    ),
            decreases dst_w - xx,
        {
            let rgb = if kind == RotationKind::Clockwise {
                src.get_pixel(yy, src.height - 1 - xx)
            } else {
                src.get_pixel(src.width - 1 - yy, xx)
            };
            proof {
                lemma_push_pixel(pixels@, dst_w as int, xx as int, yy as int, rgb);
            }
            pixels.push(rgb.0);
            pixels.push(rgb.1);
            pixels.push(rgb.2);
            xx = xx + 1;
        }
        proof {
            lemma_mul_step(dst_w as int, yy as int);
        }
        yy = yy + 1;
    }
    proof {
        lemma_mul_commute(dst_w as int, dst_h as int);
    }
    RgbImage { width: dst_w, height: dst_h, pixels }
}

/// The three channel indices of pixel (x, y) lie inside a 3*(w*h) buffer.
pub proof fn lemma_pixel_index_bound(x: int, y: int, w: int, h: int)
    requires
        0 <= x < w,
        0 <= y < h,
    ensures
        0 <= y * w + x,
        y * w + x < w * h,
        0 <= 3 * (y * w + x),
        3 * (y * w + x) + 2 < 3 * (w * h),
{
    assert(y * w + x < w * h && 0 <= y * w + x) by (nonlinear_arith)
        requires
            0 <= x < w,
            0 <= y < h,
    ;
}

/// Distinct grid positions occupy distinct row-major slots.
pub proof fn lemma_row_major_injective(a: int, b: int, x: int, y: int, w: int, h: int)
    requires
        0 <= a < w,
        0 <= b < h,
        0 <= x < w,
        0 <= y < h,
        !(a == x && b == y),
    ensures
        b * w + a != y * w + x,
{
    if b != y {
        assert(b * w + a != y * w + x) by (nonlinear_arith)
            requires
                0 <= a < w,
                0 <= x < w,
                b != y,
        ;
    }
}

/// One more grid row takes exactly `w` more pixels.
proof fn lemma_mul_step(w: int, y: int)
    ensures
        w * (y + 1) == w * y + w,
{
    assert(w * (y + 1) == w * y + w) by (nonlinear_arith);
}

/// Multiplication commutes; stated for grid sizes.
proof fn lemma_mul_commute(a: int, b: int)
    ensures
        a * b == b * a,
{
}

/// Pushing three channel bytes puts the pushed pixel at grid position
/// (x, y) and leaves every pixel before it, row-major, in place.
proof fn lemma_push_pixel(pixels: Seq<u8>, w: int, x: int, y: int, rgb: (u8, u8, u8))
    requires
        0 <= x < w,
        0 <= y,
        pixels.len() == 3 * (w * y + x),
    ensures
        pixel_of(pixels.push(rgb.0).push(rgb.1).push(rgb.2), w, x, y) == rgb,
        forall|a: int, b: int|
            0 <= a < w && 0 <= b && (b < y || (b == y && a < x)) ==> #[trigger] pixel_of(
                pixels.push(rgb.0).push(rgb.1).push(rgb.2), w, a, b,
            ) == pixel_of(pixels, w, a, b),
{
    assert(w * y == y * w) by (nonlinear_arith);
    let pushed = pixels.push(rgb.0).push(rgb.1).push(rgb.2);
    assert(pushed.len() == pixels.len() + 3);
    assert(pushed[pixels.len() as int] == rgb.0);
    assert(pushed[pixels.len() as int + 1] == rgb.1);
    assert(pushed[pixels.len() as int + 2] == rgb.2);
    assert forall|a: int, b: int|
        0 <= a < w && 0 <= b && (b < y || (b == y && a < x)) implies #[trigger] pixel_of(
        pushed, w, a, b,
    ) == pixel_of(pixels, w, a, b) by {
        assert(0 <= b * w + a && b * w + a < y * w + x) by (nonlinear_arith)
            requires
                0 <= a < w,
                0 <= b,
                0 <= x < w,
                b < y || (b == y && a < x),
        ;
        assert(3 * (b * w + a) + 2 < 3 * (y * w + x));
    }
}

} // verus!
