//! The fixed six-color palette of the panel.
//!
//! Each color carries a 4-bit device code; the codes are non-contiguous
//! (0, 1, 2, 3, 5, 6) and are part of the hardware protocol, so they must be
//! preserved exactly.

use vstd::prelude::*;

verus! {

/// Number of colors in the palette.
pub const PALETTE_LEN: usize = 6;

/// One of the six ink colors the panel can show, in declared palette order.
#[derive(Copy, Clone, Debug, PartialEq, Eq, Structural)]
pub enum Color {
    Black,
    White,
    Yellow,
    Red,
    Blue,
    Green,
}

impl Color {
    /// The 4-bit device color code. The codes skip 4: blue is 5 and green 6.
    pub open spec fn spec_code(self) -> u8 {
        match self {
            Color::Black => 0,
            Color::White => 1,
            Color::Yellow => 2,
            Color::Red => 3,
            Color::Blue => 5,
            Color::Green => 6,
        }
    }

    /// The RGB triple that represents this color in a quantized image.
    pub open spec fn spec_rgb(self) -> (u8, u8, u8) {
        match self {
            Color::Black => (0, 0, 0),
            Color::White => (255, 255, 255),
            Color::Yellow => (255, 255, 0),
            Color::Red => (255, 0, 0),
            Color::Blue => (0, 0, 255),
            Color::Green => (0, 255, 0),
        }
    }

    /// Returns the 4-bit device color code of this color.
    pub fn code(self) -> (c: u8)
        ensures
            c == self.spec_code(),
            c < 16,
    {
        match self {
            Color::Black => 0,
            Color::White => 1,
            Color::Yellow => 2,
            Color::Red => 3,
            Color::Blue => 5,
            Color::Green => 6,
        }
    }

    /// Returns the RGB triple of this color.
    pub fn rgb(self) -> (rgb: (u8, u8, u8))
        ensures
            rgb == self.spec_rgb(),
    {
        match self {
            Color::Black => (0, 0, 0),
            Color::White => (255, 255, 255),
            Color::Yellow => (255, 255, 0),
            Color::Red => (255, 0, 0),
            Color::Blue => (0, 0, 255),
            Color::Green => (0, 255, 0),
        }
    }
}

/// The palette color at position `i` in declared order.
pub open spec fn spec_palette(i: int) -> Color {
    if i == 0 {
        Color::Black
    } else if i == 1 {
        Color::White
    } else if i == 2 {
        Color::Yellow
    } else if i == 3 {
        Color::Red
    } else if i == 4 {
        Color::Blue
    } else {
        Color::Green
    }
}

/// Returns the palette color at position `i` in declared order.
pub fn palette_at(i: usize) -> (c: Color)
    requires
        i < PALETTE_LEN,
    ensures
        c == spec_palette(i as int),
{
    if i == 0 {
        Color::Black
    } else if i == 1 {
        Color::White
    } else if i == 2 {
        Color::Yellow
    } else if i == 3 {
        Color::Red
    } else if i == 4 {
        Color::Blue
    } else {
        Color::Green
    }
}

/// Does this RGB triple equal one of the six palette colors exactly?
pub open spec fn is_palette_rgb(rgb: (u8, u8, u8)) -> bool {
    exists|i: int| 0 <= i < 6 && spec_palette(i).spec_rgb() == rgb
}

/// The color whose RGB triple this is; meaningful only when
/// `is_palette_rgb(rgb)` holds.
pub open spec fn spec_color_of_rgb(rgb: (u8, u8, u8)) -> Color {
    choose|c: Color| c.spec_rgb() == rgb
}

/// The color carrying this device code; meaningful only for the six codes.
pub open spec fn spec_color_of_code(code: u8) -> Color {
    choose|c: Color| c.spec_code() == code
}

/// Is this one of the six device color codes?
pub open spec fn is_palette_code(code: u8) -> bool {
    code == 0 || code == 1 || code == 2 || code == 3 || code == 5 || code == 6
}

/// Looks a color up by its device code.
pub fn color_from_code(code: u8) -> (c: Option<Color>)
    ensures
        c is Some <==> is_palette_code(code),
        c matches Some(col) ==> col.spec_code() == code && col == spec_color_of_code(code),
{
    let c = if code == 0 {
        Some(Color::Black)
    } else if code == 1 {
        Some(Color::White)
    } else if code == 2 {
        Some(Color::Yellow)
    } else if code == 3 {
        Some(Color::Red)
    } else if code == 5 {
        Some(Color::Blue)
    } else if code == 6 {
        Some(Color::Green)
    } else {
        None
    };
    proof {
        if let Some(col) = c {
            assert(spec_color_of_code(code).spec_code() == code) by {
                assert(col.spec_code() == code);
            }
            lemma_code_injective(col, spec_color_of_code(code));
        }
    }
    c
}

/// Looking a palette RGB triple up by value yields the color it came from.
pub proof fn lemma_color_of_rgb_round(rgb: (u8, u8, u8))
    requires
        is_palette_rgb(rgb),
    ensures
        spec_color_of_rgb(rgb).spec_rgb() == rgb,
{
    let i = choose|i: int| 0 <= i < 6 && spec_palette(i).spec_rgb() == rgb;
    assert(spec_palette(i).spec_rgb() == rgb);
}

/// Looking a color's device code up yields the color back.
pub proof fn lemma_color_of_code_round(c: Color)
    ensures
        spec_color_of_code(c.spec_code()) == c,
{
    assert(spec_color_of_code(c.spec_code()).spec_code() == c.spec_code()) by {
        assert(c.spec_code() == c.spec_code());
    }
    lemma_code_injective(c, spec_color_of_code(c.spec_code()));
}

/// Distinct colors never share a device code.
pub proof fn lemma_code_injective(a: Color, b: Color)
    ensures
        a.spec_code() == b.spec_code() ==> a == b,
{
}

/// Distinct colors never share an RGB triple.
pub proof fn lemma_rgb_injective(a: Color, b: Color)
    ensures
        a.spec_rgb() == b.spec_rgb() ==> a == b,
{
}

/// Squared Euclidean distance between two RGB triples.
pub open spec fn spec_color_distance(a: (u8, u8, u8), b: (u8, u8, u8)) -> int {
    (a.0 - b.0) * (a.0 - b.0) + (a.1 - b.1) * (a.1 - b.1) + (a.2 - b.2) * (a.2 - b.2)
}

/// Computes the squared Euclidean distance between two RGB triples.
pub fn color_distance(a: (u8, u8, u8), b: (u8, u8, u8)) -> (d: u32)
    ensures
        d == spec_color_distance(a, b),
        d <= 195075,
{
    let dr = a.0 as i32 - b.0 as i32;
    let dg = a.1 as i32 - b.1 as i32;
    let db = a.2 as i32 - b.2 as i32;
    proof {
        assert(0 <= dr * dr <= 65025) by (nonlinear_arith)
            requires -255 <= dr <= 255;
        assert(0 <= dg * dg <= 65025) by (nonlinear_arith)
            requires -255 <= dg <= 255;
        assert(0 <= db * db <= 65025) by (nonlinear_arith)
            requires -255 <= db <= 255;
    }
    (dr * dr + dg * dg + db * db) as u32
}

/// Index of the palette entry nearest to `rgb`; ties go to the
/// first-declared palette entry.
pub open spec fn is_nearest_index(rgb: (u8, u8, u8), i: int) -> bool {
    &&& 0 <= i < 6
    &&& forall|j: int|
        0 <= j < 6 ==> spec_color_distance(spec_palette(i).spec_rgb(), rgb)
            <= spec_color_distance(spec_palette(j).spec_rgb(), rgb)
    &&& forall|j: int|
        0 <= j < i ==> spec_color_distance(spec_palette(j).spec_rgb(), rgb)
            > spec_color_distance(spec_palette(i).spec_rgb(), rgb)
}

/// Finds the palette entry nearest to `rgb` by squared Euclidean distance,
/// breaking ties in favor of the first-declared entry.
pub fn nearest_palette_index(rgb: (u8, u8, u8)) -> (i: usize)
    ensures
        i < PALETTE_LEN,
        is_nearest_index(rgb, i as int),
{
    let mut best: usize = 0;
    let mut best_dist: u32 = color_distance(palette_at(0).rgb(), rgb);
    let mut j: usize = 1;
    while j < PALETTE_LEN
        invariant
            1 <= j <= PALETTE_LEN,
            best < j,
            best_dist == spec_color_distance(spec_palette(best as int).spec_rgb(), rgb),
            forall|k: int|
                0 <= k < j ==> spec_color_distance(spec_palette(best as int).spec_rgb(), rgb)
                    <= spec_color_distance(spec_palette(k).spec_rgb(), rgb),
            forall|k: int|
                0 <= k < best ==> spec_color_distance(spec_palette(k).spec_rgb(), rgb)
                    > spec_color_distance(spec_palette(best as int).spec_rgb(), rgb),
        decreases PALETTE_LEN - j,
    {
        let d = color_distance(palette_at(j).rgb(), rgb);
        if d < best_dist {
            best = j;
            best_dist = d;
        }
        j = j + 1;
    }
    best
}

/// The device code of a palette RGB triple; the encoder's fatal-error path
/// for non-palette triples is ruled out by the precondition, which the
/// quantizer's guarantee discharges.
pub fn map_color_to_byte(rgb: (u8, u8, u8)) -> (code: u8)
    requires
        is_palette_rgb(rgb),
    ensures
        code == spec_color_of_rgb(rgb).spec_code(),
        is_palette_code(code),
        code < 16,
{
    let c = if rgb.0 == 0 && rgb.1 == 0 && rgb.2 == 0 {
        Color::Black
    } else if rgb.0 == 255 && rgb.1 == 255 && rgb.2 == 255 {
        Color::White
    } else if rgb.0 == 255 && rgb.1 == 255 && rgb.2 == 0 {
        Color::Yellow
    } else if rgb.0 == 255 && rgb.1 == 0 && rgb.2 == 0 {
        Color::Red
    } else if rgb.0 == 0 && rgb.1 == 0 && rgb.2 == 255 {
        Color::Blue
    } else {
        Color::Green
    };
    proof {
        assert(c.spec_rgb() == rgb) by {
            let i = choose|i: int| 0 <= i < 6 && spec_palette(i).spec_rgb() == rgb;
            assert(spec_palette(i).spec_rgb() == rgb);
        }
        lemma_rgb_injective(c, spec_color_of_rgb(rgb));
        assert(spec_color_of_rgb(rgb).spec_rgb() == rgb) by {
            assert(c.spec_rgb() == rgb);
        }
    }
    c.code()
}

} // verus!
