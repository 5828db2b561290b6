use smart_picture_frame::encode::{pack_colors, unpack_byte, ProccessedImage};
use smart_picture_frame::frame::RgbImage;
use smart_picture_frame::palette::Color;
use smart_picture_frame::palette::Color::{Black as B, Blue as L, Green as G, Red as R, White as W, Yellow as Y};

/// Builds an image from a grid of palette colors (row-major).
fn image_of(width: usize, height: usize, colors: &[Color]) -> RgbImage {
    assert_eq!(colors.len(), width * height);
    let mut pixels = Vec::new();
    for c in colors {
        let (r, g, b) = c.rgb();
        pixels.push(r);
        pixels.push(g);
        pixels.push(b);
    }
    RgbImage::from_raw(width, height, pixels)
}

#[test]
fn black_white_row_packs_to_0x01() {
    // The synthetic fixture: codes 0 and 1 pack as 0x01, high nibble
    // first.
    assert_eq!(pack_colors(Color::Black, Color::White), 0x01);
    assert_eq!(pack_colors(Color::Yellow, Color::Red), 0x23);
    assert_eq!(pack_colors(Color::Blue, Color::Green), 0x56);
    assert_eq!(pack_colors(Color::Green, Color::Black), 0x60);
}

#[test]
fn unpack_byte_inverts_packing() {
    assert_eq!(unpack_byte(0x01), Some((Color::Black, Color::White)));
    assert_eq!(unpack_byte(0x23), Some((Color::Yellow, Color::Red)));
    assert_eq!(unpack_byte(0x56), Some((Color::Blue, Color::Green)));
    // 4 and 7 are not palette codes.
    assert_eq!(unpack_byte(0x41), None);
    assert_eq!(unpack_byte(0x17), None);
}

#[test]
fn four_by_four_encoding_is_exact() {
    let img = image_of(
        4,
        4,
        &[
            B, W, Y, R, // row 0
            W, B, R, Y, // row 1
            G, L, B, W, // row 2
            R, Y, G, L, // row 3
        ],
    );
    let f = ProccessedImage::from(&img);
    // Half a byte per pixel, split evenly.
    assert_eq!(f.left.len(), 4);
    assert_eq!(f.right.len(), 4);

    // The encoder walks the 270-degree-rotated image: rotated pixel
    // (x, y) is source pixel (width-1-y, x). Rotated row 0 is the
    // source's rightmost column read top to bottom: R, Y, W, L.
    assert_eq!(f.left[0], pack_colors(R, Y));
    assert_eq!(f.right[0], pack_colors(W, L));
    // Rotated row 1: source column 2 top to bottom: Y, R, B, G.
    assert_eq!(f.left[1], pack_colors(Y, R));
    assert_eq!(f.right[1], pack_colors(B, G));
    // Rotated row 2: source column 1: W, B, L, Y.
    assert_eq!(f.left[2], pack_colors(W, B));
    assert_eq!(f.right[2], pack_colors(L, Y));
    // Rotated row 3: source column 0: B, W, G, R.
    assert_eq!(f.left[3], pack_colors(B, W));
    assert_eq!(f.right[3], pack_colors(G, R));
}

#[test]
fn round_trip_reproduces_the_rotated_image() {
    let img = image_of(
        4,
        8,
        &[
            B, W, Y, R, //
            W, B, R, Y, //
            G, L, B, W, //
            R, Y, G, L, //
            Y, G, L, B, //
            L, R, W, G, //
            B, B, W, W, //
            G, Y, R, L, //
        ],
    );
    let f = ProccessedImage::from(&img);
    let rot = img.rotate270();
    assert_eq!(rot.width, 8);
    assert_eq!(rot.height, 4);
    let half = rot.width / 4; // bytes per row per panel

    for y in 0..rot.height {
        for j in 0..half {
            let (a, b) = unpack_byte(f.left[y * half + j]).expect("palette codes");
            assert_eq!(a.rgb(), rot.get_pixel(2 * j, y));
            assert_eq!(b.rgb(), rot.get_pixel(2 * j + 1, y));

            let (c, d) = unpack_byte(f.right[y * half + j]).expect("palette codes");
            assert_eq!(c.rgb(), rot.get_pixel(2 * j + rot.width / 2, y));
            assert_eq!(d.rgb(), rot.get_pixel(2 * j + 1 + rot.width / 2, y));
        }
    }
}

#[test]
fn full_frame_buffers_have_the_panel_size() {
    // A full-resolution solid image encodes to two 480000-byte buffers.
    let mut pixels = Vec::with_capacity(1600 * 1200 * 3);
    for _ in 0..1600 * 1200 {
        pixels.push(255);
        pixels.push(0);
        pixels.push(0);
    }
    let img = RgbImage::from_raw(1600, 1200, pixels);
    let f = ProccessedImage::from(&img);
    assert_eq!(f.left.len(), 480000);
    assert_eq!(f.right.len(), 480000);
    // Two red pixels pack as 0x33.
    assert_eq!(f.left[0], 0x33);
    assert_eq!(f.right[479999], 0x33);
}
