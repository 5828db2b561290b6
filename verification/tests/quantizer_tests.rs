use smart_picture_frame::errors::DeliveryError;
use smart_picture_frame::frame::RgbImage;
use smart_picture_frame::palette::{
    color_distance, color_from_code, map_color_to_byte, nearest_palette_index, palette_at, Color,
};
use smart_picture_frame::quantize::{calculate_crop_cordinates, process_image, quantize_dither};

/// A P6 (binary) PPM image of the given size filled with one RGB color.
fn solid_ppm(width: u32, height: u32, rgb: (u8, u8, u8)) -> Vec<u8> {
    let mut bytes = format!("P6\n{} {}\n255\n", width, height).into_bytes();
    for _ in 0..width * height {
        bytes.push(rgb.0);
        bytes.push(rgb.1);
        bytes.push(rgb.2);
    }
    bytes
}

#[test]
fn palette_codes_are_the_device_codes() {
    assert_eq!(Color::Black.code(), 0);
    assert_eq!(Color::White.code(), 1);
    assert_eq!(Color::Yellow.code(), 2);
    assert_eq!(Color::Red.code(), 3);
    assert_eq!(Color::Blue.code(), 5);
    assert_eq!(Color::Green.code(), 6);
}

#[test]
fn palette_rgb_triples() {
    assert_eq!(Color::Black.rgb(), (0, 0, 0));
    assert_eq!(Color::White.rgb(), (255, 255, 255));
    assert_eq!(Color::Yellow.rgb(), (255, 255, 0));
    assert_eq!(Color::Red.rgb(), (255, 0, 0));
    assert_eq!(Color::Blue.rgb(), (0, 0, 255));
    assert_eq!(Color::Green.rgb(), (0, 255, 0));
}

#[test]
fn color_from_code_inverts_code() {
    for i in 0..6 {
        let c = palette_at(i);
        assert_eq!(color_from_code(c.code()), Some(c));
    }
    assert_eq!(color_from_code(4), None);
    assert_eq!(color_from_code(7), None);
    assert_eq!(color_from_code(0xFF), None);
}

#[test]
fn distance_is_squared_euclidean() {
    assert_eq!(color_distance((0, 0, 0), (255, 255, 255)), 195075);
    assert_eq!(color_distance((10, 20, 30), (10, 20, 30)), 0);
    assert_eq!(color_distance((10, 0, 0), (0, 0, 0)), 100);
    assert_eq!(color_distance((0, 3, 4), (0, 0, 0)), 25);
}

#[test]
fn nearest_picks_the_closest_palette_entry() {
    assert_eq!(nearest_palette_index((5, 5, 5)), 0); // near black
    assert_eq!(nearest_palette_index((250, 250, 250)), 1); // near white
    assert_eq!(nearest_palette_index((250, 250, 5)), 2); // near yellow
    assert_eq!(nearest_palette_index((250, 5, 5)), 3); // near red
    assert_eq!(nearest_palette_index((5, 5, 250)), 4); // near blue
    assert_eq!(nearest_palette_index((5, 250, 5)), 5); // near green
    // Middle gray: white at distance 3*127^2 beats black at 3*128^2.
    assert_eq!(nearest_palette_index((128, 128, 128)), 1);
}

#[test]
fn map_palette_rgb_to_device_code() {
    assert_eq!(map_color_to_byte((0, 0, 0)), 0);
    assert_eq!(map_color_to_byte((255, 255, 255)), 1);
    assert_eq!(map_color_to_byte((255, 255, 0)), 2);
    assert_eq!(map_color_to_byte((255, 0, 0)), 3);
    assert_eq!(map_color_to_byte((0, 0, 255)), 5);
    assert_eq!(map_color_to_byte((0, 255, 0)), 6);
}

#[test]
fn crop_keeps_a_4_3_image_whole() {
    assert_eq!(calculate_crop_cordinates(4000, 3000), (0, 0, 4000, 3000));
    assert_eq!(calculate_crop_cordinates(4, 3), (0, 0, 4, 3));
}

#[test]
fn crop_cuts_a_wide_image_symmetrically() {
    // 1920x1080: 4:3 width of 1080 rows is 1440; 480 cut, 240 a side.
    assert_eq!(calculate_crop_cordinates(1920, 1080), (240, 0, 1440, 1080));
}

#[test]
fn crop_cuts_a_tall_image_symmetrically() {
    // 1080x1920: 4:3 height of 1080 columns is 810; 1110 cut, 555 a side.
    assert_eq!(calculate_crop_cordinates(1080, 1920), (0, 555, 1080, 810));
}

#[test]
fn crop_rounds_the_reduced_side() {
    // 3w = 30 > 4h = 28: width becomes round(4*7/3) = round(9.33) = 9.
    assert_eq!(calculate_crop_cordinates(10, 7), (0, 0, 9, 7));
}

#[test]
fn rotate90_turns_portrait_to_landscape() {
    // 2x3 portrait with distinct pixels.
    let pixels: Vec<u8> = vec![
        1, 1, 1, 2, 2, 2, // row 0
        3, 3, 3, 4, 4, 4, // row 1
        5, 5, 5, 6, 6, 6, // row 2
    ];
    let img = RgbImage::from_raw(2, 3, pixels);
    let r = img.rotate90();
    assert_eq!(r.width, 3);
    assert_eq!(r.height, 2);
    // Clockwise: dst(x, y) == src(y, height-1-x).
    assert_eq!(r.get_pixel(0, 0), (5, 5, 5));
    assert_eq!(r.get_pixel(1, 0), (3, 3, 3));
    assert_eq!(r.get_pixel(2, 0), (1, 1, 1));
    assert_eq!(r.get_pixel(0, 1), (6, 6, 6));
    assert_eq!(r.get_pixel(2, 1), (2, 2, 2));
}

#[test]
fn quantize_dither_leaves_only_palette_colors() {
    // A gradient image; after dithering every pixel is a palette triple.
    let w = 64usize;
    let h = 48usize;
    let mut pixels = Vec::new();
    for y in 0..h {
        for x in 0..w {
            pixels.push((x * 4) as u8);
            pixels.push((y * 5) as u8);
            pixels.push(((x + y) * 2) as u8);
        }
    }
    let mut img = RgbImage::from_raw(w, h, pixels);
    quantize_dither(&mut img);
    let palette = [
        (0, 0, 0),
        (255, 255, 255),
        (255, 255, 0),
        (255, 0, 0),
        (0, 0, 255),
        (0, 255, 0),
    ];
    for y in 0..h {
        for x in 0..w {
            let p = img.get_pixel(x, y);
            assert!(palette.contains(&p), "pixel ({}, {}) = {:?}", x, y, p);
        }
    }
}

#[test]
fn process_image_rejects_garbage() {
    let r = process_image(&vec![0, 1, 2, 3, 4, 5]);
    assert_eq!(r.err(), Some(DeliveryError::DecodeError));
}

#[test]
fn process_image_quantizes_a_solid_red_photo() {
    // Decode, crop (none needed: 4:3), Lanczos resize and dithering of a
    // solid red photo give a full-resolution solid red frame.
    let bytes = solid_ppm(400, 300, (255, 0, 0));
    let img = process_image(&bytes).expect("valid photo");
    assert_eq!(img.width, 1600);
    assert_eq!(img.height, 1200);
    for y in (0..1200).step_by(37) {
        for x in (0..1600).step_by(41) {
            assert_eq!(img.get_pixel(x, y), (255, 0, 0));
        }
    }
    assert_eq!(img.get_pixel(0, 0), (255, 0, 0));
    assert_eq!(img.get_pixel(1599, 1199), (255, 0, 0));
}

#[test]
fn process_image_rotates_portrait_input() {
    // A portrait photo comes out landscape at the fixed resolution.
    let bytes = solid_ppm(300, 400, (0, 0, 255));
    let img = process_image(&bytes).expect("valid photo");
    assert_eq!(img.width, 1600);
    assert_eq!(img.height, 1200);
    assert_eq!(img.get_pixel(800, 600), (0, 0, 255));
}
