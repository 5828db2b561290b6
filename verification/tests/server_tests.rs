use smart_picture_frame::cache::AppData;
use smart_picture_frame::encode::ProccessedImage;
use smart_picture_frame::immich::Immich;
use smart_picture_frame::network::NetworkConfig;
use smart_picture_frame::pipeline::{process_photos, FRAME_HALF_BYTES};

/// A P6 (binary) PPM image of the given size filled with one RGB color.
fn solid_ppm(width: u32, height: u32, rgb: (u8, u8, u8)) -> Vec<u8> {
    let mut bytes = format!("P6\n{} {}\n255\n", width, height).into_bytes();
    for _ in 0..width * height {
        bytes.push(rgb.0);
        bytes.push(rgb.1);
        bytes.push(rgb.2);
    }
    bytes
}

#[test]
fn empty_cache_yields_no_image() {
    let cache = AppData::new();
    assert!(cache.get_random_image().is_none());
}

#[test]
fn snapshot_is_one_of_the_cached_frames() {
    let cache = AppData::new();
    let a = ProccessedImage {
        left: vec![1, 2],
        right: vec![3, 4],
    };
    let b = ProccessedImage {
        left: vec![5, 6],
        right: vec![7, 8],
    };
    cache.set_images(vec![a.clone(), b.clone()]);
    for _ in 0..20 {
        let f = cache.get_random_image().expect("cache is filled");
        let is_a = f.left == a.left && f.right == a.right;
        let is_b = f.left == b.left && f.right == b.right;
        assert!(is_a || is_b);
    }
}

#[test]
fn replacing_the_cache_swaps_the_whole_set() {
    // After a refresh, snapshots come only from the new set: no reader
    // mixes frames of two sets.
    let cache = AppData::new();
    let old_frame = ProccessedImage {
        left: vec![1; 4],
        right: vec![1; 4],
    };
    cache.set_images(vec![old_frame]);
    let new_frame = ProccessedImage {
        left: vec![2; 4],
        right: vec![2; 4],
    };
    cache.set_images(vec![new_frame]);
    for _ in 0..10 {
        let f = cache.get_random_image().expect("cache is filled");
        assert_eq!(f.left, vec![2; 4]);
        assert_eq!(f.right, vec![2; 4]);
    }
}

#[test]
fn immich_urls_are_exact() {
    let api = Immich::new(
        String::from("http://photos.local/api"),
        String::from("SECRET-REDACTED"),
    );
    assert_eq!(
        api.album_url(&String::from("1234-abcd")),
        "http://photos.local/api/albums/1234-abcd?apiKey=SECRET-REDACTED"
    );
    assert_eq!(
        api.photo_url(&String::from("asset-9")),
        "http://photos.local/api/assets/asset-9/original?apiKey=SECRET-REDACTED"
    );
}

#[test]
fn network_config_carries_the_credentials() {
    let cfg = NetworkConfig::new("frame-net", "pass-phrase");
    assert_eq!(cfg.ssid, "frame-net");
    assert_eq!(cfg.password, "pass-phrase");
}

#[test]
fn refresh_skips_undecodable_photos() {
    let photos = vec![
        solid_ppm(4, 3, (0, 255, 0)),
        vec![0xDE, 0xAD, 0xBE, 0xEF],
        solid_ppm(8, 6, (255, 255, 255)),
    ];
    let frames = process_photos(&photos);
    assert_eq!(frames.len(), 2);
    for f in &frames {
        assert_eq!(f.left.len(), FRAME_HALF_BYTES);
        assert_eq!(f.right.len(), FRAME_HALF_BYTES);
    }
    // A solid green photo encodes to green pixel pairs: code 6 in both
    // nibbles of every byte.
    assert!(frames[0].left.iter().all(|b| *b == 0x66));
    assert!(frames[0].right.iter().all(|b| *b == 0x66));
    assert!(frames[1].left.iter().all(|b| *b == 0x11));
}
