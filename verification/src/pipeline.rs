//! The refresh pipeline: from raw photo bytes to cached panel frames.
//!
//! A refresh takes every photo of the album, quantizes and encodes it,
//! and keeps the frames of the photos that decoded; a photo that fails
//! to decode is skipped, and the rest of the album goes on.

use vstd::prelude::*;

use crate::encode::{ProccessedImage, is_encoding_of};
use crate::frame::RgbImage;
use crate::quantize::{TARGET_HEIGHT, TARGET_WIDTH, decodable, is_processed_output, is_quantized,
    process_image};

verus! {

/// Bytes per half-panel buffer of one encoded frame: half the packed
/// bytes of a 1600 x 1200 frame.
pub const FRAME_HALF_BYTES: usize = 480000;

/// `f` is the frame the pipeline makes of the photo `bytes`: the panel
/// encoding of the photo's quantized image.
pub open spec fn is_frame_of(bytes: Seq<u8>, f: ProccessedImage) -> bool {
    exists|q: RgbImage|
        {
            &&& q.wf()
            &&& q.width == TARGET_WIDTH
            &&& q.height == TARGET_HEIGHT
            &&& is_quantized(q)
            &&& is_processed_output(bytes, q.pixels@)
            &&& #[trigger] is_encoding_of(f, q)
        }
}

/// How many of the first `n` photo byte buffers decode.
pub open spec fn decodable_count(photos: Seq<Vec<u8>>, n: int) -> int
    decreases n,
{
    if n <= 0 {
        0
    } else {
        decodable_count(photos, n - 1) + if decodable(photos[n - 1]@) {
            1int
        } else {
            0int
        }
    }
}

/// The frames are exactly the encodings of the decodable photos, in
/// album order: `srcs` names each frame's photo.
pub open spec fn frames_match_photos(
    photos: Seq<Vec<u8>>,
    frames: Seq<ProccessedImage>,
    srcs: Seq<int>,
) -> bool {
    &&& srcs.len() == frames.len()
    &&& forall|k: int| 0 <= k < srcs.len() ==> 0 <= #[trigger] srcs[k] < photos.len()
    &&& forall|k1: int, k2: int|
        0 <= k1 < k2 < srcs.len() ==> #[trigger] srcs[k1] < #[trigger] srcs[k2]
    &&& forall|k: int|
        0 <= k < srcs.len() ==> is_frame_of(photos[#[trigger] srcs[k]]@, frames[k])
    &&& forall|j: int|
        0 <= j < photos.len() && decodable(#[trigger] photos[j]@) ==> exists|k: int|
            0 <= k < srcs.len() && srcs[k] == j
}

/// Quantizes and encodes every photo of the set, skipping the ones that
/// do not decode: one frame per decodable photo, in album order, each
/// the encoding of its photo's quantized image, with equal panel
/// buffers of `FRAME_HALF_BYTES` bytes.
pub fn process_photos(photos: &Vec<Vec<u8>>) -> (r: Vec<ProccessedImage>)
    ensures
        r@.len() == decodable_count(photos@, photos@.len() as int),
        forall|k: int| 0 <= k < r@.len() ==> (#[trigger] r@[k]).wf(),
        forall|k: int|
            0 <= k < r@.len() ==> (#[trigger] r@[k]).left@.len() == FRAME_HALF_BYTES
                && r@[k].right@.len() == FRAME_HALF_BYTES,
        exists|srcs: Seq<int>| #[trigger] frames_match_photos(photos@, r@, srcs),
{
    let mut r: Vec<ProccessedImage> = Vec::new();
    let ghost mut srcs: Seq<int> = Seq::empty();
    let mut i: usize = 0;
    while i < photos.len()
        invariant
            i <= photos@.len(),
            r@.len() == decodable_count(photos@, i as int),
            srcs.len() == r@.len(),
            forall|k: int| 0 <= k < r@.len() ==> (#[trigger] r@[k]).wf(),
            forall|k: int|
                0 <= k < r@.len() ==> (#[trigger] r@[k]).left@.len() == FRAME_HALF_BYTES
                    && r@[k].right@.len() == FRAME_HALF_BYTES,
            forall|k: int| 0 <= k < srcs.len() ==> 0 <= #[trigger] srcs[k] < i,
            forall|k1: int, k2: int|
                0 <= k1 < k2 < srcs.len() ==> #[trigger] srcs[k1] < #[trigger] srcs[k2],
            forall|k: int|
                0 <= k < srcs.len() ==> is_frame_of(photos@[#[trigger] srcs[k]]@, r@[k]),
            forall|j: int|
                0 <= j < i && decodable(#[trigger] photos@[j]@) ==> exists|k: int|
                    0 <= k < srcs.len() && srcs[k] == j,
        decreases photos@.len() - i,
    {
        match process_image(&photos[i]) {
            Ok(q) => {
                let frame = ProccessedImage::from(&q);
                let ghost srcs0 = srcs;
                proof {
                    assert(is_encoding_of(frame, q));
                    assert(is_frame_of(photos@[i as int]@, frame));
                    assert(frame.left@.len() + frame.right@.len() == (q.width * q.height) / 2);
                    srcs = srcs.push(i as int);
                }
                r.push(frame);
                proof {
                    assert forall|j: int|
                        0 <= j < i + 1 && decodable(#[trigger] photos@[j]@) implies exists|k: int|
                        0 <= k < srcs.len() && srcs[k] == j by {
                        if j == i as int {
                            assert(srcs[srcs.len() - 1] == j);
                        } else {
                            let k = choose|k: int| 0 <= k < srcs0.len() && srcs0[k] == j;
                            assert(srcs[k] == j && 0 <= k < srcs.len());
                        }
                    }
                }
            },
            Err(_) => {
                proof {
                    assert(!decodable(photos@[i as int]@));
                }
            },
        }
        i = i + 1;
    }
    proof {
        assert(frames_match_photos(photos@, r@, srcs));
    }
    r
}

} // verus!
