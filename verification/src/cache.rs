//! The server's frame cache.
//!
//! A background task periodically re-encodes the photo set and replaces
//! the cache contents in one step; connection handlers take a snapshot of
//! one frame. The cache is a reader-writer lock around the whole frame
//! vector: a replacement swaps the vector atomically, so no reader ever
//! observes a mix of two photo sets, and the lock's invariant keeps every
//! stored frame complete and self-consistent.

use vstd::prelude::*;
use vstd::rwlock::{RwLock, RwLockPredicate};

use crate::encode::ProccessedImage;

verus! {

/// The lock invariant of the cache: every stored frame is well formed
/// (its two panel buffers are the same length), so any snapshot a reader
/// takes is a complete frame.
pub struct FrameSetInv {}

impl RwLockPredicate<Vec<ProccessedImage>> for FrameSetInv {
    open spec fn inv(self, v: Vec<ProccessedImage>) -> bool {
        forall|i: int| 0 <= i < v@.len() ==> (#[trigger] v@[i]).wf()
    }
}

/// The shared frame cache: the current set of pre-encoded frames, one
/// entry per photo, replaced wholesale on refresh.
pub struct AppData {
    /// The frames, behind a reader-writer lock whose invariant keeps
    /// each one complete.
    images: RwLock<Vec<ProccessedImage>, FrameSetInv>,
}

impl AppData {
    /// An empty cache.
    pub fn new() -> (r: Self)
    {
        let images = RwLock::new(Vec::new(), Ghost(FrameSetInv {}));
        AppData { images }
    }

    /// Replaces the whole frame set in one step: readers see either the
    /// old set or the new one, never a mixture.
    pub fn set_images(&self, images: Vec<ProccessedImage>)
        requires
            forall|i: int| 0 <= i < images@.len() ==> (#[trigger] images@[i]).wf(),
    {
        let (old_images, handle) = self.images.acquire_write();
        handle.release_write(images);
    }

    /// Takes a snapshot of one randomly selected frame, or nothing while
    /// the cache is empty. The whole snapshot is cloned under a single
    /// read guard of the one atomically replaced vector, so it is one
    /// complete frame installed by a single `set_images` call: a
    /// concurrent refresh can never yield a frame mixing bytes of two
    /// photo sets. That discipline is enforced by the lock itself; what
    /// a `&self` contract can state of the hidden contents -- that every
    /// snapshot is a well-formed frame -- is stated below.
    pub fn get_random_image(&self) -> (r: Option<ProccessedImage>)
        ensures
            r matches Some(f) ==> f.wf(),
    {
        let handle = self.images.acquire_read();
        let frames = handle.borrow();
        let n = frames.len();
        if n == 0 {
            handle.release_read();
            return None;
        }
        let i = random_below(n);
        let frame = frames[i].clone();
        handle.release_read();
        Some(frame)
    }
}

/// Relies on rand::random_range over `0..n`: yields a uniformly random
/// index below `n`; the range is non-empty, so the call cannot panic.
/// Nothing beyond the bound is assumed of the outcome.
#[verifier::external_body]
fn random_below(n: usize) -> (r: usize)
    requires
        n > 0,
    ensures
        r < n,
{
    rand::random_range(0..n)
}

} // verus!
