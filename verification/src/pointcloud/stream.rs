use std::sync::Arc;

use vstd::prelude::*;
use vstd::rwlock::{RwLock, RwLockPredicate};

use super::frame::PointCloudFrame;

verus! {

/// The lock invariant of a stream: any frame, or none, may be held.
pub struct AnyFrame;

impl RwLockPredicate<Option<PointCloudFrame>> for AnyFrame {
    open spec fn inv(self, latest: Option<PointCloudFrame>) -> bool {
        true
    }
}

/// Holds only the most recent frame, so that a slow consumer skips the frames
/// it had no time for. Clones share the same slot.
#[derive(Clone)]
pub struct LatestFrameStream {
    frame: Arc<RwLock<Option<PointCloudFrame>, AnyFrame>>,
}

/// Puts `frame` in the slot, dropping any frame that was not taken.
pub fn replace_latest(slot: &mut Option<PointCloudFrame>, frame: PointCloudFrame)
    ensures
        *final(slot) == Some(frame),
{
    *slot = Some(frame);
}

/// Takes the frame out of the slot, leaving it empty.
pub fn take_latest(slot: &mut Option<PointCloudFrame>) -> (taken: Option<PointCloudFrame>)
    ensures
        taken == *old(slot),
        *final(slot) is None,
{
    slot.take()
}

impl LatestFrameStream {
    /// A stream with no frame.
    pub fn new() -> (s: Self) {
        LatestFrameStream { frame: Arc::new(RwLock::new(None, Ghost(AnyFrame))) }
    }

    /// Makes `frame` the latest frame, replacing one not yet taken.
    pub fn push(&self, frame: PointCloudFrame) {
        let (mut latest, handle) = self.frame.acquire_write();
        replace_latest(&mut latest, frame);
        handle.release_write(latest);
    }

    /// Takes the latest frame, if one was pushed since the last take.
    pub fn take(&self) -> (taken: Option<PointCloudFrame>) {
        let (mut latest, handle) = self.frame.acquire_write();
        let taken = take_latest(&mut latest);
        handle.release_write(latest);
        taken
    }
}

impl Default for LatestFrameStream {
    fn default() -> (s: Self) {
        LatestFrameStream::new()
    }
}

} // verus!
