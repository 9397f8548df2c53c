//! Scoped handles to a pinned frame.
//!
//! A guard is created by the pool when a page is fetched and pinned, and
//! given back to the pool to release the pin.  A `ReadPageGuard` shares
//! its frame with other readers; a `WritePageGuard` holds the frame
//! exclusively.  The pool's operations say what may be done while a
//! guard is live; `BufferPoolManager::read_guard_valid` and
//! `write_guard_valid` tie a guard to the pool state.

use vstd::prelude::*;

verus! {

/// Shared, pinned handle to one frame.
pub struct ReadPageGuard {
    frame_id: usize,
    page_id: usize,
}

/// Exclusive, pinned handle to one frame.
pub struct WritePageGuard {
    frame_id: usize,
    page_id: usize,
}

impl ReadPageGuard {
    /// Frame this guard pins.
    pub closed spec fn spec_frame_id(self) -> usize {
        self.frame_id
    }

    /// Page this guard was taken on.
    pub closed spec fn spec_page_id(self) -> usize {
        self.page_id
    }

    pub(crate) fn new(frame_id: usize, page_id: usize) -> (guard: ReadPageGuard)
        ensures
            guard.spec_frame_id() == frame_id,
            guard.spec_page_id() == page_id,
    {
        ReadPageGuard { frame_id, page_id }
    }

    pub fn frame_id(&self) -> (frame_id: usize)
        ensures
            frame_id == self.spec_frame_id(),
    {
        self.frame_id
    }

    pub fn page_id(&self) -> (page_id: usize)
        ensures
            page_id == self.spec_page_id(),
    {
        self.page_id
    }
}

impl WritePageGuard {
    /// Frame this guard pins and latches exclusively.
    pub closed spec fn spec_frame_id(self) -> usize {
        self.frame_id
    }

    /// Page this guard was taken on.
    pub closed spec fn spec_page_id(self) -> usize {
        self.page_id
    }

    pub(crate) fn new(frame_id: usize, page_id: usize) -> (guard: WritePageGuard)
        ensures
            guard.spec_frame_id() == frame_id,
            guard.spec_page_id() == page_id,
    {
        WritePageGuard { frame_id, page_id }
    }

    pub fn frame_id(&self) -> (frame_id: usize)
        ensures
            frame_id == self.spec_frame_id(),
    {
        self.frame_id
    }

    pub fn page_id(&self) -> (page_id: usize)
        ensures
            page_id == self.spec_page_id(),
    {
        self.page_id
    }
}

} // verus!
