//! Per-frame metadata together with the frame's page-sized data buffer.
//!
//! A frame is created once, at pool construction, and lives for the pool's
//! lifetime.  Its buffer can be handed out whole (for transfer to a disk
//! worker) and put back; while the buffer is out the frame is *transient*
//! and its data cannot be read or written.

use vstd::prelude::*;

use crate::PAGE_SIZE;

verus! {

/// Metadata and data buffer of one buffer-pool frame.
pub struct FrameHeader {
    frame_id: usize,
    page_id: Option<usize>,
    pin_count: u16,
    is_dirty: bool,
    data: Option<Vec<u8>>,
}

impl FrameHeader {
    /// The page-sized buffer always holds exactly `PAGE_SIZE` bytes while present.
    #[verifier::type_invariant]
    spec fn type_inv(self) -> bool {
        match self.data {
            Some(d) => d@.len() == PAGE_SIZE,
            None => true,
        }
    }

    /// Immutable identity of this frame within the pool.
    pub closed spec fn spec_frame_id(self) -> usize {
        self.frame_id
    }

    /// Page currently resident in this frame, `None` when the frame is free.
    pub closed spec fn spec_page_id(self) -> Option<usize> {
        self.page_id
    }

    /// Number of operations currently using this frame.
    pub closed spec fn spec_pin_count(self) -> u16 {
        self.pin_count
    }

    /// Whether the in-memory bytes may differ from the backing store.
    pub closed spec fn spec_dirty(self) -> bool {
        self.is_dirty
    }

    /// True while the buffer has been taken and not yet returned.
    pub closed spec fn spec_transient(self) -> bool {
        self.data is None
    }

    /// Contents of the data buffer; meaningful only while not transient.
    pub closed spec fn spec_data(self) -> Seq<u8> {
        match self.data {
            Some(d) => d@,
            None => Seq::empty(),
        }
    }

    /// A fresh frame: free, unpinned, clean, with a zeroed buffer.
    pub fn new(frame_id: usize) -> (frame: FrameHeader)
        ensures
            frame.spec_frame_id() == frame_id,
            frame.spec_page_id() is None,
            frame.spec_pin_count() == 0,
            !frame.spec_dirty(),
            !frame.spec_transient(),
            frame.spec_data() == Seq::new(PAGE_SIZE as nat, |i: int| 0u8),
    {
        let data: Vec<u8> = vec![0u8; PAGE_SIZE];
        assert(data@ =~= Seq::new(PAGE_SIZE as nat, |i: int| 0u8));
        FrameHeader { frame_id, page_id: None, pin_count: 0, is_dirty: false, data: Some(data) }
    }

    pub fn is_dirty(&self) -> (dirty: bool)
        ensures
            dirty == self.spec_dirty(),
    {
        self.is_dirty
    }

    pub fn set_dirty(&mut self, is_dirty: bool)
        ensures
            final(self).spec_dirty() == is_dirty,
            final(self).spec_frame_id() == old(self).spec_frame_id(),
            final(self).spec_page_id() == old(self).spec_page_id(),
            final(self).spec_pin_count() == old(self).spec_pin_count(),
            final(self).spec_transient() == old(self).spec_transient(),
            final(self).spec_data() == old(self).spec_data(),
    {
        proof {
            use_type_invariant(&*self);
        }
        self.is_dirty = is_dirty;
    }

    pub fn frame_id(&self) -> (id: usize)
        ensures
            id == self.spec_frame_id(),
    {
        self.frame_id
    }

    /// Current pin count.
    pub fn frame_pin_count(&self) -> (count: u16)
        ensures
            count == self.spec_pin_count(),
    {
        self.pin_count
    }

    /// Increment the pin count; returns the new value.
    pub fn incr_pin_count(&mut self) -> (count: u16)
        requires
            old(self).spec_pin_count() < 0xffff,
        ensures
            count == old(self).spec_pin_count() + 1,
            final(self).spec_pin_count() == count,
            final(self).spec_frame_id() == old(self).spec_frame_id(),
            final(self).spec_page_id() == old(self).spec_page_id(),
            final(self).spec_dirty() == old(self).spec_dirty(),
            final(self).spec_transient() == old(self).spec_transient(),
            final(self).spec_data() == old(self).spec_data(),
    {
        proof {
            use_type_invariant(&*self);
        }
        self.pin_count = self.pin_count + 1;
        self.pin_count
    }

    /// Decrement the pin count; returns the new value.
    pub fn decr_pin_count(&mut self) -> (count: u16)
        requires
            old(self).spec_pin_count() > 0,
        ensures
            count == old(self).spec_pin_count() - 1,
            final(self).spec_pin_count() == count,
            final(self).spec_frame_id() == old(self).spec_frame_id(),
            final(self).spec_page_id() == old(self).spec_page_id(),
            final(self).spec_dirty() == old(self).spec_dirty(),
            final(self).spec_transient() == old(self).spec_transient(),
            final(self).spec_data() == old(self).spec_data(),
    {
        proof {
            use_type_invariant(&*self);
        }
        self.pin_count = self.pin_count - 1;
        self.pin_count
    }

    pub fn set_page_id(&mut self, page_id: Option<usize>)
        ensures
            final(self).spec_page_id() == page_id,
            final(self).spec_frame_id() == old(self).spec_frame_id(),
            final(self).spec_pin_count() == old(self).spec_pin_count(),
            final(self).spec_dirty() == old(self).spec_dirty(),
            final(self).spec_transient() == old(self).spec_transient(),
            final(self).spec_data() == old(self).spec_data(),
    {
        proof {
            use_type_invariant(&*self);
        }
        self.page_id = page_id;
    }

    pub fn get_page_id(&self) -> (page_id: Option<usize>)
        ensures
            page_id == self.spec_page_id(),
    {
        self.page_id
    }

    /// Take the buffer out of the frame, e.g. to hand it to a disk worker.
    /// The frame is transient until `set_data` returns a buffer.
    pub fn get_data_mut(&mut self) -> (data: Vec<u8>)
        requires
            !old(self).spec_transient(),
        ensures
            data@ == old(self).spec_data(),
            data@.len() == PAGE_SIZE,
            final(self).spec_transient(),
            final(self).spec_frame_id() == old(self).spec_frame_id(),
            final(self).spec_page_id() == old(self).spec_page_id(),
            final(self).spec_pin_count() == old(self).spec_pin_count(),
            final(self).spec_dirty() == old(self).spec_dirty(),
    {
        proof {
            use_type_invariant(&*self);
        }
        let mut data: Option<Vec<u8>> = None;
        core::mem::swap(&mut data, &mut self.data);
        match data {
            Some(d) => d,
            None => vstd::pervasive::unreached(),
        }
    }

    /// Return a buffer to the frame, ending a transient interval.
    pub fn set_data(&mut self, data: Vec<u8>)
        requires
            data@.len() == PAGE_SIZE,
        ensures
            !final(self).spec_transient(),
            final(self).spec_data() == data@,
            final(self).spec_frame_id() == old(self).spec_frame_id(),
            final(self).spec_page_id() == old(self).spec_page_id(),
            final(self).spec_pin_count() == old(self).spec_pin_count(),
            final(self).spec_dirty() == old(self).spec_dirty(),
    {
        proof {
            use_type_invariant(&*self);
        }
        self.data = Some(data);
    }

    /// Read access to the whole page buffer.
    pub fn get_readable_data(&self) -> (data: &Vec<u8>)
        requires
            !self.spec_transient(),
        ensures
            data@ == self.spec_data(),
            data@.len() == PAGE_SIZE,
    {
        proof {
            use_type_invariant(&*self);
        }
        match &self.data {
            Some(d) => d,
            None => vstd::pervasive::unreached(),
        }
    }

    /// Read one byte of the page buffer.
    pub fn read_byte(&self, offset: usize) -> (value: u8)
        requires
            !self.spec_transient(),
            offset < PAGE_SIZE,
        ensures
            value == self.spec_data()[offset as int],
    {
        let data = self.get_readable_data();
        data[offset]
    }

    /// Overwrite one byte of the page buffer.
    pub fn write_byte(&mut self, offset: usize, value: u8)
        requires
            !old(self).spec_transient(),
            offset < PAGE_SIZE,
        ensures
            !final(self).spec_transient(),
            final(self).spec_data() == old(self).spec_data().update(offset as int, value),
            final(self).spec_frame_id() == old(self).spec_frame_id(),
            final(self).spec_page_id() == old(self).spec_page_id(),
            final(self).spec_pin_count() == old(self).spec_pin_count(),
            final(self).spec_dirty() == old(self).spec_dirty(),
    {
        let mut data = self.get_data_mut();
        data.set(offset, value);
        self.set_data(data);
    }

    /// Overwrite `src.len()` bytes of the page buffer, starting at `offset`.
    pub fn write_bytes(&mut self, offset: usize, src: &[u8])
        requires
            !old(self).spec_transient(),
            offset + src@.len() <= PAGE_SIZE,
        ensures
            !final(self).spec_transient(),
            final(self).spec_data() == old(self).spec_data().subrange(0, offset as int)
                + src@ + old(self).spec_data().subrange(
                offset + src@.len(),
                PAGE_SIZE as int,
            ),
            final(self).spec_frame_id() == old(self).spec_frame_id(),
            final(self).spec_page_id() == old(self).spec_page_id(),
            final(self).spec_pin_count() == old(self).spec_pin_count(),
            final(self).spec_dirty() == old(self).spec_dirty(),
    {
        proof {
            use_type_invariant(&*self);
        }
        let ghost orig = self.spec_data();
        let mut i: usize = 0;
        while i < src.len()
            invariant
                i <= src@.len(),
                offset + src@.len() <= PAGE_SIZE,
                !self.spec_transient(),
                self.spec_data().len() == PAGE_SIZE,
                orig.len() == PAGE_SIZE,
                forall|j: int| 0 <= j < i ==> self.spec_data()[offset + j] == src@[j],
                forall|j: int|
                    0 <= j < PAGE_SIZE && !(offset <= j < offset + i) ==> self.spec_data()[j]
                        == orig[j],
                self.spec_frame_id() == old(self).spec_frame_id(),
                self.spec_page_id() == old(self).spec_page_id(),
                self.spec_pin_count() == old(self).spec_pin_count(),
                self.spec_dirty() == old(self).spec_dirty(),
            decreases src@.len() - i,
        {
            let value = src[i];
            self.write_byte(offset + i, value);
            i = i + 1;
        }
        assert(self.spec_data() =~= orig.subrange(0, offset as int) + src@ + orig.subrange(
            offset + src@.len(),
            PAGE_SIZE as int,
        ));
    }

    /// Copy `len` bytes of the page buffer, starting at `offset`.
    pub fn read_bytes(&self, offset: usize, len: usize) -> (out: Vec<u8>)
        requires
            !self.spec_transient(),
            offset + len <= PAGE_SIZE,
        ensures
            out@ == self.spec_data().subrange(offset as int, offset + len),
    {
        proof {
            use_type_invariant(&*self);
        }
        let mut out: Vec<u8> = Vec::new();
        let mut i: usize = 0;
        while i < len
            invariant
                i <= len,
                offset + len <= PAGE_SIZE,
                !self.spec_transient(),
                self.spec_data().len() == PAGE_SIZE,
                out@.len() == i,
                forall|j: int| 0 <= j < i ==> out@[j] == self.spec_data()[offset + j],
            decreases len - i,
        {
            out.push(self.read_byte(offset + i));
            i = i + 1;
        }
        assert(out@ =~= self.spec_data().subrange(offset as int, offset + len));
        out
    }
}

} // verus!
