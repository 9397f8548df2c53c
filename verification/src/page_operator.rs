//! The backing page store: the capability the buffer pool writes dirty
//! pages to and reads evicted pages back from, and an in-memory
//! implementation of it.

use vstd::prelude::*;

use crate::PAGE_SIZE;

verus! {

/// Failure of a page-store operation.
#[derive(Clone, Copy, Debug, PartialEq, Eq, Structural)]
pub enum IoFailure {
    /// The page id lies outside the range this store can serve.
    OutOfRange,
    /// The underlying medium failed.
    Failed,
}

/// A backing store of fixed-size page blobs, addressed by page id.
///
/// `spec_valid_page` is the (stable) set of page ids the store can serve;
/// an operation succeeds exactly on those ids and fails without changing
/// anything on the rest.
pub trait PageOperator: Sized {
    /// Whether this store can serve `page_id`; a store that does not say
    /// otherwise serves every id.
    open spec fn spec_valid_page(&self, page_id: usize) -> bool {
        true
    }

    /// Current contents of the page `page_id` in the store.
    open spec fn spec_page_data(&self, page_id: usize) -> Seq<u8> {
        Seq::empty()
    }

    /// Write one page blob to the store.
    fn write_page(&mut self, page_id: usize, data: &Vec<u8>) -> (result: Result<(), IoFailure>)
        requires
            data@.len() == PAGE_SIZE,
        ensures
            result is Ok <==> old(self).spec_valid_page(page_id),
            result is Ok ==> {
                &&& forall|p: usize|
                    final(self).spec_valid_page(p) == old(self).spec_valid_page(p)
                &&& final(self).spec_page_data(page_id) == data@
                &&& forall|p: usize|
                    p != page_id ==> final(self).spec_page_data(p) == old(self).spec_page_data(p)
            },
            result is Err ==> *final(self) == *old(self),
    ;

    /// Read one page blob from the store into `data`.
    fn read_page(&mut self, page_id: usize, data: &mut Vec<u8>) -> (result: Result<(), IoFailure>)
        requires
            old(data)@.len() == PAGE_SIZE,
        ensures
            *final(self) == *old(self),
            result is Ok <==> old(self).spec_valid_page(page_id),
            final(data)@.len() == old(data)@.len(),
            result is Ok ==> final(data)@ == old(self).spec_page_data(page_id),
            result is Err ==> final(data)@ == old(data)@,
    ;
}

/// An in-memory page store with a fixed page capacity: page `p` lives at
/// byte offset `p * PAGE_SIZE` of one flat buffer, initially zeroed.
pub struct MemoryManager {
    page_capacity: usize,
    memory: Vec<u8>,
}

impl MemoryManager {
    /// The flat buffer holds exactly `page_capacity` pages.
    #[verifier::type_invariant]
    spec fn type_inv(self) -> bool {
        self.memory@.len() == self.page_capacity * PAGE_SIZE
    }

    /// Number of pages this store can serve.
    pub closed spec fn spec_page_capacity(self) -> usize {
        self.page_capacity
    }

    pub fn new(page_capacity: usize) -> (store: MemoryManager)
        requires
            page_capacity * PAGE_SIZE <= usize::MAX,
        ensures
            store.spec_page_capacity() == page_capacity,
            forall|p: usize| store.spec_valid_page(p) == (p < page_capacity),
            forall|p: usize|
                p < page_capacity ==> store.spec_page_data(p) == Seq::new(
                    PAGE_SIZE as nat,
                    |i: int| 0u8,
                ),
    {
        let total = page_capacity * PAGE_SIZE;
        let memory: Vec<u8> = vec![0u8; total];
        let store = MemoryManager { page_capacity, memory };
        proof {
            assert forall|p: usize| p < page_capacity implies store.spec_page_data(p) == Seq::new(
                PAGE_SIZE as nat,
                |i: int| 0u8,
            ) by {
                assert(p * PAGE_SIZE + PAGE_SIZE <= page_capacity * PAGE_SIZE) by (nonlinear_arith)
                    requires
                        p < page_capacity,
                ;
                assert(store.spec_page_data(p) =~= Seq::new(PAGE_SIZE as nat, |i: int| 0u8));
            }
        }
        store
    }
}

impl PageOperator for MemoryManager {
    open spec fn spec_valid_page(&self, page_id: usize) -> bool {
        page_id < self.spec_page_capacity()
    }

    closed spec fn spec_page_data(&self, page_id: usize) -> Seq<u8> {
        if page_id < self.page_capacity {
            self.memory@.subrange(page_id * PAGE_SIZE, page_id * PAGE_SIZE + PAGE_SIZE)
        } else {
            Seq::empty()
        }
    }

    fn write_page(&mut self, page_id: usize, data: &Vec<u8>) -> (result: Result<(), IoFailure>) {
        proof {
            use_type_invariant(&*self);
        }
        if page_id >= self.page_capacity {
            return Err(IoFailure::OutOfRange);
        }
        let total = self.memory.len();
        assert(page_id * PAGE_SIZE + PAGE_SIZE <= total) by (nonlinear_arith)
            requires
                page_id < self.page_capacity,
                total == self.page_capacity * PAGE_SIZE,
        ;
        let pos = page_id * PAGE_SIZE;
        let ghost mem0 = self.memory@;
        let ghost cap = self.page_capacity;
        let mut i: usize = 0;
        while i < PAGE_SIZE
            invariant
                i <= PAGE_SIZE,
                pos == page_id * PAGE_SIZE,
                pos + PAGE_SIZE <= self.memory@.len(),
                data@.len() == PAGE_SIZE,
                self.memory@.len() == mem0.len(),
                self.memory@.len() == self.page_capacity * PAGE_SIZE,
                self.page_capacity == cap,
                forall|j: int| 0 <= j < i ==> self.memory@[pos + j] == data@[j],
                forall|j: int|
                    0 <= j < mem0.len() && !(pos <= j < pos + i) ==> self.memory@[j] == mem0[j],
            decreases PAGE_SIZE - i,
        {
            let value = data[i];
            let element = vstd::std_specs::vec::vec_index_mut(&mut self.memory, pos + i);
            *element = value;
            i = i + 1;
        }
        proof {
            assert(self.spec_page_data(page_id) =~= data@);
            assert forall|p: usize| p != page_id implies self.spec_page_data(p) == old(
                self,
            ).spec_page_data(p) by {
                if p < cap {
                    assert((p + 1) * PAGE_SIZE <= cap * PAGE_SIZE && (p * PAGE_SIZE + PAGE_SIZE
                        <= page_id * PAGE_SIZE || page_id * PAGE_SIZE + PAGE_SIZE <= p
                        * PAGE_SIZE)) by (nonlinear_arith)
                        requires
                            p < cap,
                            page_id < cap,
                            p != page_id,
                    ;
                    assert(self.spec_page_data(p) =~= old(self).spec_page_data(p));
                }
            }
        }
        Ok(())
    }

    fn read_page(&mut self, page_id: usize, data: &mut Vec<u8>) -> (result: Result<(), IoFailure>) {
        proof {
            use_type_invariant(&*self);
        }
        if page_id >= self.page_capacity {
            return Err(IoFailure::OutOfRange);
        }
        let total = self.memory.len();
        assert(page_id * PAGE_SIZE + PAGE_SIZE <= total) by (nonlinear_arith)
            requires
                page_id < self.page_capacity,
                total == self.page_capacity * PAGE_SIZE,
        ;
        let pos = page_id * PAGE_SIZE;
        let mut i: usize = 0;
        while i < PAGE_SIZE
            invariant
                i <= PAGE_SIZE,
                pos == page_id * PAGE_SIZE,
                pos + PAGE_SIZE <= self.memory@.len(),
                data@.len() == PAGE_SIZE,
                forall|j: int| 0 <= j < i ==> data@[j] == self.memory@[pos + j],
            decreases PAGE_SIZE - i,
        {
            let value = self.memory[pos + i];
            data.set(i, value);
            i = i + 1;
        }
        proof {
            assert(data@ =~= self.spec_page_data(page_id));
        }
        Ok(())
    }
}

} // verus!
