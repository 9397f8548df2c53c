//! The buffer pool manager.
//!
//! Owns a fixed array of frames, the free list, the page table, the LRU-K
//! replacer and the backing page store, and coordinates fetches, evictions
//! and flushes.  Clients read and write pages through pinned page guards;
//! a page whose pin count is positive is never evicted, and a dirty page
//! is written back to the store before its frame is reused.

use vstd::prelude::*;

use std::collections::HashMap;
use std::collections::HashSet;

use crate::PAGE_SIZE;
use crate::frame_header::FrameHeader;
use crate::lruk_replacer::{LruKReplacer, preferred_victim, push_history, slot_weight};
use crate::page_guard::{ReadPageGuard, WritePageGuard};
use crate::page_operator::PageOperator;

verus! {

broadcast use vstd::std_specs::hash::group_hash_axioms;

/// Mediates all access between clients and the on-disk page store,
/// keeping a bounded in-memory working set of pages.
pub struct BufferPoolManager<P: PageOperator> {
    num_frames: usize,
    next_page_id: usize,
    frames: Vec<FrameHeader>,
    free_frame_ids: Vec<usize>,
    page_table: HashMap<usize, usize>,
    write_latched: Vec<bool>,
    replacer: LruKReplacer,
    written_pages: HashSet<usize>,
    page_operator: P,
}

impl<P: PageOperator> BufferPoolManager<P> {
    /// Number of frames the pool was built with.
    pub closed spec fn spec_num_frames(self) -> usize {
        self.num_frames
    }

    /// The next page id the allocator will hand out.
    pub closed spec fn spec_next_page_id(self) -> usize {
        self.next_page_id
    }

    /// The pool's frames, indexed by frame id.
    pub closed spec fn spec_frames(self) -> Seq<FrameHeader> {
        self.frames@
    }

    /// Ids of frames that hold no page.
    pub closed spec fn spec_free_list(self) -> Seq<usize> {
        self.free_frame_ids@
    }

    /// Mapping from resident page ids to the frames that hold them.
    pub closed spec fn spec_page_table(self) -> Map<usize, usize> {
        self.page_table@
    }

    /// Per-frame flag: a write guard is outstanding on this frame.
    pub closed spec fn spec_write_latched(self) -> Seq<bool> {
        self.write_latched@
    }

    /// The replacement policy's state.
    pub closed spec fn spec_replacer(self) -> LruKReplacer {
        self.replacer
    }

    /// Page ids that have ever been flushed to the backing store.
    pub closed spec fn spec_written(self) -> Set<usize> {
        self.written_pages@
    }

    /// The backing page store.
    pub closed spec fn spec_store(self) -> P {
        self.page_operator
    }

    /// Whether `page_id` currently resides in some frame.
    pub open spec fn spec_resident(self, page_id: usize) -> bool {
        self.spec_page_table().dom().contains(page_id)
    }

    /// The frame holding resident page `page_id`.
    pub open spec fn spec_frame_of(self, page_id: usize) -> usize {
        self.spec_page_table()[page_id]
    }

    /// Pin count of `page_id`: its frame's pin count while resident, else zero.
    pub open spec fn spec_page_pin(self, page_id: usize) -> u16 {
        if self.spec_resident(page_id) {
            self.spec_frames()[self.spec_frame_of(page_id) as int].spec_pin_count()
        } else {
            0u16
        }
    }

    /// The current logical contents of page `page_id`: the bytes in its
    /// frame while resident, else the bytes in the store if the page was
    /// ever flushed, else nothing.
    pub open spec fn spec_page_view(self, page_id: usize) -> Option<Seq<u8>> {
        if self.spec_resident(page_id) {
            Some(self.spec_frames()[self.spec_frame_of(page_id) as int].spec_data())
        } else if self.spec_written().contains(page_id) {
            Some(self.spec_store().spec_page_data(page_id))
        } else {
            None
        }
    }

    /// Pages whose contents survive any sequence of pool operations: pages
    /// that were flushed at least once, and resident pages that are dirty
    /// or pinned.  (A clean, never-flushed, unpinned page holds bytes that
    /// no one asked to keep; eviction may discard them.)
    pub open spec fn spec_page_retained(self, page_id: usize) -> bool {
        ||| self.spec_written().contains(page_id)
        ||| (self.spec_resident(page_id) && (self.spec_frames()[self.spec_frame_of(
            page_id,
        ) as int].spec_dirty() || self.spec_page_pin(page_id) > 0))
    }

    /// The given read guard is live: its page is resident in its frame,
    /// the frame is pinned and not write-latched.
    pub open spec fn read_guard_valid(self, guard: ReadPageGuard) -> bool {
        &&& guard.spec_frame_id() < self.spec_num_frames()
        &&& self.spec_resident(guard.spec_page_id())
        &&& self.spec_frame_of(guard.spec_page_id()) == guard.spec_frame_id()
        &&& self.spec_frames()[guard.spec_frame_id() as int].spec_pin_count() > 0
        &&& !self.spec_write_latched()[guard.spec_frame_id() as int]
    }

    /// The given write guard is live: its page is resident in its frame,
    /// which is write-latched and pinned exactly once.
    pub open spec fn write_guard_valid(self, guard: WritePageGuard) -> bool {
        &&& guard.spec_frame_id() < self.spec_num_frames()
        &&& self.spec_resident(guard.spec_page_id())
        &&& self.spec_frame_of(guard.spec_page_id()) == guard.spec_frame_id()
        &&& self.spec_frames()[guard.spec_frame_id() as int].spec_pin_count() == 1
        &&& self.spec_write_latched()[guard.spec_frame_id() as int]
    }

    /// Well-formedness of the pool.  Holds at every operation boundary.
    #[verifier::opaque]
    pub open spec fn inv(self) -> bool {
        let frames = self.spec_frames();
        let free = self.spec_free_list();
        let table = self.spec_page_table();
        let nodes = self.spec_replacer().spec_nodes();
        let n = self.spec_num_frames();
        &&& n >= 1
        &&& frames.len() == n
        &&& self.spec_write_latched().len() == n
        // frames are identified by their index, and none is transient
        &&& forall|i: int|
            0 <= i < frames.len() ==> (#[trigger] frames[i]).spec_frame_id() == i
                && !frames[i].spec_transient() && frames[i].spec_data().len() == PAGE_SIZE
        // the replacer serves exactly this pool's frames
        &&& self.spec_replacer().inv()
        &&& self.spec_replacer().spec_num_frames() == n
        // free frames hold no page, are unpinned and clean
        &&& forall|idx: int|
            0 <= idx < free.len() ==> (#[trigger] free[idx]) < n
                && frames[free[idx] as int].spec_page_id() is None
                && frames[free[idx] as int].spec_pin_count() == 0
                && !frames[free[idx] as int].spec_dirty()
        &&& forall|a: int, b: int| 0 <= a < b < free.len() ==> free[a] != free[b]
        // a frame holds no page exactly when it is free
        &&& forall|i: int|
            0 <= i < frames.len() ==> ((#[trigger] frames[i]).spec_page_id() is None <==> free.contains(
                i as usize,
            ))
        // the page table maps each resident page to the frame that holds it
        &&& forall|q: usize|
            #[trigger] table.dom().contains(q) ==> table[q] < n
                && frames[table[q] as int].spec_page_id() == Some(q)
        &&& forall|i: int|
            0 <= i < frames.len() ==> ((#[trigger] frames[i]).spec_page_id() matches Some(q)
                ==> table.dom().contains(q) && table[q] == i)
        // residency is bounded by the frame count
        &&& table.dom().finite()
        &&& table.len() + free.len() == n
        // replacer nodes exist only for occupied frames, and evictable
        // frames are unpinned; pinned frames always have a node
        &&& nodes.len() == n
        &&& forall|i: int|
            0 <= i < nodes.len() ==> ((#[trigger] nodes[i]) is Some ==> self.spec_frames()[i].spec_page_id() is Some)
        &&& forall|i: int|
            0 <= i < nodes.len() ==> (slot_weight(#[trigger] nodes[i]) == 1
                ==> self.spec_frames()[i].spec_pin_count() == 0)
        &&& forall|i: int|
            0 <= i < frames.len() ==> ((#[trigger] frames[i]).spec_pin_count() > 0 ==> nodes[i] is Some)
        // a write-latched frame is pinned exactly once, occupied, and dirty
        &&& forall|i: int|
            0 <= i < frames.len() ==> (#[trigger] self.spec_write_latched()[i]
                ==> frames[i].spec_pin_count() == 1 && frames[i].spec_page_id() is Some
                && frames[i].spec_dirty())
        // the store can serve every resident and every flushed page
        &&& forall|q: usize|
            #[trigger] table.dom().contains(q) ==> self.spec_store().spec_valid_page(q)
        &&& forall|q: usize|
            self.spec_written().contains(q) ==> self.spec_store().spec_valid_page(q)
        // a clean resident page that was ever flushed agrees with the store
        &&& forall|q: usize|
            #[trigger] table.dom().contains(q) && !frames[table[q] as int].spec_dirty()
                && self.spec_written().contains(q) ==> frames[table[q] as int].spec_data()
                == self.spec_store().spec_page_data(q)
    }

    /// The invariant depends only on the components it names; a pool that
    /// agrees with a well-formed pool on all of them is well-formed.
    proof fn lemma_inv_components(a: BufferPoolManager<P>, b: BufferPoolManager<P>)
        requires
            a.inv(),
            b.spec_num_frames() == a.spec_num_frames(),
            b.spec_frames() == a.spec_frames(),
            b.spec_free_list() == a.spec_free_list(),
            b.spec_page_table() == a.spec_page_table(),
            b.spec_write_latched() == a.spec_write_latched(),
            b.spec_replacer() == a.spec_replacer(),
            b.spec_written() == a.spec_written(),
            b.spec_store() == a.spec_store(),
        ensures
            b.inv(),
    {
        reveal(BufferPoolManager::inv);
        assert forall|q: usize| b.spec_page_table().dom().contains(q) implies b.spec_store().spec_valid_page(q) by {
            assert(a.spec_page_table().dom().contains(q));
        }
        assert forall|q: usize| b.spec_written().contains(q) implies b.spec_store().spec_valid_page(q) by {
            assert(a.spec_written().contains(q));
        }
    }

    /// Build a pool of `num_frames` empty frames over the given store,
    /// with an LRU-K replacer of history depth `k_dist`.
    pub fn new(num_frames: usize, k_dist: usize, page_operator: P) -> (pool: BufferPoolManager<P>)
        requires
            num_frames >= 1,
            k_dist >= 1,
        ensures
            pool.inv(),
            pool.spec_num_frames() == num_frames,
            pool.spec_next_page_id() == 0,
            pool.spec_page_table() == Map::<usize, usize>::empty(),
            pool.spec_written() == Set::<usize>::empty(),
            pool.spec_store() == page_operator,
            pool.spec_replacer().spec_k() == k_dist,
            pool.spec_free_list() == Seq::new(num_frames as nat, |i: int| i as usize),
            forall|i: int|
                0 <= i < num_frames ==> (#[trigger] pool.spec_frames()[i]).spec_page_id() is None
                    && pool.spec_frames()[i].spec_pin_count() == 0
                    && !pool.spec_frames()[i].spec_dirty() && pool.spec_frames()[i].spec_data()
                    == Seq::new(PAGE_SIZE as nat, |b: int| 0u8),
    {
        let mut frames: Vec<FrameHeader> = Vec::new();
        let mut free_frame_ids: Vec<usize> = Vec::new();
        let mut write_latched: Vec<bool> = Vec::new();
        let mut i: usize = 0;
        while i < num_frames
            invariant
                i <= num_frames,
                frames@.len() == i,
                free_frame_ids@.len() == i,
                write_latched@.len() == i,
                forall|j: int|
                    0 <= j < i ==> (#[trigger] frames@[j]).spec_frame_id() == j
                        && frames@[j].spec_page_id() is None && frames@[j].spec_pin_count() == 0
                        && !frames@[j].spec_dirty() && !frames@[j].spec_transient()
                        && frames@[j].spec_data() == Seq::new(PAGE_SIZE as nat, |b: int| 0u8),
                forall|j: int| 0 <= j < i ==> free_frame_ids@[j] == j,
                forall|j: int| 0 <= j < i ==> !write_latched@[j],
            decreases num_frames - i,
        {
            frames.push(FrameHeader::new(i));
            free_frame_ids.push(i);
            write_latched.push(false);
            i = i + 1;
        }
        let pool = BufferPoolManager {
            num_frames,
            next_page_id: 0,
            frames,
            free_frame_ids,
            page_table: HashMap::new(),
            write_latched,
            replacer: LruKReplacer::new(num_frames, k_dist),
            written_pages: HashSet::new(),
            page_operator,
        };
        proof {
            reveal(BufferPoolManager::inv);
            assert(pool.spec_free_list() =~= Seq::new(num_frames as nat, |i: int| i as usize));
            assert(pool.spec_page_table().dom() =~= Set::<usize>::empty());
            assert forall|i2: int| 0 <= i2 < num_frames implies #[trigger] pool.spec_free_list().contains(
                i2 as usize,
            ) by {
                assert(pool.spec_free_list()[i2] == i2 as usize);
            }
        }
        pool
    }

    /// No frame is a candidate for eviction.
    pub open spec fn spec_nothing_evictable(self) -> bool {
        forall|j: int|
            0 <= j < self.spec_replacer().spec_nodes().len() ==> slot_weight(
                #[trigger] self.spec_replacer().spec_nodes()[j],
            ) == 0
    }

    /// Every pinned frame of `a` is untouched in `b`, write latch included.
    pub open spec fn spec_keeps_pinned_frames(a: BufferPoolManager<P>, b: BufferPoolManager<P>) -> bool {
        forall|i: int|
            0 <= i < a.spec_frames().len() && (#[trigger] a.spec_frames()[i]).spec_pin_count() > 0
                ==> b.spec_frames()[i] == a.spec_frames()[i] && b.spec_write_latched()[i]
                == a.spec_write_latched()[i]
    }

    /// Every pinned page of `a` stays resident in the same frame in `b`.
    pub open spec fn spec_keeps_pinned_pages(a: BufferPoolManager<P>, b: BufferPoolManager<P>) -> bool {
        forall|q: usize|
            #[trigger] a.spec_resident(q) && a.spec_page_pin(q) > 0 ==> b.spec_resident(q)
                && b.spec_frame_of(q) == a.spec_frame_of(q)
    }

    /// Every page of `a` other than `except` whose contents are retained
    /// keeps them, and stays retained, in `b`.
    pub open spec fn spec_keeps_retained_pages(
        a: BufferPoolManager<P>,
        b: BufferPoolManager<P>,
        except: usize,
    ) -> bool {
        forall|q: usize|
            q != except && #[trigger] a.spec_page_retained(q) ==> b.spec_page_view(q)
                == a.spec_page_view(q) && b.spec_page_retained(q)
    }

    /// The store serves the same page ids in `b` as in `a`.
    pub open spec fn spec_keeps_store_validity(a: BufferPoolManager<P>, b: BufferPoolManager<P>) -> bool {
        forall|p: usize|
            #[trigger] b.spec_store().spec_valid_page(p) == a.spec_store().spec_valid_page(p)
    }



    /// The access history recorded for frame `i`, empty when the frame has
    /// no replacer node.
    pub open spec fn spec_node_history(self, i: int) -> Seq<u64> {
        match self.spec_replacer().spec_nodes()[i] {
            Some(n) => n.spec_history(),
            None => Seq::empty(),
        }
    }

    /// The replacer chose page `q`'s frame as the eviction victim: the
    /// frame's node was evictable, and at least as good a victim as every
    /// other evictable node — infinite backward k-distance beats finite,
    /// and the older leading timestamp wins.
    pub open spec fn spec_eviction_choice(a: BufferPoolManager<P>, q: usize) -> bool {
        let nodes = a.spec_replacer().spec_nodes();
        let f = a.spec_frame_of(q) as int;
        &&& slot_weight(nodes[f]) == 1
        &&& forall|j: int|
            0 <= j < nodes.len() && j != f && slot_weight(#[trigger] nodes[j]) == 1
                ==> preferred_victim(nodes[f]->Some_0, nodes[j]->Some_0, a.spec_replacer().spec_k() as nat)
    }

    /// Make sure at least one frame is on the free list, evicting the
    /// replacer's victim if need be and flushing it first when dirty.
    /// Returns `false`, changing nothing, when no frame is free and no
    /// frame is evictable.
    fn ensure_free_frame(&mut self) -> (ok: bool)
        requires
            old(self).inv(),
        ensures
            final(self).inv(),
            final(self).spec_num_frames() == old(self).spec_num_frames(),
            final(self).spec_next_page_id() == old(self).spec_next_page_id(),
            final(self).spec_write_latched() == old(self).spec_write_latched(),
            final(self).spec_replacer().spec_k() == old(self).spec_replacer().spec_k(),
            !ok ==> *final(self) == *old(self) && old(self).spec_free_list().len() == 0 && old(self).spec_nothing_evictable(),
            ok ==> final(self).spec_free_list().len() == (if old(self).spec_free_list().len() > 0 {
                old(self).spec_free_list().len()
            } else {
                1nat
            }),
            old(self).spec_free_list().len() == 0 && old(self).spec_nothing_evictable() ==> !ok,
            final(self).spec_replacer().spec_clock() == old(self).spec_replacer().spec_clock(),
            forall|j: int|
                0 <= j < old(self).spec_replacer().spec_nodes().len() ==> #[trigger] final(self).spec_replacer().spec_nodes()[j]
                    == old(self).spec_replacer().spec_nodes()[j] || (final(self).spec_replacer().spec_nodes()[j] is None
                    && slot_weight(old(self).spec_replacer().spec_nodes()[j]) == 1),
            Self::spec_keeps_pinned_frames(*old(self), *final(self)),
            Self::spec_keeps_pinned_pages(*old(self), *final(self)),
            Self::spec_keeps_store_validity(*old(self), *final(self)),
            forall|q: usize|
                #[trigger] old(self).spec_page_retained(q) ==> final(self).spec_page_view(q) == old(self).spec_page_view(q) && final(self).spec_page_retained(q),
            forall|q: usize|
                old(self).spec_written().contains(q) ==> final(self).spec_written().contains(q),
            forall|q: usize|
                #[trigger] final(self).spec_resident(q) ==> old(self).spec_resident(q) && final(self).spec_frame_of(q) == old(self).spec_frame_of(q) && final(self).spec_frames()[final(self).spec_frame_of(q) as int] == old(self).spec_frames()[old(self).spec_frame_of(
                    q,
                ) as int],
            forall|q: usize|
                #[trigger] old(self).spec_resident(q) && !final(self).spec_resident(q) ==> old(self).spec_page_pin(q) == 0
                    && Self::spec_eviction_choice(*old(self), q),
    {
        proof {
            reveal(BufferPoolManager::inv);
        }
        if self.free_frame_ids.len() > 0 {
            return true;
        }
        let ghost s0 = *self;
        let victim = match self.replacer.evict() {
            None => {
                return false;
            },
            Some(v) => v,
        };
        proof {
            assert(s0.spec_frames()[victim as int].spec_page_id() is Some);
            assert(s0.spec_frames()[victim as int].spec_pin_count() == 0);
        }
        let victim_pid = match self.frames[victim].get_page_id() {
            Some(p) => p,
            None => vstd::pervasive::unreached(),
        };
        proof {
            assert(s0.spec_page_table().dom().contains(victim_pid));
            assert(s0.spec_page_table()[victim_pid] == victim);
            assert(s0.spec_store().spec_valid_page(victim_pid));
        }
        if self.frames[victim].is_dirty() {
            let buf = vstd::std_specs::vec::vec_index_mut(&mut self.frames, victim).get_data_mut();
            let res = self.page_operator.write_page(victim_pid, &buf);
            match res {
                Ok(_) => {},
                Err(_) => {
                    // the store serves every resident page, so this flush
                    // cannot fail
                    proof {
                        assert(false);
                    }
                },
            }
            vstd::std_specs::vec::vec_index_mut(&mut self.frames, victim).set_data(buf);
            vstd::std_specs::vec::vec_index_mut(&mut self.frames, victim).set_dirty(false);
            self.written_pages.insert(victim_pid);
        }
        vstd::std_specs::vec::vec_index_mut(&mut self.frames, victim).set_page_id(None);
        self.page_table.remove(&victim_pid);
        self.free_frame_ids.push(victim);
        proof {
            let s1 = *self;
            assert(s1.spec_page_table() == s0.spec_page_table().remove(victim_pid));
            assert(s1.spec_page_table().dom() =~= s0.spec_page_table().dom().remove(victim_pid));
            // the victim's frame is the only one that changed
            assert forall|i: int|
                0 <= i < s1.spec_frames().len() && i != victim implies s1.spec_frames()[i]
                == s0.spec_frames()[i] by {}
            assert(s1.spec_frames()[victim as int].spec_page_id() is None);
            assert(s1.spec_frames()[victim as int].spec_pin_count() == 0);
            assert(!s1.spec_frames()[victim as int].spec_dirty());
            assert(!s1.spec_frames()[victim as int].spec_transient());
            assert(s1.spec_frames()[victim as int].spec_data() == s0.spec_frames()[victim as int].spec_data());
            // dirty victims were flushed; clean flushed victims already agreed
            assert(s0.spec_frames()[victim as int].spec_dirty() ==> s1.spec_written().contains(
                victim_pid,
            ) && s1.spec_store().spec_page_data(victim_pid) == s0.spec_frames()[victim as int].spec_data());
            // re-establish the invariant clause by clause
            assert forall|idx: int| 0 <= idx < s1.spec_free_list().len() implies (#[trigger] s1.spec_free_list()[idx]) < s1.spec_num_frames()
                && s1.spec_frames()[s1.spec_free_list()[idx] as int].spec_page_id() is None
                && s1.spec_frames()[s1.spec_free_list()[idx] as int].spec_pin_count() == 0
                && !s1.spec_frames()[s1.spec_free_list()[idx] as int].spec_dirty() by {
                if idx < s0.spec_free_list().len() {
                    assert(s0.spec_free_list()[idx] == s1.spec_free_list()[idx]);
                }
            }
            assert forall|a: int, b: int| 0 <= a < b < s1.spec_free_list().len() implies s1.spec_free_list()[a] != s1.spec_free_list()[b] by {
                if b < s0.spec_free_list().len() {
                } else {
                    // the victim held a page in s0, so it was not free
                    if s1.spec_free_list()[a] == victim && a < s0.spec_free_list().len() {
                        assert(s0.spec_free_list().contains(victim));
                    }
                }
            }
            assert forall|i: int|
                0 <= i < s1.spec_frames().len() implies ((#[trigger] s1.spec_frames()[i]).spec_page_id() is None
                <==> s1.spec_free_list().contains(i as usize)) by {
                if i == victim {
                    assert(s1.spec_free_list()[s1.spec_free_list().len() - 1] == victim);
                } else {
                    if s1.spec_frames()[i].spec_page_id() is None {
                        assert(s0.spec_free_list().contains(i as usize));
                        let idx = choose|idx: int|
                            0 <= idx < s0.spec_free_list().len() && s0.spec_free_list()[idx] == i as usize;
                        assert(s1.spec_free_list()[idx] == i as usize);
                    } else {
                        if s1.spec_free_list().contains(i as usize) {
                            let idx = choose|idx: int|
                                0 <= idx < s1.spec_free_list().len() && s1.spec_free_list()[idx]
                                    == i as usize;
                            assert(idx == s1.spec_free_list().len() - 1);
                        }
                    }
                }
            }
            assert forall|i: int|
                0 <= i < s1.spec_frames().len() implies ((#[trigger] s1.spec_frames()[i]).spec_page_id() matches Some(q)
                ==> s1.spec_page_table().dom().contains(q) && s1.spec_page_table()[q] == i) by {
                if i != victim && s1.spec_frames()[i].spec_page_id() is Some {
                    let q = s1.spec_frames()[i].spec_page_id()->0;
                    assert(s0.spec_page_table().dom().contains(q) && s0.spec_page_table()[q] == i);
                    assert(q != victim_pid);
                }
            }
            assert(s1.spec_page_table().len() + s1.spec_free_list().len()
                == s1.spec_num_frames());
            assert forall|q: usize| #[trigger] s1.spec_page_table().dom().contains(q) implies s1.spec_page_table()[q] < s1.spec_num_frames()
                && s1.spec_frames()[s1.spec_page_table()[q] as int].spec_page_id() == Some(q) by {
                assert(s0.spec_page_table().dom().contains(q));
                assert(s0.spec_page_table()[q] != victim);
            }
            assert forall|q: usize| #[trigger] s1.spec_page_table().dom().contains(q)
                && !s1.spec_frames()[s1.spec_page_table()[q] as int].spec_dirty()
                && s1.spec_written().contains(q) implies s1.spec_frames()[s1.spec_page_table()[q] as int].spec_data()
                == s1.spec_store().spec_page_data(q) by {
                assert(s0.spec_page_table().dom().contains(q));
                assert(s0.spec_page_table()[q] != victim);
                assert(q != victim_pid);
                assert(s0.spec_written().contains(q));
            }
            assert forall|q: usize| #[trigger] s1.spec_page_table().dom().contains(q) implies s1.spec_store().spec_valid_page(q) by {
                assert(s0.spec_page_table().dom().contains(q));
            }
            assert forall|q: usize| s1.spec_written().contains(q) implies s1.spec_store().spec_valid_page(q) by {
                if q != victim_pid {
                    assert(s0.spec_written().contains(q));
                }
            }
            assert(s1.inv());
            // preservation of retained pages
            assert forall|q: usize| #[trigger] s0.spec_page_retained(q) implies s1.spec_page_view(q)
                == s0.spec_page_view(q) && s1.spec_page_retained(q) by {
                if q == victim_pid {
                    if s0.spec_frames()[victim as int].spec_dirty() {
                        assert(s1.spec_page_view(q) == Some(
                            s1.spec_store().spec_page_data(victim_pid),
                        ));
                    } else {
                        assert(s0.spec_written().contains(q));
                    }
                } else {
                    if s0.spec_page_table().dom().contains(q) {
                        assert(s0.spec_page_table()[q] != victim);
                    }
                }
            }
        }
        true
    }


    /// Locate the frame holding `page_id`, or assign one: pop a free frame
    /// (evicting first when none is free), load the page's bytes back from
    /// the store when it was ever flushed, and enter it in the page table.
    /// Returns `None`, changing nothing, exactly when the page is absent,
    /// no frame is free and nothing is evictable.
    fn get_frame_id(&mut self, page_id: usize) -> (frame_id: Option<usize>)
        requires
            old(self).inv(),
            old(self).spec_store().spec_valid_page(page_id),
        ensures
            final(self).inv(),
            final(self).spec_num_frames() == old(self).spec_num_frames(),
            final(self).spec_next_page_id() == old(self).spec_next_page_id(),
            final(self).spec_write_latched() == old(self).spec_write_latched(),
            final(self).spec_replacer().spec_k() == old(self).spec_replacer().spec_k(),
            Self::spec_keeps_pinned_frames(*old(self), *final(self)),
            Self::spec_keeps_pinned_pages(*old(self), *final(self)),
            Self::spec_keeps_store_validity(*old(self), *final(self)),
            Self::spec_keeps_retained_pages(*old(self), *final(self), page_id),
            forall|q: usize|
                old(self).spec_written().contains(q) ==> final(self).spec_written().contains(q),
            forall|q: usize|
                #[trigger] old(self).spec_resident(q) && !final(self).spec_resident(q) ==> old(self).spec_page_pin(q) == 0
                    && Self::spec_eviction_choice(*old(self), q),
            forall|q: usize|
                q != page_id && #[trigger] final(self).spec_resident(q) ==> old(self).spec_resident(q)
                    && final(self).spec_frame_of(q) == old(self).spec_frame_of(q),
            !old(self).spec_resident(page_id) && old(self).spec_free_list().len() == 0 && old(self).spec_nothing_evictable() ==> frame_id is None,
            final(self).spec_replacer().spec_clock() == old(self).spec_replacer().spec_clock(),
            forall|j: int|
                0 <= j < old(self).spec_replacer().spec_nodes().len() ==> #[trigger] final(self).spec_replacer().spec_nodes()[j]
                    == old(self).spec_replacer().spec_nodes()[j] || (final(self).spec_replacer().spec_nodes()[j] is None
                    && slot_weight(old(self).spec_replacer().spec_nodes()[j]) == 1),
            match frame_id {
                None => {
                    &&& *final(self) == *old(self)
                    &&& !old(self).spec_resident(page_id)
                    &&& old(self).spec_free_list().len() == 0
                    &&& old(self).spec_nothing_evictable()
                },
                Some(f) => {
                    &&& f < final(self).spec_num_frames()
                    &&& final(self).spec_resident(page_id)
                    &&& final(self).spec_frame_of(page_id) == f
                    &&& final(self).spec_frames()[f as int].spec_pin_count() == old(self).spec_page_pin(page_id)
                    &&& final(self).spec_frames()[f as int].spec_dirty() == (old(self).spec_resident(page_id)
                        && old(self).spec_frames()[old(self).spec_frame_of(page_id) as int].spec_dirty())
                    &&& final(self).spec_write_latched()[f as int] == old(self).spec_write_latched()[f as int]
                    &&& (old(self).spec_resident(page_id) ==> *final(self) == *old(self)
                        && f == old(self).spec_frame_of(page_id))
                    &&& (!old(self).spec_resident(page_id) ==> final(self).spec_free_list().len() == (
                    if old(self).spec_free_list().len() > 0 {
                        (old(self).spec_free_list().len() - 1) as nat
                    } else {
                        0nat
                    }))
                    &&& (old(self).spec_page_view(page_id) matches Some(b) ==> final(self).spec_frames()[f as int].spec_data() == b)
                    &&& (!old(self).spec_resident(page_id) ==> final(self).spec_replacer().spec_nodes()[f as int] is None
                        && !final(self).spec_write_latched()[f as int])
                },
            },
    {
        proof {
            reveal(BufferPoolManager::inv);
        }
        match self.page_table.get(&page_id) {
            Some(frame_id) => {
                return Some(*frame_id);
            },
            None => {},
        }
        let ghost s0 = *self;
        if !self.ensure_free_frame() {
            return None;
        }
        let ghost s1 = *self;
        proof {
            reveal(BufferPoolManager::inv);
            assert(!s0.spec_page_table().dom().contains(page_id));
            assert(!s1.spec_page_table().dom().contains(page_id)) by {
                if s1.spec_resident(page_id) {
                    assert(s0.spec_resident(page_id));
                }
            }
        }
        let fid = match self.free_frame_ids.pop() {
            Some(f) => f,
            None => vstd::pervasive::unreached(),
        };
        proof {
            assert(s1.spec_free_list()[s1.spec_free_list().len() - 1] == fid);
            assert(fid < s1.spec_num_frames());
            assert(s1.spec_frames()[fid as int].spec_page_id() is None);
            assert(s1.spec_frames()[fid as int].spec_pin_count() == 0);
            assert(!s1.spec_frames()[fid as int].spec_dirty());
            assert(s1.spec_replacer().spec_nodes()[fid as int] is None);
            assert(!s1.spec_write_latched()[fid as int]);
        }
        vstd::std_specs::vec::vec_index_mut(&mut self.frames, fid).set_page_id(Some(page_id));
        if self.written_pages.contains(&page_id) {
            let mut buf = vstd::std_specs::vec::vec_index_mut(&mut self.frames, fid).get_data_mut();
            let res = self.page_operator.read_page(page_id, &mut buf);
            match res {
                Ok(_) => {},
                Err(_) => {
                    // the store serves every page it ever flushed, so this
                    // read cannot fail
                    proof {
                        assert(false);
                    }
                },
            }
            vstd::std_specs::vec::vec_index_mut(&mut self.frames, fid).set_data(buf);
        }
        self.page_table.insert(page_id, fid);
        proof {
            let s2 = *self;
            assert(s2.spec_page_table() == s1.spec_page_table().insert(page_id, fid));
            assert(s2.spec_page_table().dom() =~= s1.spec_page_table().dom().insert(page_id));
            assert(s2.spec_free_list() == s1.spec_free_list().drop_last());
            assert forall|i: int|
                0 <= i < s2.spec_frames().len() && i != fid implies s2.spec_frames()[i]
                == s1.spec_frames()[i] by {}
            // the popped frame was the last free entry and appears nowhere else
            assert forall|idx: int| 0 <= idx < s2.spec_free_list().len() implies (#[trigger] s2.spec_free_list()[idx]) != fid by {
                assert(s1.spec_free_list()[idx] == s2.spec_free_list()[idx]);
            }
            // invariant restoration
            assert forall|idx: int| 0 <= idx < s2.spec_free_list().len() implies (#[trigger] s2.spec_free_list()[idx]) < s2.spec_num_frames()
                && s2.spec_frames()[s2.spec_free_list()[idx] as int].spec_page_id() is None
                && s2.spec_frames()[s2.spec_free_list()[idx] as int].spec_pin_count() == 0
                && !s2.spec_frames()[s2.spec_free_list()[idx] as int].spec_dirty() by {
                assert(s1.spec_free_list()[idx] == s2.spec_free_list()[idx]);
            }
            assert forall|i: int|
                0 <= i < s2.spec_frames().len() implies ((#[trigger] s2.spec_frames()[i]).spec_page_id() is None
                <==> s2.spec_free_list().contains(i as usize)) by {
                if i == fid {
                    if s2.spec_free_list().contains(i as usize) {
                        let idx = choose|idx: int|
                            0 <= idx < s2.spec_free_list().len() && s2.spec_free_list()[idx] == i as usize;
                        assert(s2.spec_free_list()[idx] != fid);
                    }
                } else {
                    if s2.spec_frames()[i].spec_page_id() is None {
                        assert(s1.spec_free_list().contains(i as usize));
                        let idx = choose|idx: int|
                            0 <= idx < s1.spec_free_list().len() && s1.spec_free_list()[idx] == i as usize;
                        assert(idx < s1.spec_free_list().len() - 1);
                        assert(s2.spec_free_list()[idx] == i as usize);
                    } else {
                        if s2.spec_free_list().contains(i as usize) {
                            let idx = choose|idx: int|
                                0 <= idx < s2.spec_free_list().len() && s2.spec_free_list()[idx] == i as usize;
                            assert(s1.spec_free_list()[idx] == i as usize);
                        }
                    }
                }
            }
            assert forall|q: usize| #[trigger] s2.spec_page_table().dom().contains(q) implies s2.spec_page_table()[q] < s2.spec_num_frames()
                && s2.spec_frames()[s2.spec_page_table()[q] as int].spec_page_id() == Some(q) by {
                if q != page_id {
                    assert(s1.spec_page_table().dom().contains(q));
                    assert(s1.spec_page_table()[q] != fid);
                }
            }
            assert forall|i: int|
                0 <= i < s2.spec_frames().len() && (#[trigger] s2.spec_frames()[i]).spec_page_id() is Some
                implies s2.spec_page_table().dom().contains(s2.spec_frames()[i].spec_page_id()->0)
                && s2.spec_page_table()[s2.spec_frames()[i].spec_page_id()->0] == i by {
                if i != fid {
                    let q = s2.spec_frames()[i].spec_page_id()->0;
                    assert(s1.spec_page_table().dom().contains(q) && s1.spec_page_table()[q] == i);
                    assert(q != page_id);
                }
            }
            assert(s2.spec_page_table().len() == s1.spec_page_table().len() + 1);
            assert(s2.spec_page_table().len() + s2.spec_free_list().len() == s2.spec_num_frames());
            assert forall|i: int|
                0 <= i < s2.spec_replacer().spec_nodes().len() implies ((#[trigger] s2.spec_replacer().spec_nodes()[i]) is Some
                ==> s2.spec_frames()[i].spec_page_id() is Some) by {
                if i != fid && s2.spec_replacer().spec_nodes()[i] is Some {
                    assert(s1.spec_frames()[i].spec_page_id() is Some);
                }
            }
            assert(s2.spec_store() == s1.spec_store());
            assert forall|q: usize| #[trigger] s2.spec_page_table().dom().contains(q) implies s2.spec_store().spec_valid_page(q) by {
                if q != page_id {
                    assert(s1.spec_page_table().dom().contains(q));
                    assert(s1.spec_store().spec_valid_page(q));
                } else {
                    assert(s1.spec_store().spec_valid_page(page_id));
                }
            }
            assert forall|q: usize| s2.spec_written().contains(q) implies s2.spec_store().spec_valid_page(q) by {
                assert(s1.spec_written().contains(q));
            }
            assert forall|q: usize| #[trigger] s2.spec_page_table().dom().contains(q)
                && !s2.spec_frames()[s2.spec_page_table()[q] as int].spec_dirty()
                && s2.spec_written().contains(q) implies s2.spec_frames()[s2.spec_page_table()[q] as int].spec_data()
                == s2.spec_store().spec_page_data(q) by {
                if q != page_id {
                    assert(s1.spec_page_table().dom().contains(q));
                    assert(s1.spec_page_table()[q] != fid);
                    assert(s1.spec_written().contains(q));
                }
            }
            assert(s2.inv());
            // a previously flushed page is re-read with its stored bytes
            if s0.spec_written().contains(page_id) {
                assert(s0.spec_page_retained(page_id));
                assert(s1.spec_page_view(page_id) == s0.spec_page_view(page_id));
                assert(s2.spec_frames()[fid as int].spec_data() == s1.spec_store().spec_page_data(page_id));
            }
            // page contents preserved for everything but the fetched page
            assert forall|q: usize| q != page_id && #[trigger] s1.spec_page_retained(q) implies s2.spec_page_view(q)
                == s1.spec_page_view(q) && s2.spec_page_retained(q) by {
                if s1.spec_page_table().dom().contains(q) {
                    assert(s1.spec_page_table()[q] != fid);
                }
            }
            assert(s2.spec_store() == s1.spec_store());
            assert(Self::spec_keeps_store_validity(s0, s2));
            assert(Self::spec_keeps_retained_pages(s0, s2, page_id));
            assert(Self::spec_keeps_pinned_frames(s0, s2));
            assert(Self::spec_keeps_pinned_pages(s0, s2));
            assert forall|q: usize| q != page_id && #[trigger] s2.spec_resident(q) implies s0.spec_resident(q)
                && s2.spec_frame_of(q) == s0.spec_frame_of(q) by {
                assert(s1.spec_resident(q));
            }
            assert forall|q: usize| #[trigger] s0.spec_resident(q) && !s2.spec_resident(q) implies s0.spec_page_pin(q)
                == 0 && Self::spec_eviction_choice(s0, q) by {
                assert(q != page_id);
                assert(!s1.spec_resident(q));
            }
        }
        Some(fid)
    }


    /// Acquire a shared, pinned guard on `page_id`, fetching the page into
    /// a frame first if it is not resident, and record the access with the
    /// replacer.  The page's bytes and dirty bit are left as they were.
    /// Returns `None`, changing nothing, exactly when the page is absent,
    /// no frame is free and no frame is evictable.
    pub fn read_page(&mut self, page_id: usize) -> (guard: Option<ReadPageGuard>)
        requires
            old(self).inv(),
            old(self).spec_store().spec_valid_page(page_id),
            old(self).spec_page_pin(page_id) < 0xffff,
            old(self).spec_resident(page_id) ==> !old(self).spec_write_latched()[old(self).spec_frame_of(page_id) as int],
        ensures
            final(self).inv(),
            final(self).spec_num_frames() == old(self).spec_num_frames(),
            final(self).spec_next_page_id() == old(self).spec_next_page_id(),
            Self::spec_keeps_store_validity(*old(self), *final(self)),
            Self::spec_keeps_retained_pages(*old(self), *final(self), page_id),
            forall|q: usize|
                old(self).spec_written().contains(q) ==> final(self).spec_written().contains(q),
            forall|q: usize|
                #[trigger] old(self).spec_resident(q) && !final(self).spec_resident(q) ==> old(self).spec_page_pin(q) == 0
                    && Self::spec_eviction_choice(*old(self), q),
            forall|q: usize|
                q != page_id && #[trigger] final(self).spec_resident(q) ==> old(self).spec_resident(q)
                    && final(self).spec_frame_of(q) == old(self).spec_frame_of(q),
            forall|q: usize|
                q != page_id && #[trigger] old(self).spec_resident(q)
                    && old(self).spec_frames()[old(self).spec_frame_of(q) as int].spec_dirty()
                    && !final(self).spec_resident(q) ==> final(self).spec_written().contains(q)
                    && final(self).spec_store().spec_page_data(q)
                    == old(self).spec_frames()[old(self).spec_frame_of(q) as int].spec_data(),
            final(self).spec_replacer().spec_k() == old(self).spec_replacer().spec_k(),
            !old(self).spec_resident(page_id) && old(self).spec_free_list().len() == 0 && old(self).spec_nothing_evictable() ==> guard is None,
            match guard {
                None => {
                    &&& *final(self) == *old(self)
                    &&& !old(self).spec_resident(page_id)
                    &&& old(self).spec_free_list().len() == 0
                    &&& old(self).spec_nothing_evictable()
                },
                Some(g) => {
                    &&& g.spec_page_id() == page_id
                    &&& final(self).read_guard_valid(g)
                    &&& (old(self).spec_resident(page_id) ==> g.spec_frame_id() == old(self).spec_frame_of(page_id)
                        && final(self).spec_free_list() == old(self).spec_free_list())
                    &&& (!old(self).spec_resident(page_id) ==> final(self).spec_free_list().len() == (
                    if old(self).spec_free_list().len() > 0 {
                        (old(self).spec_free_list().len() - 1) as nat
                    } else {
                        0nat
                    }))
                    &&& final(self).spec_page_pin(page_id) == old(self).spec_page_pin(page_id) + 1
                    &&& final(self).spec_frames()[g.spec_frame_id() as int].spec_dirty() == (old(self).spec_resident(page_id)
                        && old(self).spec_frames()[old(self).spec_frame_of(page_id) as int].spec_dirty())
                    &&& (old(self).spec_page_view(page_id) matches Some(b) ==> final(self).spec_frames()[g.spec_frame_id() as int].spec_data() == b)
                    &&& final(self).spec_page_view(page_id) == Some(final(self).spec_frames()[g.spec_frame_id() as int].spec_data())
                    &&& (final(self).spec_replacer().spec_nodes()[g.spec_frame_id() as int] matches Some(n) && {
                        &&& n.spec_frame_id() == g.spec_frame_id()
                        &&& !n.spec_evictable()
                        &&& n.spec_history() == push_history(
                            if old(self).spec_resident(page_id) {
                                old(self).spec_node_history(g.spec_frame_id() as int)
                            } else {
                                Seq::empty()
                            },
                            old(self).spec_replacer().spec_k() as nat,
                            old(self).spec_replacer().spec_clock(),
                        )
                    })
                    &&& forall|j: int|
                        0 <= j < old(self).spec_replacer().spec_nodes().len() && j != g.spec_frame_id()
                            ==> #[trigger] final(self).spec_replacer().spec_nodes()[j]
                            == old(self).spec_replacer().spec_nodes()[j]
                            || (final(self).spec_replacer().spec_nodes()[j] is None
                            && slot_weight(old(self).spec_replacer().spec_nodes()[j]) == 1)
                    &&& final(self).spec_replacer().spec_clock() == (if old(self).spec_replacer().spec_clock() < u64::MAX {
                        (old(self).spec_replacer().spec_clock() + 1) as u64
                    } else {
                        old(self).spec_replacer().spec_clock()
                    })
                    &&& forall|i: int|
                        0 <= i < old(self).spec_frames().len() && i != g.spec_frame_id()
                            && (#[trigger] old(self).spec_frames()[i]).spec_pin_count() > 0
                            ==> final(self).spec_frames()[i] == old(self).spec_frames()[i]
                            && final(self).spec_write_latched()[i] == old(self).spec_write_latched()[i]
                    &&& forall|q: usize|
                        q != page_id && #[trigger] old(self).spec_resident(q) && old(self).spec_page_pin(q) > 0
                            ==> final(self).spec_resident(q) && final(self).spec_frame_of(q) == old(self).spec_frame_of(q)
                },
            },
    {
        let ghost s0 = *self;
        let fid = match self.get_frame_id(page_id) {
            None => {
                return None;
            },
            Some(f) => f,
        };
        let ghost s1 = *self;
        proof {
            reveal(BufferPoolManager::inv);
        }
        self.replacer.record_access(fid, None);
        self.replacer.set_evictable(fid, false);
        let _pin_count = vstd::std_specs::vec::vec_index_mut(&mut self.frames, fid).incr_pin_count();
        let guard = ReadPageGuard::new(fid, page_id);
        proof {
            let s2 = *self;
            assert forall|i: int|
                0 <= i < s2.spec_frames().len() && i != fid implies s2.spec_frames()[i]
                == s1.spec_frames()[i] by {}
            assert(slot_weight(s2.spec_replacer().spec_nodes()[fid as int]) == 0);
            assert forall|q: usize| #[trigger] s2.spec_page_table().dom().contains(q) implies s2.spec_page_table()[q] < s2.spec_num_frames()
                && s2.spec_frames()[s2.spec_page_table()[q] as int].spec_page_id() == Some(q) by {
                assert(s1.spec_page_table().dom().contains(q));
            }
            assert forall|q: usize| #[trigger] s2.spec_page_table().dom().contains(q) implies s2.spec_store().spec_valid_page(q) by {
                assert(s1.spec_page_table().dom().contains(q));
            }
            assert forall|q: usize| s2.spec_written().contains(q) implies s2.spec_store().spec_valid_page(q) by {
                assert(s1.spec_written().contains(q));
            }
            assert forall|q: usize| #[trigger] s2.spec_page_table().dom().contains(q)
                && !s2.spec_frames()[s2.spec_page_table()[q] as int].spec_dirty()
                && s2.spec_written().contains(q) implies s2.spec_frames()[s2.spec_page_table()[q] as int].spec_data()
                == s2.spec_store().spec_page_data(q) by {
                assert(s1.spec_page_table().dom().contains(q));
                assert(s1.spec_written().contains(q));
            }
            assert(s2.inv());
            assert forall|q: usize| q != page_id && #[trigger] s1.spec_page_retained(q) implies s2.spec_page_view(q)
                == s1.spec_page_view(q) && s2.spec_page_retained(q) by {
                if s1.spec_page_table().dom().contains(q) {
                    assert(s1.spec_page_table()[q] != fid);
                }
            }
            assert(Self::spec_keeps_retained_pages(s0, s2, page_id));
            assert forall|q: usize| q != page_id && #[trigger] s2.spec_resident(q) implies s0.spec_resident(q)
                && s2.spec_frame_of(q) == s0.spec_frame_of(q) by {
                assert(s1.spec_resident(q));
            }
            assert forall|q: usize| #[trigger] s0.spec_resident(q) && !s2.spec_resident(q) implies s0.spec_page_pin(q)
                == 0 && Self::spec_eviction_choice(s0, q) by {
                assert(q != page_id);
                assert(!s1.spec_resident(q));
            }
            assert forall|j: int|
                0 <= j < s0.spec_replacer().spec_nodes().len() && j != fid implies #[trigger] s2.spec_replacer().spec_nodes()[j]
                == s0.spec_replacer().spec_nodes()[j] || (s2.spec_replacer().spec_nodes()[j] is None
                && slot_weight(s0.spec_replacer().spec_nodes()[j]) == 1) by {
                assert(s2.spec_replacer().spec_nodes()[j] == s1.spec_replacer().spec_nodes()[j]);
            }
            reveal(BufferPoolManager::inv);
            assert forall|q: usize|
                q != page_id && #[trigger] s0.spec_resident(q) && s0.spec_frames()[s0.spec_frame_of(
                    q,
                ) as int].spec_dirty() && !s2.spec_resident(q) implies s2.spec_written().contains(q)
                && s2.spec_store().spec_page_data(q) == s0.spec_frames()[s0.spec_frame_of(
                q,
            ) as int].spec_data() by {
                assert(s0.spec_page_table().dom().contains(q));
                assert(s0.spec_page_retained(q));
                assert(s2.spec_page_view(q) == s0.spec_page_view(q));
            }
        }
        Some(guard)
    }

    /// Acquire an exclusive, pinned guard on `page_id`, fetching the page
    /// into a frame first if it is not resident, record the access with
    /// the replacer, and mark the frame dirty.  The page must not be
    /// pinned by any other guard.  Returns `None`, changing nothing,
    /// exactly when the page is absent, no frame is free and no frame is
    /// evictable.
    pub fn write_page(&mut self, page_id: usize) -> (guard: Option<WritePageGuard>)
        requires
            old(self).inv(),
            old(self).spec_store().spec_valid_page(page_id),
            old(self).spec_page_pin(page_id) == 0,
        ensures
            final(self).inv(),
            final(self).spec_num_frames() == old(self).spec_num_frames(),
            final(self).spec_next_page_id() == old(self).spec_next_page_id(),
            Self::spec_keeps_store_validity(*old(self), *final(self)),
            Self::spec_keeps_retained_pages(*old(self), *final(self), page_id),
            forall|q: usize|
                old(self).spec_written().contains(q) ==> final(self).spec_written().contains(q),
            forall|q: usize|
                #[trigger] old(self).spec_resident(q) && !final(self).spec_resident(q) ==> old(self).spec_page_pin(q) == 0
                    && Self::spec_eviction_choice(*old(self), q),
            forall|q: usize|
                q != page_id && #[trigger] final(self).spec_resident(q) ==> old(self).spec_resident(q)
                    && final(self).spec_frame_of(q) == old(self).spec_frame_of(q),
            forall|q: usize|
                q != page_id && #[trigger] old(self).spec_resident(q)
                    && old(self).spec_frames()[old(self).spec_frame_of(q) as int].spec_dirty()
                    && !final(self).spec_resident(q) ==> final(self).spec_written().contains(q)
                    && final(self).spec_store().spec_page_data(q)
                    == old(self).spec_frames()[old(self).spec_frame_of(q) as int].spec_data(),
            final(self).spec_replacer().spec_k() == old(self).spec_replacer().spec_k(),
            !old(self).spec_resident(page_id) && old(self).spec_free_list().len() == 0 && old(self).spec_nothing_evictable() ==> guard is None,
            match guard {
                None => {
                    &&& *final(self) == *old(self)
                    &&& !old(self).spec_resident(page_id)
                    &&& old(self).spec_free_list().len() == 0
                    &&& old(self).spec_nothing_evictable()
                },
                Some(g) => {
                    &&& g.spec_page_id() == page_id
                    &&& final(self).write_guard_valid(g)
                    &&& (old(self).spec_resident(page_id) ==> g.spec_frame_id() == old(self).spec_frame_of(page_id)
                        && final(self).spec_free_list() == old(self).spec_free_list())
                    &&& (!old(self).spec_resident(page_id) ==> final(self).spec_free_list().len() == (
                    if old(self).spec_free_list().len() > 0 {
                        (old(self).spec_free_list().len() - 1) as nat
                    } else {
                        0nat
                    }))
                    &&& final(self).spec_page_pin(page_id) == 1
                    &&& final(self).spec_frames()[g.spec_frame_id() as int].spec_dirty()
                    &&& (old(self).spec_page_view(page_id) matches Some(b) ==> final(self).spec_frames()[g.spec_frame_id() as int].spec_data() == b)
                    &&& final(self).spec_page_view(page_id) == Some(final(self).spec_frames()[g.spec_frame_id() as int].spec_data())
                    &&& (final(self).spec_replacer().spec_nodes()[g.spec_frame_id() as int] matches Some(n) && {
                        &&& n.spec_frame_id() == g.spec_frame_id()
                        &&& !n.spec_evictable()
                        &&& n.spec_history() == push_history(
                            if old(self).spec_resident(page_id) {
                                old(self).spec_node_history(g.spec_frame_id() as int)
                            } else {
                                Seq::empty()
                            },
                            old(self).spec_replacer().spec_k() as nat,
                            old(self).spec_replacer().spec_clock(),
                        )
                    })
                    &&& forall|j: int|
                        0 <= j < old(self).spec_replacer().spec_nodes().len() && j != g.spec_frame_id()
                            ==> #[trigger] final(self).spec_replacer().spec_nodes()[j]
                            == old(self).spec_replacer().spec_nodes()[j]
                            || (final(self).spec_replacer().spec_nodes()[j] is None
                            && slot_weight(old(self).spec_replacer().spec_nodes()[j]) == 1)
                    &&& final(self).spec_replacer().spec_clock() == (if old(self).spec_replacer().spec_clock() < u64::MAX {
                        (old(self).spec_replacer().spec_clock() + 1) as u64
                    } else {
                        old(self).spec_replacer().spec_clock()
                    })
                    &&& forall|i: int|
                        0 <= i < old(self).spec_frames().len() && i != g.spec_frame_id()
                            && (#[trigger] old(self).spec_frames()[i]).spec_pin_count() > 0
                            ==> final(self).spec_frames()[i] == old(self).spec_frames()[i]
                            && final(self).spec_write_latched()[i] == old(self).spec_write_latched()[i]
                    &&& forall|q: usize|
                        q != page_id && #[trigger] old(self).spec_resident(q) && old(self).spec_page_pin(q) > 0
                            ==> final(self).spec_resident(q) && final(self).spec_frame_of(q) == old(self).spec_frame_of(q)
                },
            },
    {
        let ghost s0 = *self;
        let fid = match self.get_frame_id(page_id) {
            None => {
                return None;
            },
            Some(f) => f,
        };
        let ghost s1 = *self;
        proof {
            reveal(BufferPoolManager::inv);
        }
        self.replacer.record_access(fid, None);
        self.replacer.set_evictable(fid, false);
        let _pin_count = vstd::std_specs::vec::vec_index_mut(&mut self.frames, fid).incr_pin_count();
        vstd::std_specs::vec::vec_index_mut(&mut self.frames, fid).set_dirty(true);
        self.write_latched.set(fid, true);
        let guard = WritePageGuard::new(fid, page_id);
        proof {
            let s2 = *self;
            assert forall|i: int|
                0 <= i < s2.spec_frames().len() && i != fid implies s2.spec_frames()[i]
                == s1.spec_frames()[i] by {}
            assert(slot_weight(s2.spec_replacer().spec_nodes()[fid as int]) == 0);
            assert forall|q: usize| #[trigger] s2.spec_page_table().dom().contains(q) implies s2.spec_page_table()[q] < s2.spec_num_frames()
                && s2.spec_frames()[s2.spec_page_table()[q] as int].spec_page_id() == Some(q) by {
                assert(s1.spec_page_table().dom().contains(q));
            }
            assert forall|q: usize| #[trigger] s2.spec_page_table().dom().contains(q) implies s2.spec_store().spec_valid_page(q) by {
                assert(s1.spec_page_table().dom().contains(q));
            }
            assert forall|q: usize| s2.spec_written().contains(q) implies s2.spec_store().spec_valid_page(q) by {
                assert(s1.spec_written().contains(q));
            }
            assert forall|q: usize| #[trigger] s2.spec_page_table().dom().contains(q)
                && !s2.spec_frames()[s2.spec_page_table()[q] as int].spec_dirty()
                && s2.spec_written().contains(q) implies s2.spec_frames()[s2.spec_page_table()[q] as int].spec_data()
                == s2.spec_store().spec_page_data(q) by {
                assert(s1.spec_page_table().dom().contains(q));
                assert(s1.spec_written().contains(q));
                assert(s1.spec_page_table()[q] != fid);
            }
            assert(s2.inv());
            assert forall|q: usize| q != page_id && #[trigger] s1.spec_page_retained(q) implies s2.spec_page_view(q)
                == s1.spec_page_view(q) && s2.spec_page_retained(q) by {
                if s1.spec_page_table().dom().contains(q) {
                    assert(s1.spec_page_table()[q] != fid);
                }
            }
            assert(Self::spec_keeps_retained_pages(s0, s2, page_id));
            assert forall|q: usize| q != page_id && #[trigger] s2.spec_resident(q) implies s0.spec_resident(q)
                && s2.spec_frame_of(q) == s0.spec_frame_of(q) by {
                assert(s1.spec_resident(q));
            }
            assert forall|q: usize| #[trigger] s0.spec_resident(q) && !s2.spec_resident(q) implies s0.spec_page_pin(q)
                == 0 && Self::spec_eviction_choice(s0, q) by {
                assert(q != page_id);
                assert(!s1.spec_resident(q));
            }
            assert forall|j: int|
                0 <= j < s0.spec_replacer().spec_nodes().len() && j != fid implies #[trigger] s2.spec_replacer().spec_nodes()[j]
                == s0.spec_replacer().spec_nodes()[j] || (s2.spec_replacer().spec_nodes()[j] is None
                && slot_weight(s0.spec_replacer().spec_nodes()[j]) == 1) by {
                assert(s2.spec_replacer().spec_nodes()[j] == s1.spec_replacer().spec_nodes()[j]);
            }
            reveal(BufferPoolManager::inv);
            assert forall|q: usize|
                q != page_id && #[trigger] s0.spec_resident(q) && s0.spec_frames()[s0.spec_frame_of(
                    q,
                ) as int].spec_dirty() && !s2.spec_resident(q) implies s2.spec_written().contains(q)
                && s2.spec_store().spec_page_data(q) == s0.spec_frames()[s0.spec_frame_of(
                q,
            ) as int].spec_data() by {
                assert(s0.spec_page_table().dom().contains(q));
                assert(s0.spec_page_retained(q));
                assert(s2.spec_page_view(q) == s0.spec_page_view(q));
            }
        }
        Some(guard)
    }


    /// Release a read guard: unpin its frame, and mark the frame evictable
    /// when this was the last pin.
    pub fn drop_read_guard(&mut self, guard: ReadPageGuard)
        requires
            old(self).inv(),
            old(self).read_guard_valid(guard),
        ensures
            final(self).inv(),
            final(self).spec_num_frames() == old(self).spec_num_frames(),
            final(self).spec_next_page_id() == old(self).spec_next_page_id(),
            final(self).spec_write_latched() == old(self).spec_write_latched(),
            final(self).spec_free_list() == old(self).spec_free_list(),
            final(self).spec_page_table() == old(self).spec_page_table(),
            final(self).spec_written() == old(self).spec_written(),
            final(self).spec_store() == old(self).spec_store(),
            final(self).spec_page_pin(guard.spec_page_id()) == old(self).spec_page_pin(guard.spec_page_id()) - 1,
            old(self).spec_page_pin(guard.spec_page_id()) == 1 ==> slot_weight(
                final(self).spec_replacer().spec_nodes()[guard.spec_frame_id() as int],
            ) == 1,
            old(self).spec_page_pin(guard.spec_page_id()) > 1 ==> final(self).spec_replacer()
                == old(self).spec_replacer(),
            forall|j: int|
                0 <= j < old(self).spec_replacer().spec_nodes().len() && j != guard.spec_frame_id()
                    ==> final(self).spec_replacer().spec_nodes()[j] == old(self).spec_replacer().spec_nodes()[j],
            forall|i: int|
                0 <= i < old(self).spec_frames().len() ==> (#[trigger] final(self).spec_frames()[i]).spec_data()
                    == old(self).spec_frames()[i].spec_data()
                    && final(self).spec_frames()[i].spec_dirty() == old(self).spec_frames()[i].spec_dirty()
                    && final(self).spec_frames()[i].spec_page_id() == old(self).spec_frames()[i].spec_page_id(),
            forall|i: int|
                0 <= i < old(self).spec_frames().len() && i != guard.spec_frame_id()
                    ==> (#[trigger] final(self).spec_frames()[i]) == old(self).spec_frames()[i],
            forall|q: usize| #[trigger] final(self).spec_page_view(q) == old(self).spec_page_view(q),
            forall|q: usize|
                q != guard.spec_page_id() && #[trigger] old(self).spec_page_retained(q)
                    ==> final(self).spec_page_retained(q),
    {
        proof {
            reveal(BufferPoolManager::inv);
        }
        let ghost s0 = *self;
        let fid = guard.frame_id();
        let new_pin = vstd::std_specs::vec::vec_index_mut(&mut self.frames, fid).decr_pin_count();
        if new_pin == 0 {
            self.replacer.set_evictable(fid, true);
        }
        proof {
            let s2 = *self;
            assert forall|i: int|
                0 <= i < s2.spec_frames().len() && i != fid implies s2.spec_frames()[i]
                == s0.spec_frames()[i] by {}
            assert forall|q: usize| #[trigger] s2.spec_page_table().dom().contains(q) implies s2.spec_page_table()[q] < s2.spec_num_frames()
                && s2.spec_frames()[s2.spec_page_table()[q] as int].spec_page_id() == Some(q) by {
                assert(s0.spec_page_table().dom().contains(q));
            }
            assert forall|q: usize| #[trigger] s2.spec_page_table().dom().contains(q) implies s2.spec_store().spec_valid_page(q) by {
                assert(s0.spec_page_table().dom().contains(q));
            }
            assert forall|q: usize| s2.spec_written().contains(q) implies s2.spec_store().spec_valid_page(q) by {
                assert(s0.spec_written().contains(q));
            }
            assert forall|q: usize| #[trigger] s2.spec_page_table().dom().contains(q)
                && !s2.spec_frames()[s2.spec_page_table()[q] as int].spec_dirty()
                && s2.spec_written().contains(q) implies s2.spec_frames()[s2.spec_page_table()[q] as int].spec_data()
                == s2.spec_store().spec_page_data(q) by {
                assert(s0.spec_page_table().dom().contains(q));
                assert(s0.spec_written().contains(q));
            }
            assert(s2.inv());
            assert forall|q: usize| #[trigger] s2.spec_page_view(q) == s0.spec_page_view(q) by {
                if s0.spec_page_table().dom().contains(q) {
                    assert(s0.spec_page_table()[q] < s0.spec_num_frames());
                }
            }
        }
    }

    /// Release a write guard: drop the frame's write latch, unpin it, and
    /// mark it evictable.  The written bytes stay in the frame, which
    /// remains dirty until flushed or evicted.
    pub fn drop_write_guard(&mut self, guard: WritePageGuard)
        requires
            old(self).inv(),
            old(self).write_guard_valid(guard),
        ensures
            final(self).inv(),
            final(self).spec_num_frames() == old(self).spec_num_frames(),
            final(self).spec_next_page_id() == old(self).spec_next_page_id(),
            final(self).spec_free_list() == old(self).spec_free_list(),
            final(self).spec_page_table() == old(self).spec_page_table(),
            final(self).spec_written() == old(self).spec_written(),
            final(self).spec_store() == old(self).spec_store(),
            final(self).spec_page_pin(guard.spec_page_id()) == 0,
            !final(self).spec_write_latched()[guard.spec_frame_id() as int],
            final(self).spec_page_retained(guard.spec_page_id()),
            slot_weight(
                final(self).spec_replacer().spec_nodes()[guard.spec_frame_id() as int],
            ) == 1,
            forall|j: int|
                0 <= j < old(self).spec_replacer().spec_nodes().len() && j != guard.spec_frame_id()
                    ==> final(self).spec_replacer().spec_nodes()[j] == old(self).spec_replacer().spec_nodes()[j],
            forall|i: int|
                0 <= i < old(self).spec_frames().len() ==> (#[trigger] final(self).spec_frames()[i]).spec_data()
                    == old(self).spec_frames()[i].spec_data()
                    && final(self).spec_frames()[i].spec_dirty() == old(self).spec_frames()[i].spec_dirty()
                    && final(self).spec_frames()[i].spec_page_id() == old(self).spec_frames()[i].spec_page_id(),
            forall|i: int|
                0 <= i < old(self).spec_frames().len() && i != guard.spec_frame_id()
                    ==> (#[trigger] final(self).spec_frames()[i]) == old(self).spec_frames()[i]
                    && final(self).spec_write_latched()[i] == old(self).spec_write_latched()[i],
            forall|q: usize| #[trigger] final(self).spec_page_view(q) == old(self).spec_page_view(q),
            forall|q: usize|
                q != guard.spec_page_id() && #[trigger] old(self).spec_page_retained(q)
                    ==> final(self).spec_page_retained(q),
    {
        proof {
            reveal(BufferPoolManager::inv);
        }
        let ghost s0 = *self;
        let fid = guard.frame_id();
        self.write_latched.set(fid, false);
        let new_pin = vstd::std_specs::vec::vec_index_mut(&mut self.frames, fid).decr_pin_count();
        self.replacer.set_evictable(fid, true);
        proof {
            let s2 = *self;
            assert forall|i: int|
                0 <= i < s2.spec_frames().len() && i != fid implies s2.spec_frames()[i]
                == s0.spec_frames()[i] by {}
            assert forall|q: usize| #[trigger] s2.spec_page_table().dom().contains(q) implies s2.spec_page_table()[q] < s2.spec_num_frames()
                && s2.spec_frames()[s2.spec_page_table()[q] as int].spec_page_id() == Some(q) by {
                assert(s0.spec_page_table().dom().contains(q));
            }
            assert forall|q: usize| #[trigger] s2.spec_page_table().dom().contains(q) implies s2.spec_store().spec_valid_page(q) by {
                assert(s0.spec_page_table().dom().contains(q));
            }
            assert forall|q: usize| s2.spec_written().contains(q) implies s2.spec_store().spec_valid_page(q) by {
                assert(s0.spec_written().contains(q));
            }
            assert forall|q: usize| #[trigger] s2.spec_page_table().dom().contains(q)
                && !s2.spec_frames()[s2.spec_page_table()[q] as int].spec_dirty()
                && s2.spec_written().contains(q) implies s2.spec_frames()[s2.spec_page_table()[q] as int].spec_data()
                == s2.spec_store().spec_page_data(q) by {
                assert(s0.spec_page_table().dom().contains(q));
                assert(s0.spec_written().contains(q));
            }
            assert(s2.inv());
            assert forall|q: usize| #[trigger] s2.spec_page_view(q) == s0.spec_page_view(q) by {
                if s0.spec_page_table().dom().contains(q) {
                    assert(s0.spec_page_table()[q] < s0.spec_num_frames());
                }
            }
        }
    }

    /// Read access to the page bytes under a read guard.
    pub fn read_guard_data(&self, guard: &ReadPageGuard) -> (data: &Vec<u8>)
        requires
            self.inv(),
            self.read_guard_valid(*guard),
        ensures
            data@ == self.spec_frames()[guard.spec_frame_id() as int].spec_data(),
            data@.len() == PAGE_SIZE,
    {
        proof {
            reveal(BufferPoolManager::inv);
        }
        self.frames[guard.frame_id()].get_readable_data()
    }

    /// Read access to the page bytes under a write guard.
    pub fn write_guard_data(&self, guard: &WritePageGuard) -> (data: &Vec<u8>)
        requires
            self.inv(),
            self.write_guard_valid(*guard),
        ensures
            data@ == self.spec_frames()[guard.spec_frame_id() as int].spec_data(),
            data@.len() == PAGE_SIZE,
    {
        proof {
            reveal(BufferPoolManager::inv);
        }
        self.frames[guard.frame_id()].get_readable_data()
    }

    /// Overwrite `data.len()` bytes of the guarded page, starting at
    /// `offset`.  Only the guarded frame's bytes change.
    pub fn write_guard_write_bytes(&mut self, guard: &WritePageGuard, offset: usize, data: &[u8])
        requires
            old(self).inv(),
            old(self).write_guard_valid(*guard),
            offset + data@.len() <= PAGE_SIZE,
        ensures
            final(self).inv(),
            final(self).write_guard_valid(*guard),
            final(self).spec_num_frames() == old(self).spec_num_frames(),
            final(self).spec_next_page_id() == old(self).spec_next_page_id(),
            final(self).spec_write_latched() == old(self).spec_write_latched(),
            final(self).spec_free_list() == old(self).spec_free_list(),
            final(self).spec_page_table() == old(self).spec_page_table(),
            final(self).spec_written() == old(self).spec_written(),
            final(self).spec_store() == old(self).spec_store(),
            final(self).spec_replacer() == old(self).spec_replacer(),
            final(self).spec_frames()[guard.spec_frame_id() as int].spec_data() == old(self).spec_frames()[guard.spec_frame_id() as int].spec_data().subrange(0, offset as int)
                + data@ + old(self).spec_frames()[guard.spec_frame_id() as int].spec_data().subrange(offset + data@.len(), PAGE_SIZE as int),
            final(self).spec_page_view(guard.spec_page_id()) == Some(final(self).spec_frames()[guard.spec_frame_id() as int].spec_data()),
            forall|i: int|
                0 <= i < old(self).spec_frames().len() && i != guard.spec_frame_id()
                    ==> (#[trigger] final(self).spec_frames()[i]) == old(self).spec_frames()[i],
            forall|q: usize|
                q != guard.spec_page_id() ==> #[trigger] final(self).spec_page_view(q) == old(self).spec_page_view(q)
                    && (old(self).spec_page_retained(q) ==> final(self).spec_page_retained(q)),
    {
        proof {
            reveal(BufferPoolManager::inv);
        }
        let ghost s0 = *self;
        let fid = guard.frame_id();
        vstd::std_specs::vec::vec_index_mut(&mut self.frames, fid).write_bytes(offset, data);
        proof {
            let s2 = *self;
            assert forall|i: int|
                0 <= i < s2.spec_frames().len() && i != fid implies s2.spec_frames()[i]
                == s0.spec_frames()[i] by {}
            assert forall|q: usize| #[trigger] s2.spec_page_table().dom().contains(q) implies s2.spec_page_table()[q] < s2.spec_num_frames()
                && s2.spec_frames()[s2.spec_page_table()[q] as int].spec_page_id() == Some(q) by {
                assert(s0.spec_page_table().dom().contains(q));
            }
            assert forall|q: usize| #[trigger] s2.spec_page_table().dom().contains(q) implies s2.spec_store().spec_valid_page(q) by {
                assert(s0.spec_page_table().dom().contains(q));
            }
            assert forall|q: usize| s2.spec_written().contains(q) implies s2.spec_store().spec_valid_page(q) by {
                assert(s0.spec_written().contains(q));
            }
            assert forall|q: usize| #[trigger] s2.spec_page_table().dom().contains(q)
                && !s2.spec_frames()[s2.spec_page_table()[q] as int].spec_dirty()
                && s2.spec_written().contains(q) implies s2.spec_frames()[s2.spec_page_table()[q] as int].spec_data()
                == s2.spec_store().spec_page_data(q) by {
                assert(s0.spec_page_table().dom().contains(q));
                assert(s0.spec_written().contains(q));
                assert(s0.spec_page_table()[q] != fid);
            }
            assert(s2.inv());
            assert forall|q: usize| q != guard.spec_page_id() implies #[trigger] s2.spec_page_view(q) == s0.spec_page_view(q)
                && (s0.spec_page_retained(q) ==> s2.spec_page_retained(q)) by {
                if s0.spec_page_table().dom().contains(q) {
                    assert(s0.spec_page_table()[q] != fid);
                }
            }
        }
    }


    /// Write the page's current bytes to the backing store and clear its
    /// dirty bit.  A page that is not resident, or not dirty, is left
    /// alone.  The page must not be under a write guard.
    pub fn flush_page(&mut self, page_id: usize)
        requires
            old(self).inv(),
            old(self).spec_resident(page_id) ==> !old(self).spec_write_latched()[old(self).spec_frame_of(page_id) as int],
        ensures
            final(self).inv(),
            final(self).spec_num_frames() == old(self).spec_num_frames(),
            final(self).spec_next_page_id() == old(self).spec_next_page_id(),
            final(self).spec_write_latched() == old(self).spec_write_latched(),
            final(self).spec_free_list() == old(self).spec_free_list(),
            final(self).spec_page_table() == old(self).spec_page_table(),
            final(self).spec_replacer() == old(self).spec_replacer(),
            Self::spec_keeps_store_validity(*old(self), *final(self)),
            !(old(self).spec_resident(page_id) && old(self).spec_frames()[old(self).spec_frame_of(page_id) as int].spec_dirty())
                ==> *final(self) == *old(self),
            old(self).spec_resident(page_id) && old(self).spec_frames()[old(self).spec_frame_of(page_id) as int].spec_dirty()
                ==> {
                &&& !final(self).spec_frames()[old(self).spec_frame_of(page_id) as int].spec_dirty()
                &&& final(self).spec_written() == old(self).spec_written().insert(page_id)
                &&& final(self).spec_store().spec_page_data(page_id) == old(self).spec_frames()[old(self).spec_frame_of(page_id) as int].spec_data()
                &&& forall|p: usize| p != page_id ==> final(self).spec_store().spec_page_data(p) == old(self).spec_store().spec_page_data(p)
                &&& final(self).spec_page_retained(page_id)
            },
            forall|i: int|
                0 <= i < old(self).spec_frames().len() ==> (#[trigger] final(self).spec_frames()[i]).spec_data()
                    == old(self).spec_frames()[i].spec_data()
                    && final(self).spec_frames()[i].spec_page_id() == old(self).spec_frames()[i].spec_page_id()
                    && final(self).spec_frames()[i].spec_pin_count() == old(self).spec_frames()[i].spec_pin_count(),
            forall|i: int|
                0 <= i < old(self).spec_frames().len()
                    && !(old(self).spec_resident(page_id) && i == old(self).spec_frame_of(page_id))
                    ==> (#[trigger] final(self).spec_frames()[i]) == old(self).spec_frames()[i],
            forall|q: usize| #[trigger] final(self).spec_page_view(q) == old(self).spec_page_view(q),
            forall|q: usize| #[trigger] old(self).spec_page_retained(q) ==> final(self).spec_page_retained(q),
            forall|q: usize|
                old(self).spec_written().contains(q) ==> final(self).spec_written().contains(q),
    {
        proof {
            reveal(BufferPoolManager::inv);
        }
        let ghost s0 = *self;
        let fid = match self.page_table.get(&page_id) {
            None => {
                return ;
            },
            Some(f) => *f,
        };
        if !self.frames[fid].is_dirty() {
            return ;
        }
        let buf = vstd::std_specs::vec::vec_index_mut(&mut self.frames, fid).get_data_mut();
        let res = self.page_operator.write_page(page_id, &buf);
        match res {
            Ok(_) => {},
            Err(_) => {
                // the store serves every resident page, so this flush
                // cannot fail
                proof {
                    assert(false);
                }
            },
        }
        vstd::std_specs::vec::vec_index_mut(&mut self.frames, fid).set_data(buf);
        vstd::std_specs::vec::vec_index_mut(&mut self.frames, fid).set_dirty(false);
        self.written_pages.insert(page_id);
        proof {
            let s2 = *self;
            assert forall|i: int|
                0 <= i < s2.spec_frames().len() && i != fid implies s2.spec_frames()[i]
                == s0.spec_frames()[i] by {}
            assert(s2.spec_frames()[fid as int].spec_data() == s0.spec_frames()[fid as int].spec_data());
            assert forall|q: usize| #[trigger] s2.spec_page_table().dom().contains(q) implies s2.spec_page_table()[q] < s2.spec_num_frames()
                && s2.spec_frames()[s2.spec_page_table()[q] as int].spec_page_id() == Some(q) by {
                assert(s0.spec_page_table().dom().contains(q));
            }
            assert forall|q: usize| #[trigger] s2.spec_page_table().dom().contains(q) implies s2.spec_store().spec_valid_page(q) by {
                assert(s0.spec_page_table().dom().contains(q));
                assert(s0.spec_store().spec_valid_page(q));
            }
            assert forall|q: usize| s2.spec_written().contains(q) implies s2.spec_store().spec_valid_page(q) by {
                if q != page_id {
                    assert(s0.spec_written().contains(q));
                    assert(s0.spec_store().spec_valid_page(q));
                }
            }
            assert forall|q: usize| #[trigger] s2.spec_page_table().dom().contains(q)
                && !s2.spec_frames()[s2.spec_page_table()[q] as int].spec_dirty()
                && s2.spec_written().contains(q) implies s2.spec_frames()[s2.spec_page_table()[q] as int].spec_data()
                == s2.spec_store().spec_page_data(q) by {
                assert(s0.spec_page_table().dom().contains(q));
                if q != page_id {
                    assert(s0.spec_page_table()[q] != fid);
                    assert(s0.spec_written().contains(q));
                }
            }
            assert(s2.inv());
            assert forall|q: usize| #[trigger] s2.spec_page_view(q) == s0.spec_page_view(q) by {
                if q != page_id && s0.spec_page_table().dom().contains(q) {
                    assert(s0.spec_page_table()[q] != fid);
                }
            }
            assert forall|q: usize| #[trigger] s0.spec_page_retained(q) implies s2.spec_page_retained(q) by {
                if q != page_id && s0.spec_page_table().dom().contains(q) {
                    assert(s0.spec_page_table()[q] != fid);
                }
            }
        }
    }

    /// Flush every dirty resident page to the backing store.  No frame may
    /// be under a write guard.
    pub fn flush_all_pages(&mut self)
        requires
            old(self).inv(),
            forall|i: int|
                0 <= i < old(self).spec_write_latched().len() ==> !(#[trigger] old(self).spec_write_latched()[i]),
        ensures
            final(self).inv(),
            final(self).spec_num_frames() == old(self).spec_num_frames(),
            final(self).spec_next_page_id() == old(self).spec_next_page_id(),
            final(self).spec_write_latched() == old(self).spec_write_latched(),
            final(self).spec_free_list() == old(self).spec_free_list(),
            final(self).spec_page_table() == old(self).spec_page_table(),
            final(self).spec_replacer() == old(self).spec_replacer(),
            Self::spec_keeps_store_validity(*old(self), *final(self)),
            forall|i: int|
                0 <= i < final(self).spec_frames().len() ==> !(#[trigger] final(self).spec_frames()[i]).spec_dirty(),
            forall|i: int|
                0 <= i < old(self).spec_frames().len() ==> (#[trigger] final(self).spec_frames()[i]).spec_data()
                    == old(self).spec_frames()[i].spec_data()
                    && final(self).spec_frames()[i].spec_page_id() == old(self).spec_frames()[i].spec_page_id()
                    && final(self).spec_frames()[i].spec_pin_count() == old(self).spec_frames()[i].spec_pin_count(),
            forall|q: usize| #[trigger] final(self).spec_page_view(q) == old(self).spec_page_view(q),
            forall|q: usize|
                old(self).spec_written().contains(q) ==> final(self).spec_written().contains(q),
            forall|q: usize|
                #[trigger] old(self).spec_resident(q) && old(self).spec_frames()[old(self).spec_frame_of(q) as int].spec_dirty()
                    ==> final(self).spec_written().contains(q) && final(self).spec_store().spec_page_data(q)
                    == old(self).spec_frames()[old(self).spec_frame_of(q) as int].spec_data(),
    {
        proof {
            reveal(BufferPoolManager::inv);
        }
        let ghost s0 = *self;
        let num_frames = self.num_frames;
        let mut i: usize = 0;
        while i < num_frames
            invariant
                self.inv(),
                s0.inv(),
                i <= num_frames,
                num_frames == self.spec_num_frames(),
                self.spec_num_frames() == s0.spec_num_frames(),
                self.spec_next_page_id() == s0.spec_next_page_id(),
                self.spec_write_latched() == s0.spec_write_latched(),
                self.spec_free_list() == s0.spec_free_list(),
                self.spec_page_table() == s0.spec_page_table(),
                self.spec_replacer() == s0.spec_replacer(),
                Self::spec_keeps_store_validity(s0, *self),
                forall|j: int|
                    0 <= j < s0.spec_write_latched().len() ==> !(#[trigger] s0.spec_write_latched()[j]),
                forall|j: int|
                    0 <= j < i ==> !(#[trigger] self.spec_frames()[j]).spec_dirty(),
                forall|j: int|
                    0 <= j < s0.spec_frames().len() ==> (#[trigger] self.spec_frames()[j]).spec_data()
                        == s0.spec_frames()[j].spec_data()
                        && self.spec_frames()[j].spec_page_id() == s0.spec_frames()[j].spec_page_id()
                        && self.spec_frames()[j].spec_pin_count() == s0.spec_frames()[j].spec_pin_count()
                        && (self.spec_frames()[j].spec_dirty() ==> s0.spec_frames()[j].spec_dirty()),
                forall|q: usize| #[trigger] self.spec_page_view(q) == s0.spec_page_view(q),
                forall|q: usize|
                    s0.spec_written().contains(q) ==> self.spec_written().contains(q),
                forall|q: usize|
                    #[trigger] s0.spec_resident(q) && s0.spec_frames()[s0.spec_frame_of(q) as int].spec_dirty()
                        && !self.spec_frames()[s0.spec_frame_of(q) as int].spec_dirty()
                        ==> self.spec_written().contains(q) && self.spec_store().spec_page_data(q)
                        == s0.spec_frames()[s0.spec_frame_of(q) as int].spec_data(),
            decreases num_frames - i,
        {
            proof {
                reveal(BufferPoolManager::inv);
            }
            let ghost sl = *self;
            let maybe_pid = self.frames[i].get_page_id();
            match maybe_pid {
                Some(pid) => {
                    proof {
                        assert(sl.spec_page_table().dom().contains(pid) && sl.spec_page_table()[pid] == i);
                    }
                    self.flush_page(pid);
                    proof {
                        assert forall|j: int| 0 <= j < i + 1 implies !(#[trigger] self.spec_frames()[j]).spec_dirty() by {
                            if j < i {
                                assert(!sl.spec_frames()[j].spec_dirty());
                            }
                        }
                        assert forall|q: usize|
                            #[trigger] s0.spec_resident(q) && s0.spec_frames()[s0.spec_frame_of(q) as int].spec_dirty()
                                && !self.spec_frames()[s0.spec_frame_of(q) as int].spec_dirty()
                                implies self.spec_written().contains(q) && self.spec_store().spec_page_data(q)
                                == s0.spec_frames()[s0.spec_frame_of(q) as int].spec_data() by {
                            reveal(BufferPoolManager::inv);
                            let f = s0.spec_frame_of(q);
                            assert(s0.spec_page_table().dom().contains(q));
                            assert(f < s0.spec_num_frames());
                            assert(sl.spec_page_table().dom().contains(q) && sl.spec_page_table()[q] == f);
                            if q == pid {
                                if !sl.spec_frames()[i as int].spec_dirty() {
                                    assert(sl.spec_written().contains(q) && sl.spec_store().spec_page_data(q)
                                        == s0.spec_frames()[f as int].spec_data());
                                }
                            } else {
                                assert(sl.spec_page_table()[q] != i);
                                assert(self.spec_frames()[f as int].spec_dirty() == sl.spec_frames()[f as int].spec_dirty());
                                assert(sl.spec_written().contains(q) && sl.spec_store().spec_page_data(q)
                                    == s0.spec_frames()[f as int].spec_data());
                            }
                        }
                    }
                },
                None => {
                    proof {
                        assert(!sl.spec_frames()[i as int].spec_dirty()) by {
                            if sl.spec_frames()[i as int].spec_dirty() {
                                assert(sl.spec_free_list().contains(i));
                                let idx = choose|idx: int|
                                    0 <= idx < sl.spec_free_list().len() && sl.spec_free_list()[idx] == i;
                                assert(sl.spec_frames()[sl.spec_free_list()[idx] as int].spec_pin_count() == 0);
                            }
                        }
                    }
                },
            }
            i = i + 1;
        }
    }

    /// Remove a page from the pool and forget its backing-store copy.
    /// Returns `false`, changing nothing, when the page is currently
    /// pinned; returns `true` when the page was absent or was removed.
    pub fn delete_page(&mut self, page_id: usize) -> (deleted: bool)
        requires
            old(self).inv(),
        ensures
            final(self).inv(),
            final(self).spec_num_frames() == old(self).spec_num_frames(),
            final(self).spec_next_page_id() == old(self).spec_next_page_id(),
            final(self).spec_write_latched() == old(self).spec_write_latched(),
            final(self).spec_store() == old(self).spec_store(),
            deleted == !(old(self).spec_resident(page_id) && old(self).spec_page_pin(page_id) > 0),
            !deleted ==> *final(self) == *old(self),
            deleted ==> {
                &&& !final(self).spec_resident(page_id)
                &&& !final(self).spec_written().contains(page_id)
                &&& final(self).spec_written() == old(self).spec_written().remove(page_id)
            },
            deleted && old(self).spec_resident(page_id) ==> {
                let f = old(self).spec_frame_of(page_id);
                &&& final(self).spec_free_list() == old(self).spec_free_list().push(f)
                &&& final(self).spec_frames()[f as int].spec_page_id() is None
                &&& !final(self).spec_frames()[f as int].spec_dirty()
                &&& final(self).spec_frames()[f as int].spec_pin_count() == 0
                &&& final(self).spec_replacer().spec_nodes()[f as int] is None
                &&& forall|j: int|
                    0 <= j < old(self).spec_replacer().spec_nodes().len() && j != f
                        ==> final(self).spec_replacer().spec_nodes()[j] == old(self).spec_replacer().spec_nodes()[j]
            },
            deleted && !old(self).spec_resident(page_id) ==> final(self).spec_free_list() == old(self).spec_free_list()
                && final(self).spec_frames() == old(self).spec_frames() && final(self).spec_replacer()
                == old(self).spec_replacer() && final(self).spec_page_table() == old(self).spec_page_table(),
            forall|q: usize|
                deleted && #[trigger] final(self).spec_resident(q) ==> old(self).spec_resident(q)
                    && q != page_id,
            forall|q: usize|
                q != page_id && #[trigger] old(self).spec_resident(q) ==> final(self).spec_resident(q)
                    && final(self).spec_frame_of(q) == old(self).spec_frame_of(q)
                    && final(self).spec_frames()[final(self).spec_frame_of(q) as int]
                    == old(self).spec_frames()[old(self).spec_frame_of(q) as int],
            forall|q: usize|
                q != page_id ==> #[trigger] final(self).spec_page_view(q) == old(self).spec_page_view(q)
                    && (old(self).spec_page_retained(q) ==> final(self).spec_page_retained(q)),
    {
        proof {
            reveal(BufferPoolManager::inv);
        }
        let ghost s0 = *self;
        let fid = match self.page_table.get(&page_id) {
            None => {
                self.written_pages.remove(&page_id);
                proof {
                    let s2 = *self;
                    assert(s2.spec_written() =~= s0.spec_written().remove(page_id));
                    assert forall|q: usize| s2.spec_written().contains(q) implies s2.spec_store().spec_valid_page(q) by {
                        assert(s0.spec_written().contains(q));
                    }
                    assert forall|q: usize| #[trigger] s2.spec_page_table().dom().contains(q)
                        && !s2.spec_frames()[s2.spec_page_table()[q] as int].spec_dirty()
                        && s2.spec_written().contains(q) implies s2.spec_frames()[s2.spec_page_table()[q] as int].spec_data()
                        == s2.spec_store().spec_page_data(q) by {
                        assert(s0.spec_page_table().dom().contains(q));
                        assert(s0.spec_written().contains(q));
                    }
                    assert(s2.inv());
                    assert forall|q: usize| q != page_id implies #[trigger] s2.spec_page_view(q) == s0.spec_page_view(q)
                        && (s0.spec_page_retained(q) ==> s2.spec_page_retained(q)) by {}
                }
                return true;
            },
            Some(f) => *f,
        };
        if self.frames[fid].frame_pin_count() > 0 {
            return false;
        }
        self.written_pages.remove(&page_id);
        vstd::std_specs::vec::vec_index_mut(&mut self.frames, fid).set_dirty(false);
        vstd::std_specs::vec::vec_index_mut(&mut self.frames, fid).set_page_id(None);
        self.page_table.remove(&page_id);
        self.free_frame_ids.push(fid);
        self.replacer.remove(fid);
        proof {
            let s2 = *self;
            assert(s2.spec_written() =~= s0.spec_written().remove(page_id));
            assert(s2.spec_page_table() == s0.spec_page_table().remove(page_id));
            assert(s2.spec_page_table().dom() =~= s0.spec_page_table().dom().remove(page_id));
            assert forall|i: int|
                0 <= i < s2.spec_frames().len() && i != fid implies s2.spec_frames()[i]
                == s0.spec_frames()[i] by {}
            assert forall|idx: int| 0 <= idx < s2.spec_free_list().len() implies (#[trigger] s2.spec_free_list()[idx]) < s2.spec_num_frames()
                && s2.spec_frames()[s2.spec_free_list()[idx] as int].spec_page_id() is None
                && s2.spec_frames()[s2.spec_free_list()[idx] as int].spec_pin_count() == 0
                && !s2.spec_frames()[s2.spec_free_list()[idx] as int].spec_dirty() by {
                if idx < s0.spec_free_list().len() {
                    assert(s0.spec_free_list()[idx] == s2.spec_free_list()[idx]);
                }
            }
            assert forall|a: int, b: int| 0 <= a < b < s2.spec_free_list().len() implies s2.spec_free_list()[a] != s2.spec_free_list()[b] by {
                if b < s0.spec_free_list().len() {
                } else {
                    if s2.spec_free_list()[a] == fid && a < s0.spec_free_list().len() {
                        assert(s0.spec_free_list().contains(fid));
                    }
                }
            }
            assert forall|i: int|
                0 <= i < s2.spec_frames().len() implies ((#[trigger] s2.spec_frames()[i]).spec_page_id() is None
                <==> s2.spec_free_list().contains(i as usize)) by {
                if i == fid {
                    assert(s2.spec_free_list()[s2.spec_free_list().len() - 1] == fid);
                } else {
                    if s2.spec_frames()[i].spec_page_id() is None {
                        assert(s0.spec_free_list().contains(i as usize));
                        let idx = choose|idx: int|
                            0 <= idx < s0.spec_free_list().len() && s0.spec_free_list()[idx] == i as usize;
                        assert(s2.spec_free_list()[idx] == i as usize);
                    } else {
                        if s2.spec_free_list().contains(i as usize) {
                            let idx = choose|idx: int|
                                0 <= idx < s2.spec_free_list().len() && s2.spec_free_list()[idx]
                                    == i as usize;
                            assert(idx == s2.spec_free_list().len() - 1);
                        }
                    }
                }
            }
            assert forall|i: int|
                0 <= i < s2.spec_frames().len() implies ((#[trigger] s2.spec_frames()[i]).spec_page_id() matches Some(q)
                ==> s2.spec_page_table().dom().contains(q) && s2.spec_page_table()[q] == i) by {
                if i != fid && s2.spec_frames()[i].spec_page_id() is Some {
                    let q = s2.spec_frames()[i].spec_page_id()->0;
                    assert(s0.spec_page_table().dom().contains(q) && s0.spec_page_table()[q] == i);
                    assert(q != page_id);
                }
            }
            assert forall|q: usize| #[trigger] s2.spec_page_table().dom().contains(q) implies s2.spec_page_table()[q] < s2.spec_num_frames()
                && s2.spec_frames()[s2.spec_page_table()[q] as int].spec_page_id() == Some(q) by {
                assert(s0.spec_page_table().dom().contains(q));
                assert(s0.spec_page_table()[q] != fid);
            }
            assert(s2.spec_page_table().len() + s2.spec_free_list().len() == s2.spec_num_frames());
            assert forall|q: usize| #[trigger] s2.spec_page_table().dom().contains(q) implies s2.spec_store().spec_valid_page(q) by {
                assert(s0.spec_page_table().dom().contains(q));
            }
            assert forall|q: usize| s2.spec_written().contains(q) implies s2.spec_store().spec_valid_page(q) by {
                assert(s0.spec_written().contains(q));
            }
            assert forall|q: usize| #[trigger] s2.spec_page_table().dom().contains(q)
                && !s2.spec_frames()[s2.spec_page_table()[q] as int].spec_dirty()
                && s2.spec_written().contains(q) implies s2.spec_frames()[s2.spec_page_table()[q] as int].spec_data()
                == s2.spec_store().spec_page_data(q) by {
                assert(s0.spec_page_table().dom().contains(q));
                assert(s0.spec_page_table()[q] != fid);
                assert(s0.spec_written().contains(q));
            }
            assert(s2.inv());
            assert forall|q: usize| q != page_id implies #[trigger] s2.spec_page_view(q) == s0.spec_page_view(q)
                && (s0.spec_page_retained(q) ==> s2.spec_page_retained(q)) by {
                if s0.spec_page_table().dom().contains(q) {
                    assert(s0.spec_page_table()[q] != fid);
                }
            }
        }
        true
    }


    /// Bounded residency: the resident pages never outnumber the frames,
    /// and together with the free list they account for every frame.
    pub proof fn lemma_bounded_residency(pool: BufferPoolManager<P>)
        requires
            pool.inv(),
        ensures
            pool.spec_page_table().dom().finite(),
            pool.spec_page_table().len() + pool.spec_free_list().len() == pool.spec_num_frames(),
            pool.spec_page_table().len() <= pool.spec_num_frames(),
    {
        reveal(BufferPoolManager::inv);
    }

    /// Pin safety: a frame the replacer counts as evictable has pin count
    /// zero, so `LruKReplacer::evict`, whose victim is always evictable,
    /// never selects a pinned frame.
    pub proof fn lemma_pin_safety(pool: BufferPoolManager<P>)
        requires
            pool.inv(),
        ensures
            forall|i: int|
                0 <= i < pool.spec_replacer().spec_nodes().len() && slot_weight(
                    #[trigger] pool.spec_replacer().spec_nodes()[i],
                ) == 1 ==> pool.spec_frames()[i].spec_pin_count() == 0,
    {
        reveal(BufferPoolManager::inv);
    }


    /// Read-after-write: while a page is retained — flushed at least once,
    /// or resident and dirty or pinned — it has contents, and a resident
    /// page's contents are exactly its frame's bytes, which is what
    /// `read_page` and the guard accessors return.  Every operation's
    /// contract preserves the view of retained pages, so bytes written
    /// through a write guard survive until the next read, evictions
    /// included.
    pub proof fn lemma_retained_page_view(pool: BufferPoolManager<P>, page_id: usize)
        requires
            pool.inv(),
            pool.spec_page_retained(page_id),
        ensures
            pool.spec_page_view(page_id) is Some,
            pool.spec_resident(page_id) ==> pool.spec_page_view(page_id) == Some(
                pool.spec_frames()[pool.spec_frame_of(page_id) as int].spec_data(),
            ),
    {
        reveal(BufferPoolManager::inv);
    }


    /// Distinct resident pages occupy distinct frames: the page table is
    /// injective, since each frame records the one page it holds.
    pub proof fn lemma_distinct_pages_distinct_frames(
        pool: BufferPoolManager<P>,
        first: usize,
        second: usize,
    )
        requires
            pool.inv(),
            pool.spec_resident(first),
            pool.spec_resident(second),
            first != second,
        ensures
            pool.spec_frame_of(first) != pool.spec_frame_of(second),
    {
        reveal(BufferPoolManager::inv);
        assert(pool.spec_page_table().dom().contains(first));
        assert(pool.spec_page_table().dom().contains(second));
    }

    /// Guard exclusion: while a write guard on a page is live, no read
    /// guard on that page (or its frame) can be live.
    pub proof fn lemma_guard_exclusion(
        pool: BufferPoolManager<P>,
        writer: WritePageGuard,
        reader: ReadPageGuard,
    )
        requires
            pool.inv(),
            pool.write_guard_valid(writer),
            pool.read_guard_valid(reader),
        ensures
            writer.spec_page_id() != reader.spec_page_id(),
            writer.spec_frame_id() != reader.spec_frame_id(),
    {
        reveal(BufferPoolManager::inv);
        if writer.spec_frame_id() == reader.spec_frame_id() {
            assert(pool.spec_page_table().dom().contains(writer.spec_page_id()));
            assert(pool.spec_page_table().dom().contains(reader.spec_page_id()));
        }
    }

    /// Allocate a fresh, never-before-used page id.
    pub fn new_page_id(&mut self) -> (page_id: usize)
        requires
            old(self).inv(),
            old(self).spec_next_page_id() < usize::MAX,
        ensures
            final(self).inv(),
            page_id == old(self).spec_next_page_id(),
            final(self).spec_next_page_id() == old(self).spec_next_page_id() + 1,
            final(self).spec_frames() == old(self).spec_frames(),
            final(self).spec_free_list() == old(self).spec_free_list(),
            final(self).spec_page_table() == old(self).spec_page_table(),
            final(self).spec_write_latched() == old(self).spec_write_latched(),
            final(self).spec_replacer() == old(self).spec_replacer(),
            final(self).spec_written() == old(self).spec_written(),
            final(self).spec_store() == old(self).spec_store(),
            final(self).spec_num_frames() == old(self).spec_num_frames(),
    {
        let page_id = self.next_page_id;
        self.next_page_id = self.next_page_id + 1;
        proof {
            Self::lemma_inv_components(*old(self), *self);
        }
        page_id
    }

    /// Pin count of `page_id`, or `None` when the page is not resident.
    pub fn get_pin_count(&self, page_id: usize) -> (count: Option<u16>)
        requires
            self.inv(),
        ensures
            count == if self.spec_resident(page_id) {
                Some(self.spec_page_pin(page_id))
            } else {
                None::<u16>
            },
    {
        proof {
            reveal(BufferPoolManager::inv);
        }
        match self.page_table.get(&page_id) {
            Some(frame_id) => Some(self.frames[*frame_id].frame_pin_count()),
            None => None,
        }
    }
}

} // verus!
