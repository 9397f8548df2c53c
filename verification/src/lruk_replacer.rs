//! LRU-K replacement policy.
//!
//! The replacer keeps, for every frame that has been accessed, a bounded
//! history of its most recent access timestamps and an `evictable` flag.
//! The eviction victim is the evictable frame with the largest *backward
//! k-distance*: frames with fewer than `k` recorded accesses count as
//! infinitely distant and always beat frames with a full history; ties
//! among them are broken by the earliest first access.  Among frames with
//! a full history the victim is the one whose k-th most recent access is
//! oldest.
//!
//! Timestamps come from a logical clock owned by the replacer, advanced on
//! every recorded access, so they are monotonically nondecreasing across
//! the lifetime of the pool.

use vstd::prelude::*;

verus! {

/// Kind of access being recorded; informational only.
pub enum AccessType {
    Unknown,
    Lookup,
    Scan,
    Index,
}

/// Access history of one frame: up to `k` most recent timestamps,
/// oldest first, and the evictability flag.
pub struct LruNode {
    history: Vec<u64>,
    frame_id: usize,
    k: usize,
    evictable: bool,
}

/// Recorded timestamps of this node, oldest first.
impl LruNode {
    pub closed spec fn spec_history(self) -> Seq<u64> {
        self.history@
    }

    pub closed spec fn spec_frame_id(self) -> usize {
        self.frame_id
    }

    pub closed spec fn spec_k(self) -> usize {
        self.k
    }

    pub closed spec fn spec_evictable(self) -> bool {
        self.evictable
    }

    pub fn new(frame_id: usize, k: usize) -> (node: LruNode)
        ensures
            node.spec_history() == Seq::<u64>::empty(),
            node.spec_frame_id() == frame_id,
            node.spec_k() == k,
            !node.spec_evictable(),
    {
        LruNode { history: Vec::new(), frame_id, k, evictable: false }
    }

    /// Append an access timestamp; once the history holds `k` entries the
    /// oldest one is dropped first.
    pub fn add_history(&mut self, now: u64)
        requires
            old(self).spec_k() >= 1,
        ensures
            final(self).spec_history() == push_history(
                old(self).spec_history(),
                old(self).spec_k() as nat,
                now,
            ),
            final(self).spec_frame_id() == old(self).spec_frame_id(),
            final(self).spec_k() == old(self).spec_k(),
            final(self).spec_evictable() == old(self).spec_evictable(),
    {
        if self.history.len() >= self.k {
            self.history.remove(0);
        }
        self.history.push(now);
        assert(self.spec_history() =~= push_history(
            old(self).spec_history(),
            old(self).spec_k() as nat,
            now,
        ));
    }
}

/// A history extended by one timestamp, dropping the oldest entry first
/// when the history already holds `k` entries.
pub open spec fn push_history(h: Seq<u64>, k: nat, now: u64) -> Seq<u64> {
    if h.len() >= k {
        h.subrange(1, h.len() as int).push(now)
    } else {
        h.push(now)
    }
}

/// Contribution of one node slot to the evictable count.
pub open spec fn slot_weight(slot: Option<LruNode>) -> nat {
    if slot matches Some(n) && n.spec_evictable() {
        1nat
    } else {
        0nat
    }
}

/// Number of evictable nodes among the slots.
pub open spec fn evictable_count(slots: Seq<Option<LruNode>>) -> nat
    decreases slots.len(),
{
    if slots.len() == 0 {
        0nat
    } else {
        evictable_count(slots.drop_last()) + slot_weight(slots.last())
    }
}

/// `a` is at least as good an eviction victim as `b`: a node with fewer
/// than `k` recorded accesses (backward k-distance infinite) beats one
/// with a full history, and otherwise the older leading timestamp wins —
/// the earliest first access among short histories, the oldest k-th most
/// recent access among full ones.
pub open spec fn preferred_victim(a: LruNode, b: LruNode, k: nat) -> bool {
    let a_inf = (a.spec_history().len() < k);
    let b_inf = (b.spec_history().len() < k);
    if a_inf != b_inf {
        a_inf
    } else {
        a.spec_history()[0] <= b.spec_history()[0]
    }
}

proof fn lemma_evictable_count_le_len(slots: Seq<Option<LruNode>>)
    ensures
        evictable_count(slots) <= slots.len(),
    decreases slots.len(),
{
    if slots.len() > 0 {
        lemma_evictable_count_le_len(slots.drop_last());
    }
}

proof fn lemma_evictable_count_update(slots: Seq<Option<LruNode>>, i: int, v: Option<LruNode>)
    requires
        0 <= i < slots.len(),
    ensures
        evictable_count(slots.update(i, v)) + slot_weight(slots[i]) == evictable_count(slots)
            + slot_weight(v),
    decreases slots.len(),
{
    let updated = slots.update(i, v);
    if i == slots.len() - 1 {
        assert(updated.drop_last() =~= slots.drop_last());
    } else {
        assert(updated.drop_last() =~= slots.drop_last().update(i, v));
        lemma_evictable_count_update(slots.drop_last(), i, v);
    }
}

/// Move the node out of slot `i`, leaving `None` behind.
fn take_slot(nodes: &mut Vec<Option<LruNode>>, i: usize) -> (slot: Option<LruNode>)
    requires
        i < old(nodes)@.len(),
    ensures
        slot == old(nodes)@[i as int],
        final(nodes)@ == old(nodes)@.update(i as int, None),
{
    let mut slot: Option<LruNode> = None;
    core::mem::swap(&mut slot, &mut nodes[i]);
    slot
}

/// Tracks per-frame access history and picks eviction victims.
pub struct LruKReplacer {
    num_frames: usize,
    k: usize,
    nodes: Vec<Option<LruNode>>,
    current_size: usize,
    clock: u64,
}

impl LruKReplacer {
    /// Capacity of the pool this replacer serves; frame ids lie below it.
    pub closed spec fn spec_num_frames(self) -> usize {
        self.num_frames
    }

    /// History depth of the policy.
    pub closed spec fn spec_k(self) -> usize {
        self.k
    }

    /// One slot per frame id; `None` until the frame's first recorded
    /// access and again after eviction or removal.
    pub closed spec fn spec_nodes(self) -> Seq<Option<LruNode>> {
        self.nodes@
    }

    /// Logical clock; all recorded timestamps are at most this value.
    pub closed spec fn spec_clock(self) -> u64 {
        self.clock
    }

    /// Well-formedness of one node slot.
    pub open spec fn slot_inv(self, i: int) -> bool {
        match self.spec_nodes()[i] {
            Some(n) => {
                &&& n.spec_frame_id() == i
                &&& n.spec_k() == self.spec_k()
                &&& 1 <= n.spec_history().len() <= self.spec_k()
                &&& forall|p: int, q: int|
                    0 <= p <= q < n.spec_history().len() ==> n.spec_history()[p]
                        <= n.spec_history()[q]
                &&& forall|p: int|
                    0 <= p < n.spec_history().len() ==> n.spec_history()[p] <= self.spec_clock()
            },
            None => true,
        }
    }

    /// Invariant: one slot per frame, a positive history depth, well-formed
    /// nodes, and a cached evictable count that matches the slots.
    pub closed spec fn inv(self) -> bool {
        &&& self.nodes@.len() == self.num_frames
        &&& self.k >= 1
        &&& forall|i: int| 0 <= i < self.nodes@.len() ==> self.slot_inv(i)
        &&& self.current_size == evictable_count(self.nodes@)
    }

    pub fn new(num_frames: usize, k: usize) -> (replacer: LruKReplacer)
        requires
            k >= 1,
        ensures
            replacer.inv(),
            replacer.spec_num_frames() == num_frames,
            replacer.spec_k() == k,
            replacer.spec_nodes() == Seq::new(num_frames as nat, |i: int| None::<LruNode>),
            evictable_count(replacer.spec_nodes()) == 0,
            replacer.spec_clock() == 0,
    {
        let mut nodes: Vec<Option<LruNode>> = Vec::new();
        let mut i: usize = 0;
        while i < num_frames
            invariant
                i <= num_frames,
                nodes@.len() == i,
                forall|j: int| 0 <= j < i ==> nodes@[j] is None,
                evictable_count(nodes@) == 0,
            decreases num_frames - i,
        {
            let ghost prev = nodes@;
            nodes.push(None);
            proof {
                assert(nodes@.drop_last() =~= prev);
            }
            i = i + 1;
        }
        let replacer = LruKReplacer { num_frames, k, nodes, current_size: 0, clock: 0 };
        assert(replacer.spec_nodes() =~= Seq::new(num_frames as nat, |i: int| None::<LruNode>));
        replacer
    }

    /// Record an access to `frame_id` at the current logical time.
    /// Creates the frame's node on its first access; a fresh node starts
    /// non-evictable.
    pub fn record_access(&mut self, frame_id: usize, _access_type: Option<AccessType>)
        requires
            old(self).inv(),
            frame_id < old(self).spec_num_frames(),
        ensures
            final(self).inv(),
            final(self).spec_num_frames() == old(self).spec_num_frames(),
            final(self).spec_k() == old(self).spec_k(),
            final(self).spec_clock() == if old(self).spec_clock() < u64::MAX {
                (old(self).spec_clock() + 1) as u64
            } else {
                old(self).spec_clock()
            },
            final(self).spec_nodes().len() == old(self).spec_nodes().len(),
            forall|j: int|
                0 <= j < old(self).spec_nodes().len() && j != frame_id ==> final(self).spec_nodes()[j] == old(self).spec_nodes()[j],
            final(self).spec_nodes()[frame_id as int] matches Some(n) && {
                &&& n.spec_frame_id() == frame_id
                &&& n.spec_history() == push_history(
                    match old(self).spec_nodes()[frame_id as int] {
                        Some(o) => o.spec_history(),
                        None => Seq::<u64>::empty(),
                    },
                    old(self).spec_k() as nat,
                    old(self).spec_clock(),
                )
                &&& n.spec_evictable() == (old(self).spec_nodes()[frame_id as int] matches Some(o)
                    && o.spec_evictable())
            },
            evictable_count(final(self).spec_nodes()) == evictable_count(old(self).spec_nodes()),
    {
        let ghost nodes0 = self.nodes@;
        proof {
            assert(old(self).slot_inv(frame_id as int));
        }
        let now = self.clock;
        if self.clock < u64::MAX {
            self.clock = self.clock + 1;
        }
        let slot = take_slot(&mut self.nodes, frame_id);
        let mut node = match slot {
            Some(n) => n,
            None => LruNode::new(frame_id, self.k),
        };
        node.add_history(now);
        let ghost updated = node;
        self.nodes.set(frame_id, Some(node));
        proof {
            assert(self.nodes@ =~= nodes0.update(frame_id as int, Some(updated)));
            lemma_evictable_count_update(nodes0, frame_id as int, Some(updated));
            assert forall|i: int| 0 <= i < self.nodes@.len() implies self.slot_inv(i) by {
                assert(old(self).slot_inv(i));
            }
        }
    }

    /// Number of evictable frames.
    pub fn size(&self) -> (count: usize)
        requires
            self.inv(),
        ensures
            count == evictable_count(self.spec_nodes()),
    {
        self.current_size
    }

    /// Toggle whether a frame is evictable, adjusting the evictable count.
    /// A no-op when the frame has no node or the flag does not change.
    pub fn set_evictable(&mut self, frame_id: usize, is_evictable: bool)
        requires
            old(self).inv(),
        ensures
            final(self).inv(),
            final(self).spec_num_frames() == old(self).spec_num_frames(),
            final(self).spec_k() == old(self).spec_k(),
            final(self).spec_clock() == old(self).spec_clock(),
            final(self).spec_nodes().len() == old(self).spec_nodes().len(),
            forall|j: int|
                0 <= j < old(self).spec_nodes().len() && j != frame_id ==> final(self).spec_nodes()[j] == old(self).spec_nodes()[j],
            frame_id < old(self).spec_nodes().len() ==> evictable_count(final(self).spec_nodes())
                + slot_weight(old(self).spec_nodes()[frame_id as int]) == evictable_count(
                old(self).spec_nodes(),
            ) + slot_weight(final(self).spec_nodes()[frame_id as int]),
            frame_id >= old(self).spec_nodes().len() ==> final(self).spec_nodes() == old(self).spec_nodes(),
            match old(self).spec_nodes()[frame_id as int] {
                Some(o) => frame_id < old(self).spec_nodes().len() ==> (final(self).spec_nodes()[frame_id as int] matches Some(n) && {
                    &&& n.spec_history() == o.spec_history()
                    &&& n.spec_frame_id() == o.spec_frame_id()
                    &&& n.spec_evictable() == is_evictable
                }),
                None => final(self).spec_nodes() == old(self).spec_nodes(),
            },
    {
        if frame_id >= self.nodes.len() {
            return ;
        }
        let ghost nodes0 = self.nodes@;
        proof {
            assert(old(self).slot_inv(frame_id as int));
        }
        let slot = take_slot(&mut self.nodes, frame_id);
        match slot {
            Some(mut node) => {
                let was_evictable = node.evictable;
                node.evictable = is_evictable;
                let ghost updated = node;
                self.nodes.set(frame_id, Some(node));
                proof {
                    assert(self.nodes@ =~= nodes0.update(frame_id as int, Some(updated)));
                    lemma_evictable_count_update(nodes0, frame_id as int, Some(updated));
                    lemma_evictable_count_le_len(self.nodes@);
                }
                if was_evictable && !is_evictable {
                    self.current_size = self.current_size - 1;
                } else if !was_evictable && is_evictable {
                    self.current_size = self.current_size + 1;
                }
                proof {
                    assert forall|i: int| 0 <= i < self.nodes@.len() implies self.slot_inv(i) by {
                        assert(old(self).slot_inv(i));
                    }
                }
            },
            None => {
                self.nodes.set(frame_id, None);
                proof {
                    assert(self.nodes@ =~= nodes0);
                    assert forall|i: int| 0 <= i < self.nodes@.len() implies self.slot_inv(i) by {
                        assert(old(self).slot_inv(i));
                    }
                }
            },
        }
    }

    /// Remove a frame's node and access history outright, whatever its
    /// backward k-distance; used when the frame's page is deleted.
    /// A no-op when the frame has no node.
    pub fn remove(&mut self, frame_id: usize)
        requires
            old(self).inv(),
        ensures
            final(self).inv(),
            final(self).spec_num_frames() == old(self).spec_num_frames(),
            final(self).spec_k() == old(self).spec_k(),
            final(self).spec_clock() == old(self).spec_clock(),
            final(self).spec_nodes().len() == old(self).spec_nodes().len(),
            forall|j: int|
                0 <= j < old(self).spec_nodes().len() && j != frame_id ==> final(self).spec_nodes()[j] == old(self).spec_nodes()[j],
            frame_id < old(self).spec_nodes().len() ==> final(self).spec_nodes()[frame_id as int]
                is None && evictable_count(final(self).spec_nodes()) + slot_weight(
                old(self).spec_nodes()[frame_id as int],
            ) == evictable_count(old(self).spec_nodes()),
            frame_id >= old(self).spec_nodes().len() ==> final(self).spec_nodes() == old(self).spec_nodes(),
    {
        if frame_id >= self.nodes.len() {
            return ;
        }
        let ghost nodes0 = self.nodes@;
        let slot = take_slot(&mut self.nodes, frame_id);
        proof {
            lemma_evictable_count_update(nodes0, frame_id as int, None);
            assert(self.nodes@ =~= nodes0.update(frame_id as int, None));
        }
        match slot {
            Some(node) => {
                if node.evictable {
                    self.current_size = self.current_size - 1;
                }
            },
            None => {},
        }
        proof {
            assert forall|i: int| 0 <= i < self.nodes@.len() implies self.slot_inv(i) by {
                assert(old(self).slot_inv(i));
            }
        }
    }

    /// Pick and remove the eviction victim: the evictable frame with the
    /// largest backward k-distance, ties broken by earliest first access.
    /// Returns `None`, changing nothing, when no frame is evictable.
    pub fn evict(&mut self) -> (victim: Option<usize>)
        requires
            old(self).inv(),
        ensures
            final(self).inv(),
            final(self).spec_num_frames() == old(self).spec_num_frames(),
            final(self).spec_k() == old(self).spec_k(),
            final(self).spec_clock() == old(self).spec_clock(),
            match victim {
                None => {
                    &&& *final(self) == *old(self)
                    &&& forall|j: int|
                        0 <= j < old(self).spec_nodes().len() ==> slot_weight(
                            old(self).spec_nodes()[j],
                        ) == 0
                },
                Some(f) => {
                    &&& f < old(self).spec_nodes().len()
                    &&& old(self).spec_nodes()[f as int] matches Some(n) && n.spec_evictable()
                        && forall|j: int|
                        0 <= j < old(self).spec_nodes().len() && j != f && slot_weight(
                            old(self).spec_nodes()[j],
                        ) == 1 ==> preferred_victim(
                            n,
                            old(self).spec_nodes()[j]->Some_0,
                            old(self).spec_k() as nat,
                        )
                    &&& final(self).spec_nodes() == old(self).spec_nodes().update(f as int, None)
                    &&& evictable_count(final(self).spec_nodes()) == evictable_count(
                        old(self).spec_nodes(),
                    ) - 1
                },
            },
    {
        let ghost nodes0 = self.nodes@;
        let mut best: Option<usize> = None;
        let mut i: usize = 0;
        while i < self.nodes.len()
            invariant
                self.inv(),
                i <= self.nodes@.len(),
                match best {
                    None => forall|j: int| 0 <= j < i ==> slot_weight(self.spec_nodes()[j]) == 0,
                    Some(b) => {
                        &&& b < i
                        &&& self.spec_nodes()[b as int] matches Some(n) && n.spec_evictable()
                            && forall|j: int|
                            0 <= j < i && j != b && slot_weight(self.spec_nodes()[j]) == 1
                                ==> preferred_victim(
                                n,
                                self.spec_nodes()[j]->Some_0,
                                self.spec_k() as nat,
                            )
                    },
                },
            decreases self.nodes@.len() - i,
        {
            let mut replace_best = false;
            proof {
                assert(self.slot_inv(i as int));
            }
            match &self.nodes[i] {
                Some(node) => {
                    if node.evictable {
                        match best {
                            None => {
                                replace_best = true;
                            },
                            Some(b) => {
                                proof {
                                    assert(self.slot_inv(b as int));
                                }
                                match &self.nodes[b] {
                                    Some(best_node) => {
                                        let cand_inf = node.history.len() < self.k;
                                        let best_inf = best_node.history.len() < self.k;
                                        if cand_inf != best_inf {
                                            replace_best = cand_inf;
                                        } else {
                                            replace_best = node.history[0]
                                                < best_node.history[0];
                                        }
                                    },
                                    None => {
                                        proof {
                                            assert(false);
                                        }
                                    },
                                }
                            },
                        }
                    }
                },
                None => {},
            }
            if replace_best {
                best = Some(i);
            }
            i = i + 1;
        }
        match best {
            None => None,
            Some(f) => {
                proof {
                    lemma_evictable_count_update(nodes0, f as int, None);
                }
                self.nodes.set(f, None);
                self.current_size = self.current_size - 1;
                proof {
                    assert(self.nodes@ =~= nodes0.update(f as int, None));
                    assert forall|i2: int| 0 <= i2 < self.nodes@.len() implies self.slot_inv(
                        i2,
                    ) by {
                        assert(old(self).slot_inv(i2));
                    }
                }
                Some(f)
            },
        }
    }
}

} // verus!
