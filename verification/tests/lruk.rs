//! LRU-K replacer behaviour.

use bufferpool::lruk_replacer::LruKReplacer;

#[test]
fn sample_test() {
    let mut replacer = LruKReplacer::new(7, 2);
    for i in 1..7 {
        replacer.record_access(i, None);
    }

    // Add six frames to the replacer. We now have frames [1, 2, 3, 4, 5]. We set frame 6 as non-evictable.
    for i in 1..6 {
        replacer.set_evictable(i, true);
    }
    replacer.set_evictable(6, false);

    // The size of the replacer is the number of frames that can be evicted, _not_ the total number of frames entered.
    assert_eq!(5, replacer.size());

    // Record an access for frame 1. Now frame 1 has two accesses total.
    replacer.record_access(1, None);

    // Evict three pages from the replacer.
    // To break ties, we use LRU with respect to the oldest timestamp, or the least recently used frame.
    for i in 2..=4 {
        assert_eq!(Some(i), replacer.evict());
    }
    assert_eq!(2, replacer.size());

    // Now the replacer has the frames [5, 1].

    // Insert new frames [3, 4], and update the access history for 5. Now, the ordering is [3, 1, 5, 4].
    for i in [3, 4, 5, 4] {
        replacer.record_access(i, None);
    }
    replacer.set_evictable(3, true);
    replacer.set_evictable(4, true);
    assert_eq!(4, replacer.size());

    // Look for a frame to evict. We expect frame 3 to be evicted next.
    assert_eq!(Some(3), replacer.evict());
    assert_eq!(3, replacer.size());

    // Set 6 to be evictable. 6 Should be evicted next since it has the maximum backward k-distance.
    replacer.set_evictable(6, true);
    assert_eq!(4, replacer.size());
    assert_eq!(Some(6), replacer.evict());
    assert_eq!(3, replacer.size());

    // Mark frame 1 as non-evictable. We now have [5, 4].
    replacer.set_evictable(1, false);

    // We expect frame 5 to be evicted next.
    assert_eq!(2, replacer.size());
    assert_eq!(Some(5), replacer.evict());
    assert_eq!(1, replacer.size());

    // Update the access history for frame 1 and make it evictable. Now we have [4, 1].
    replacer.record_access(1, None);
    replacer.record_access(1, None);
    replacer.set_evictable(1, true);
    assert_eq!(2, replacer.size());

    // Evict the last two frames.
    assert_eq!(Some(4), replacer.evict());
    assert_eq!(1, replacer.size());
    assert_eq!(Some(1), replacer.evict());
    assert_eq!(0, replacer.size());

    // Insert frame 1 again and mark it as non-evictable.
    replacer.record_access(1, None);
    replacer.set_evictable(1, false);
    assert_eq!(0, replacer.size());

    // A failed eviction should not change the size of the replacer.
    assert_eq!(None, replacer.evict());

    // Mark frame 1 as evictable again and evict it.
    replacer.set_evictable(1, true);
    assert_eq!(1, replacer.size());
    assert_eq!(Some(1), replacer.evict());
    assert_eq!(0, replacer.size());

    // There is nothing left in the replacer, so make sure this doesn't do something strange.
    assert_eq!(None, replacer.evict());
    assert_eq!(0, replacer.size());

    // Make sure that setting a non-existent frame as evictable or non-evictable doesn't do something strange.
    replacer.set_evictable(6, false);
    replacer.set_evictable(6, true);
}

#[test]
fn history_rich_frames_lose_to_history_poor_frames() {
    let mut replacer = LruKReplacer::new(4, 3);
    // Frame 0 is accessed three times (full history), frame 1 once.
    replacer.record_access(0, None);
    replacer.record_access(0, None);
    replacer.record_access(0, None);
    replacer.record_access(1, None);
    replacer.set_evictable(0, true);
    replacer.set_evictable(1, true);
    // Frame 1 has fewer than k accesses, so its distance is infinite and
    // it is evicted first even though frame 0 was touched earlier.
    assert_eq!(Some(1), replacer.evict());
    assert_eq!(Some(0), replacer.evict());
    assert_eq!(None, replacer.evict());
}

#[test]
fn remove_drops_history() {
    let mut replacer = LruKReplacer::new(3, 2);
    replacer.record_access(0, None);
    replacer.record_access(1, None);
    replacer.set_evictable(0, true);
    replacer.set_evictable(1, true);
    assert_eq!(2, replacer.size());
    replacer.remove(0);
    assert_eq!(1, replacer.size());
    // Frame 0 is gone; the only candidate left is frame 1.
    assert_eq!(Some(1), replacer.evict());
    // Removing an absent frame changes nothing.
    replacer.remove(2);
    assert_eq!(0, replacer.size());
}
