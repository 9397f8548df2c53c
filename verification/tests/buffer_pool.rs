//! Buffer pool manager behaviour: guard lifecycle, pin counts, eviction
//! under memory pressure, and read-after-write across evictions.

use bufferpool::buffer_pool_manager::BufferPoolManager;
use bufferpool::page_operator::MemoryManager;

const FRAMES: usize = 10;
const K_DIST: usize = 5;

#[test]
fn test_very_basic() {
    let disk_manager = MemoryManager::new(1000);
    let mut bpm = BufferPoolManager::new(FRAMES, K_DIST, disk_manager);
    let pid = bpm.new_page_id();
    let hello_world = "hello world";

    // Check `WritePageGuard` basic functionality.
    {
        let guard = bpm.write_page(pid).unwrap();
        bpm.write_guard_write_bytes(&guard, 0, hello_world.as_bytes());
        bpm.drop_write_guard(guard);
    }

    // Check `ReadPageGuard` basic functionality.
    {
        assert_eq!(0, bpm.get_pin_count(pid).unwrap());
        let guard = bpm.read_page(pid).unwrap();
        let data = bpm.read_guard_data(&guard);

        assert_eq!(true, data[..hello_world.len()].eq(hello_world.as_bytes()));
        bpm.drop_read_guard(guard);
    }

    // Check `ReadPageGuard` basic functionality (again).
    {
        assert_eq!(0, bpm.get_pin_count(pid).unwrap());
        let guard = bpm.read_page(pid).unwrap();
        let data = bpm.read_guard_data(&guard);

        assert_eq!(true, data[..hello_world.len()].eq(hello_world.as_bytes()));
        bpm.drop_read_guard(guard);
    }
}

#[test]
fn test_page_pin_easy_test() {
    let disk_manager = MemoryManager::new(1000);
    let mut bpm = BufferPoolManager::new(2, 5, disk_manager);

    let page_id_0;
    let page_id_1;
    let page_0_data = "page0";
    let page_1_data = "page1";
    let page_0_updated = "page0updated";
    let page_1_updated = "page1updated";

    {
        page_id_0 = bpm.new_page_id();
        let page_0_guard = bpm.write_page(page_id_0).unwrap();
        bpm.write_guard_write_bytes(&page_0_guard, 0, page_0_data.as_bytes());

        page_id_1 = bpm.new_page_id();
        let page_1_guard = bpm.write_page(page_id_1).unwrap();
        bpm.write_guard_write_bytes(&page_1_guard, 0, page_1_data.as_bytes());

        assert_eq!(1, bpm.get_pin_count(page_id_0).unwrap());
        assert_eq!(1, bpm.get_pin_count(page_id_1).unwrap());

        // as there are two frames only, any new page should not be assigned a frame.
        let temp1 = bpm.new_page_id();
        let temp_1_guard = bpm.write_page(temp1);
        assert_eq!(true, temp_1_guard.is_none());

        let temp2 = bpm.new_page_id();
        let temp_2_guard = bpm.read_page(temp2);
        assert_eq!(true, temp_2_guard.is_none());

        bpm.drop_write_guard(page_0_guard);
        bpm.drop_write_guard(page_1_guard);

        assert_eq!(0, bpm.get_pin_count(page_id_0).unwrap());
        assert_eq!(0, bpm.get_pin_count(page_id_1).unwrap());
    }

    {
        // now both should get frames, as the previous pin counts are 0 and thus evictable.
        let temp1 = bpm.new_page_id();
        let temp_1_guard = bpm.write_page(temp1);
        assert_eq!(true, temp_1_guard.is_some());

        let temp2 = bpm.new_page_id();
        let temp_2_guard = bpm.read_page(temp2);
        assert_eq!(true, temp_2_guard.is_some());
        bpm.drop_write_guard(temp_1_guard.unwrap());
        bpm.drop_read_guard(temp_2_guard.unwrap());
    }

    {
        let page_0_guard = bpm.write_page(page_id_0).unwrap();
        let data = bpm.write_guard_data(&page_0_guard);
        assert_eq!(true, data[..page_0_data.len()].eq(page_0_data.as_bytes()));
        bpm.write_guard_write_bytes(&page_0_guard, 0, page_0_updated.as_bytes());

        let page_1_guard = bpm.write_page(page_id_1).unwrap();
        let data = bpm.write_guard_data(&page_1_guard);
        assert_eq!(true, data[..page_1_data.len()].eq(page_1_data.as_bytes()));
        bpm.write_guard_write_bytes(&page_1_guard, 0, page_1_updated.as_bytes());

        assert_eq!(1, bpm.get_pin_count(page_id_0).unwrap());
        assert_eq!(1, bpm.get_pin_count(page_id_1).unwrap());
        bpm.drop_write_guard(page_0_guard);
        bpm.drop_write_guard(page_1_guard);
    }

    assert_eq!(0, bpm.get_pin_count(page_id_0).unwrap());
    assert_eq!(0, bpm.get_pin_count(page_id_1).unwrap());

    {
        let page_0_guard = bpm.read_page(page_id_0).unwrap();
        let data = bpm.read_guard_data(&page_0_guard);
        assert_eq!(true, data[..page_0_updated.len()].eq(page_0_updated.as_bytes()));

        let page_1_guard = bpm.read_page(page_id_1).unwrap();
        let data = bpm.read_guard_data(&page_1_guard);
        assert_eq!(true, data[..page_1_updated.len()].eq(page_1_updated.as_bytes()));

        assert_eq!(1, bpm.get_pin_count(page_id_0).unwrap());
        assert_eq!(1, bpm.get_pin_count(page_id_1).unwrap());
        bpm.drop_read_guard(page_0_guard);
        bpm.drop_read_guard(page_1_guard);
    }

    assert_eq!(0, bpm.get_pin_count(page_id_0).unwrap());
    assert_eq!(0, bpm.get_pin_count(page_id_1).unwrap());
}

#[test]
fn page_pin_medium_test() {
    let disk_manager = MemoryManager::new(1000);
    let mut bpm = BufferPoolManager::new(FRAMES, K_DIST, disk_manager);

    let hello = "Hello";
    let page_0 = bpm.new_page_id();
    let page_0_guard = bpm.write_page(page_0).unwrap();
    bpm.write_guard_write_bytes(&page_0_guard, 0, hello.as_bytes());
    bpm.drop_write_guard(page_0_guard);

    // Hold the guards, preventing them from being released.
    let mut page_guards = Vec::new();

    // Scenario: We should be able to create new pages until we fill up the buffer pool.
    for _i in 0..FRAMES {
        let page_id = bpm.new_page_id();
        let page_guard = bpm.write_page(page_id).unwrap();
        page_guards.push((page_id, page_guard));
    }

    // Scenario: All of the pin counts should be 1.
    for id_guard in page_guards.iter() {
        assert_eq!(1, bpm.get_pin_count(id_guard.0).unwrap());
    }

    // Scenario: Once the buffer pool is full, we should not be able to create any new pages.
    for _i in 0..FRAMES {
        let page_id = bpm.new_page_id();
        let page_guard = bpm.write_page(page_id);
        assert_eq!(true, page_guard.is_none());
    }

    // Scenario: Drop the last 5 pages to unpin them.
    for _i in 0..FRAMES / 2 {
        let pg_guard = page_guards.pop().unwrap();
        bpm.drop_write_guard(pg_guard.1);
        assert_eq!(0, bpm.get_pin_count(pg_guard.0).unwrap());
    }

    // Scenario: All of the pin counts of the pages we haven't dropped yet should still be 1.
    for id_guard in page_guards.iter() {
        assert_eq!(1, bpm.get_pin_count(id_guard.0).unwrap());
    }

    // Scenario: After unpinning the last 5 pages, we should be able to create 4 new pages and
    // bring them into memory.  Bringing those 4 pages in evicts 4 of the unpinned ones.
    for _i in 0..(FRAMES / 2) - 1 {
        let page_id = bpm.new_page_id();
        let page_guard = bpm.write_page(page_id);
        assert_eq!(true, page_guard.is_some());
        bpm.drop_write_guard(page_guard.unwrap());
    }

    // Scenario: There should be one frame available, and we should be able to fetch the data we
    // wrote a while ago (the page is evicted and read back).
    {
        let original_page = bpm.read_page(page_0).unwrap();
        let data = bpm.read_guard_data(&original_page);
        assert_eq!(true, data[..hello.len()].eq(hello.as_bytes()));
        bpm.drop_read_guard(original_page);
    }

    // Scenario: keep allocating and reading fresh pages.
    let last_pid = bpm.new_page_id();
    let last_page = bpm.read_page(last_pid).unwrap();
    bpm.drop_read_guard(last_page);
    let last_pid = bpm.new_page_id();
    let last_page = bpm.read_page(last_pid).unwrap();
    bpm.drop_read_guard(last_page);
    let last_pid = bpm.new_page_id();
    let last_page = bpm.read_page(last_pid).unwrap();
    bpm.drop_read_guard(last_page);
    let last_pid = bpm.new_page_id();
    let last_page = bpm.read_page(last_pid).unwrap();
    bpm.drop_read_guard(last_page);

    let _fail = bpm.read_page(page_0);
}

#[test]
fn flush_page_persists_dirty_bytes() {
    let disk_manager = MemoryManager::new(100);
    let mut bpm = BufferPoolManager::new(3, 2, disk_manager);
    let pid = bpm.new_page_id();

    let guard = bpm.write_page(pid).unwrap();
    bpm.write_guard_write_bytes(&guard, 0, b"durable");
    bpm.drop_write_guard(guard);

    bpm.flush_page(pid);

    // Evict the now-clean page by pinning three other pages, then fetch it
    // again: the bytes must come back from the store.
    let mut guards = Vec::new();
    for _i in 0..3 {
        let other = bpm.new_page_id();
        guards.push(bpm.write_page(other).unwrap());
    }
    for guard in guards {
        bpm.drop_write_guard(guard);
    }
    let guard = bpm.read_page(pid).unwrap();
    let data = bpm.read_guard_data(&guard);
    assert_eq!(&data[..7], b"durable");
    bpm.drop_read_guard(guard);
}

#[test]
fn flush_all_pages_cleans_every_frame() {
    let disk_manager = MemoryManager::new(100);
    let mut bpm = BufferPoolManager::new(4, 2, disk_manager);
    let mut pids = Vec::new();
    for i in 0..4usize {
        let pid = bpm.new_page_id();
        let guard = bpm.write_page(pid).unwrap();
        let byte = [b'a' + i as u8];
        bpm.write_guard_write_bytes(&guard, 0, &byte);
        bpm.drop_write_guard(guard);
        pids.push(pid);
    }
    bpm.flush_all_pages();
    for (i, pid) in pids.iter().enumerate() {
        let guard = bpm.read_page(*pid).unwrap();
        let data = bpm.read_guard_data(&guard);
        assert_eq!(data[0], b'a' + i as u8);
        bpm.drop_read_guard(guard);
    }
}

#[test]
fn delete_page_refuses_pinned_pages() {
    let disk_manager = MemoryManager::new(100);
    let mut bpm = BufferPoolManager::new(2, 2, disk_manager);
    let pid = bpm.new_page_id();

    let guard = bpm.write_page(pid).unwrap();
    assert_eq!(false, bpm.delete_page(pid));
    bpm.drop_write_guard(guard);

    assert_eq!(true, bpm.delete_page(pid));
    assert_eq!(None, bpm.get_pin_count(pid));

    // Deleting an absent page succeeds.
    assert_eq!(true, bpm.delete_page(999));
}

#[test]
fn unpin_makes_pin_count_visible() {
    let disk_manager = MemoryManager::new(100);
    let mut bpm = BufferPoolManager::new(2, 2, disk_manager);
    let pid = bpm.new_page_id();

    let first = bpm.read_page(pid).unwrap();
    let second = bpm.read_page(pid).unwrap();
    assert_eq!(2, bpm.get_pin_count(pid).unwrap());
    bpm.drop_read_guard(first);
    assert_eq!(1, bpm.get_pin_count(pid).unwrap());
    bpm.drop_read_guard(second);
    assert_eq!(0, bpm.get_pin_count(pid).unwrap());
}
