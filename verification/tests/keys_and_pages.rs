//! Index keys, record ids, frames, and the in-memory page store.

use bufferpool::b_plus_tree_page::{IndexPageType, SizeHelper};
use bufferpool::frame_header::FrameHeader;
use bufferpool::index::GenericKey;
use bufferpool::page_operator::{IoFailure, MemoryManager, PageOperator};
use bufferpool::rid::RID;
use bufferpool::PAGE_SIZE;

#[test]
fn generic_key_from_usize() {
    let key: GenericKey<4> = 20usize.into();
    assert_eq!(key.data, vec!['2', '0', '0', '0']);
}

#[test]
fn generic_key_truncates_long_numbers() {
    let key: GenericKey<3> = 123456usize.into();
    assert_eq!(key.data, vec!['1', '2', '3']);
}

#[test]
fn rid_carries_page_and_slot() {
    let rid = RID::new(7, 3);
    assert_eq!(7, rid.page_id);
    assert_eq!(3, rid.slot_num);
    assert_eq!(RID::new(7, 3), rid);
}

#[test]
fn index_page_type_wire_tags() {
    assert_eq!(1, IndexPageType::InvalidIndexPage.wire_tag());
    assert_eq!(2, IndexPageType::LeafPage.wire_tag());
    assert_eq!(3, IndexPageType::InternalPage.wire_tag());
}

#[test]
fn slot_count_matches_formula() {
    // Key u64 (8 bytes), value u64 (8 bytes): (4096 - 8 - 8) / (8 + 8 + 64).
    let count = SizeHelper::get_internal_page_slot_cnt::<8, u64, u64>();
    assert_eq!((4096 - 8 - 8) / 80, count);
    let leaf = SizeHelper::get_internal_page_slot_cnt::<16, u64, u64>();
    assert_eq!((4096 - 16 - 8) / 80, leaf);
}

#[test]
fn frame_header_tracks_metadata_and_bytes() {
    let mut frame = FrameHeader::new(5);
    assert_eq!(5, frame.frame_id());
    assert_eq!(None, frame.get_page_id());
    assert_eq!(false, frame.is_dirty());
    assert_eq!(PAGE_SIZE, frame.get_readable_data().len());
    assert_eq!(0, frame.read_byte(0));

    frame.set_page_id(Some(42));
    assert_eq!(Some(42), frame.get_page_id());
    frame.set_dirty(true);
    assert_eq!(true, frame.is_dirty());

    assert_eq!(1, frame.incr_pin_count());
    assert_eq!(2, frame.incr_pin_count());
    assert_eq!(1, frame.decr_pin_count());
    assert_eq!(0, frame.decr_pin_count());

    frame.write_byte(9, 0xab);
    assert_eq!(0xab, frame.read_byte(9));
    frame.write_bytes(100, b"abc");
    assert_eq!(b"abc".to_vec(), frame.read_bytes(100, 3));

    // Take the buffer out and put it back, as the flush path does.
    let data = frame.get_data_mut();
    assert_eq!(0xab, data[9]);
    frame.set_data(data);
    assert_eq!(0xab, frame.read_byte(9));
}

#[test]
fn memory_manager_round_trips_pages() {
    let mut store = MemoryManager::new(4);
    let mut page = vec![0u8; PAGE_SIZE];
    page[0] = 17;
    page[PAGE_SIZE - 1] = 99;
    assert_eq!(Ok(()), store.write_page(2, &page));

    let mut out = vec![0u8; PAGE_SIZE];
    assert_eq!(Ok(()), store.read_page(2, &mut out));
    assert_eq!(17, out[0]);
    assert_eq!(99, out[PAGE_SIZE - 1]);

    // An untouched page reads back as zeroes.
    assert_eq!(Ok(()), store.read_page(1, &mut out));
    assert_eq!(vec![0u8; PAGE_SIZE], out);
}

#[test]
fn memory_manager_rejects_out_of_range_pages() {
    let mut store = MemoryManager::new(2);
    let page = vec![0u8; PAGE_SIZE];
    assert_eq!(Err(IoFailure::OutOfRange), store.write_page(2, &page));
    let mut out = vec![0u8; PAGE_SIZE];
    assert_eq!(Err(IoFailure::OutOfRange), store.read_page(5, &mut out));
}
