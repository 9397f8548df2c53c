//! In-page layouts for B+ tree nodes: headers shared by internal and leaf
//! pages, the page bodies, and the capacity computation that decides how
//! many slots fit in one page.

use vstd::prelude::*;

verus! {

/// Bytes the internal-page header occupies in the page format: two
/// 4-byte slot counters.
pub const BPLUS_TREE_INTERNAL_PAGE_HEADER_SIZE: usize = 8;

/// Bytes the leaf-page header occupies in the page format: two 4-byte
/// slot counters and an 8-byte next-page id.
pub const BPLUS_TREE_LEAF_PAGE_HEADER_SIZE: usize = 16;

/// Discriminates what kind of index page a frame holds.
pub enum IndexPageType {
    InvalidIndexPage,
    LeafPage,
    InternalPage,
}

impl IndexPageType {
    /// The tag this page type is stored as on disk.
    pub fn wire_tag(&self) -> (tag: u32)
        ensures
            tag == match self {
                IndexPageType::InvalidIndexPage => 1u32,
                IndexPageType::LeafPage => 2u32,
                IndexPageType::InternalPage => 3u32,
            },
    {
        match self {
            IndexPageType::InvalidIndexPage => 1,
            IndexPageType::LeafPage => 2,
            IndexPageType::InternalPage => 3,
        }
    }
}

/// Bytes one key/value slot occupies in a page: the key, the value, and
/// the four pointer-sized bookkeeping words of each of the two vectors
/// that hold them.
pub open spec fn spec_slot_size<KeyType, ValueType>() -> int {
    (vstd::layout::size_of::<KeyType>() + vstd::layout::size_of::<ValueType>() + 2 * 4
        * vstd::layout::size_of::<usize>()) as int
}

/// Computes how many key/value slots fit in one page.
pub struct SizeHelper;

impl SizeHelper {
    /// Slots available in a 4096-byte page after a header of `N` bytes and
    /// an 8-byte tail, where each slot costs one key, one value, and the
    /// length and capacity words of the two vectors that hold them.
    pub fn get_internal_page_slot_cnt<const N: usize, KeyType, ValueType>() -> (count: usize)
        requires
            N + 8 <= 4096,
        ensures
            count == if spec_slot_size::<KeyType, ValueType>() > 0 {
                (4096 - N - 8) as int / spec_slot_size::<KeyType, ValueType>()
            } else {
                0
            },
    {
        let key_size = core::mem::size_of::<KeyType>();
        let value_size = core::mem::size_of::<ValueType>();
        let word_size = core::mem::size_of::<usize>();
        let avail: u128 = (4096 - N - 8) as u128;
        let slot: u128 = key_size as u128 + value_size as u128 + 2 * 4 * word_size as u128;
        if slot == 0 {
            return 0;
        }
        (avail / slot) as usize
    }
}

/// Page id of the page holding a tree's header.
pub struct BplusTreeHeaderPage(usize);

/// Header shared by internal pages: current and maximum slot count.
#[allow(dead_code)]
pub struct BPlusTreeInternalHeader {
    size: u32,
    max_size: u32,
}

/// Header shared by leaf pages: slot counts and the next leaf in order.
#[allow(dead_code)]
pub struct BPlusTreeLeafHeader {
    size: u32,
    max_size: u32,
    next_page_id: usize,
}

/// An internal page: `n` keys and `n + 1` child page ids.  Keys are kept
/// in increasing order and the first key slot is unused.
pub struct BPlusTreeInternalPage<KeyType, ValueType> {
    keys: Vec<KeyType>,
    values: Vec<ValueType>,
}

impl<KeyType, ValueType> BPlusTreeInternalPage<KeyType, ValueType> {
    /// Keys currently stored.
    pub closed spec fn spec_keys(self) -> Seq<KeyType> {
        self.keys@
    }

    /// Child page ids currently stored.
    pub closed spec fn spec_values(self) -> Seq<ValueType> {
        self.values@
    }

    /// An empty internal page.
    pub fn new() -> (page: BPlusTreeInternalPage<KeyType, ValueType>)
        ensures
            page.spec_keys() == Seq::<KeyType>::empty(),
            page.spec_values() == Seq::<ValueType>::empty(),
    {
        let capacity = SizeHelper::get_internal_page_slot_cnt::<
            BPLUS_TREE_INTERNAL_PAGE_HEADER_SIZE,
            KeyType,
            ValueType,
        >();
        BPlusTreeInternalPage { keys: Vec::with_capacity(capacity), values: Vec::with_capacity(capacity) }
    }
}

/// A leaf page: keys in order and, slot for slot, the records they map to.
pub struct BPlusTreeLeafPage<KeyType, ValueType> {
    keys: Vec<KeyType>,
    values: Vec<ValueType>,
}

impl<KeyType, ValueType> BPlusTreeLeafPage<KeyType, ValueType> {
    /// Keys currently stored.
    pub closed spec fn spec_keys(self) -> Seq<KeyType> {
        self.keys@
    }

    /// Records currently stored.
    pub closed spec fn spec_values(self) -> Seq<ValueType> {
        self.values@
    }

    /// An empty leaf page.
    pub fn new() -> (page: BPlusTreeLeafPage<KeyType, ValueType>)
        ensures
            page.spec_keys() == Seq::<KeyType>::empty(),
            page.spec_values() == Seq::<ValueType>::empty(),
    {
        let capacity = SizeHelper::get_internal_page_slot_cnt::<
            BPLUS_TREE_LEAF_PAGE_HEADER_SIZE,
            KeyType,
            ValueType,
        >();
        BPlusTreeLeafPage { keys: Vec::with_capacity(capacity), values: Vec::with_capacity(capacity) }
    }
}

/// A B+ tree page of either kind, header and body together.
pub enum BPlusTreePage<KeyType, ValueType> {
    BPlusTreeLeafPage {
        header: BPlusTreeLeafHeader,
        data: BPlusTreeLeafPage<KeyType, ValueType>,
    },
    BPlusTreeInternalPage {
        header: BPlusTreeInternalHeader,
        data: BPlusTreeInternalPage<KeyType, ValueType>,
    },
}

} // verus!
