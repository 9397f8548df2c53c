//! Buffer pool subsystem of an embedded relational storage engine.
//!
//! The pool keeps a bounded, in-memory working set of fixed-size pages,
//! serves readers and writers through pinned page guards, evicts pages
//! with a backward k-distance (LRU-K) policy, and writes dirty pages back
//! to a backing page store before their frames are reused.

use vstd::prelude::*;

pub mod b_plus_tree_page;
pub mod buffer_pool_manager;
pub mod catalog;
pub mod data_type;
pub mod index;
pub mod frame_header;
pub mod lruk_replacer;
pub mod page_guard;
pub mod page_operator;
pub mod rid;
pub mod text;

verus! {

/// Size in bytes of one page, the unit moved between frames and the store.
pub const PAGE_SIZE: usize = 4096;

} // verus!
