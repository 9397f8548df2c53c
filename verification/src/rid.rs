//! Record identifier: a page id combined with a slot number.

use vstd::prelude::*;

verus! {

/// Identifies one record: the page it lives on and its slot there.
#[derive(Debug, Hash, PartialEq, Eq, PartialOrd, Ord, Structural)]
pub struct RID {
    pub page_id: usize,
    pub slot_num: u32,
}

impl RID {
    pub fn new(page_id: usize, slot_num: u32) -> (rid: RID)
        ensures
            rid == (RID { page_id, slot_num }),
    {
        RID { page_id, slot_num }
    }
}

} // verus!
