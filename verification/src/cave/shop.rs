use vstd::prelude::*;

verus! {

/// A shop slot that sells a key.
#[derive(Debug, Clone, Copy, PartialEq, Eq)]
pub struct Shop {
    /// 0-based index into the shop slot arrays.
    pub shop_index: u8,
    /// 0 = left, 1 = middle, 2 = right.
    pub slot: u8,
    pub price: u8,
}

} // verus!
