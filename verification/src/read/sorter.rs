//! Sort criteria a read-side query may carry.

use vstd::prelude::*;

verus! {

#[derive(Clone, Copy, PartialEq, Eq, Structural, Debug)]
pub enum SortDirection {
    Asc,
    Desc,
}

/// A field name and the direction to order it by.
pub struct Sorter {
    pub field: String,
    pub direction: SortDirection,
}

} // verus!
