//! Paging values of the read-side query port and of the audit surface.

use vstd::prelude::*;

verus! {

/// One page of a query's results.
#[derive(Debug)]
pub struct Paged<T> {
    pub items: Vec<T>,
    pub total: i64,
    pub page: i64,
    pub page_size: i64,
}

/// The paging parameters of an audit-log query. Pages are 1-based.
pub struct AuditLogQuery {
    pub page: usize,
    pub page_size: usize,
}

/// The page size an audit query falls back to.
pub fn default_page_size() -> (r: usize)
    ensures
        r == 10,
{
    10
}

} // verus!
