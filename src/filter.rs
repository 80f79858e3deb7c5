use vstd::prelude::*;

verus! {

/// Number of items on one page.
pub const PAGE_LIMIT: i64 = 10;

/// A requested page of a listing.
#[derive(Debug, Clone, Copy, PartialEq, Eq, Structural)]
pub struct Pagination {
    pub page: i64,
}

impl Pagination {
    /// Items per page.
    pub fn limit(&self) -> (r: i64)
        ensures
            r == PAGE_LIMIT,
    {
        PAGE_LIMIT
    }

    /// Offset of the page: the smaller of `page * limit` and zero.
    pub fn offset(&self) -> (r: i64)
        requires
            self.page * PAGE_LIMIT >= i64::MIN,
        ensures
            r == if self.page * PAGE_LIMIT < 0 { self.page * PAGE_LIMIT } else { 0 },
    {
        if self.page >= 0 {
            0
        } else {
            self.page * self.limit()
        }
    }
}

} // verus!
