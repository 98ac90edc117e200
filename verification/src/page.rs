//! The page engine: slicing an ordered result set into fixed-size pages.

use vstd::prelude::*;

use crate::report::{ReportResponse, ReportResponseView, response_views};

verus! {

/// One page of an ordered result set.
pub struct PagedResponse {
    /// The page index that was requested.
    pub page: usize,
    /// The page size that was requested.
    pub limit: usize,
    /// How many responses the whole result set holds.
    pub total: usize,
    /// The responses of this page, in result-set order.
    pub data: Vec<ReportResponse>,
}

/// The window of `s` that page `page` of size `limit` shows: the elements
/// from `limit * page` on, capped at `limit` of them. Empty when `limit` is
/// zero or the page starts beyond the end.
pub open spec fn page_slice(s: Seq<ReportResponseView>, limit: int, page: int) -> Seq<
    ReportResponseView,
> {
    let start = limit * page;
    if limit <= 0 || start >= s.len() {
        Seq::empty()
    } else if start + limit >= s.len() {
        s.skip(start)
    } else {
        s.subrange(start, start + limit)
    }
}

/// Slices one page out of the result set.
pub fn get_paged_data(data: Vec<ReportResponse>, limit: usize, page: usize) -> (r: PagedResponse)
    ensures
        r.page == page,
        r.limit == limit,
        r.total == data@.len(),
        response_views(r.data@) == page_slice(response_views(data@), limit as int, page as int),
{
    let ghost s = response_views(data@);
    let total = data.len();
    let mut out: Vec<ReportResponse> = Vec::new();
    if limit > 0 {
        match limit.checked_mul(page) {
            None => {
                proof {
                    // The product exceeds usize::MAX, so it lies past the end.
                    assert(limit * page > usize::MAX >= s.len());
                }
            },
            Some(start) => {
                if start < total {
                    let end = if total - start > limit {
                        start + limit
                    } else {
                        total
                    };
                    let mut i: usize = start;
                    while i < end
                        invariant
                            start <= i <= end <= total,
                            total == data@.len(),
                            s == response_views(data@),
                            response_views(out@) =~= s.subrange(start as int, i as int),
                        decreases end - i,
                    {
                        let d = data[i].duplicate();
                        let ghost prev = out@;
                        out.push(d);
                        proof {
                            assert(out@ == prev.push(d));
                            assert(response_views(prev) == s.subrange(start as int, i as int));
                            assert(response_views(out@) =~= s.subrange(start as int, i + 1)) by {
                                assert(response_views(out@).len() == out@.len());
                                assert(out@.len() == prev.len() + 1);
                                assert(response_views(prev).len() == prev.len());
                                assert(prev.len() == i - start);
                                assert forall|k: int|
                                    0 <= k < out@.len() implies #[trigger] response_views(out@)[k]
                                    == s.subrange(start as int, i + 1)[k] by {
                                    assert(response_views(prev).len() == prev.len());
                                    assert(prev.len() == i - start);
                                    assert(s.len() == data@.len());
                                    assert(start + k <= i < s.len());
                                    assert(response_views(out@)[k] == out@[k]@);
                                    if k < prev.len() {
                                        assert(out@[k] == prev[k]);
                                        assert(response_views(prev)[k] == prev[k]@);
                                        assert(s.subrange(start as int, i as int)[k] == s[start
                                            + k]);
                                        assert(s.subrange(start as int, i + 1)[k] == s[start + k]);
                                    } else {
                                        assert(out@[k] == d);
                                        assert(d@ == data@[i as int]@);
                                        assert(s[i as int] == data@[i as int]@);
                                        assert(s.subrange(start as int, i + 1)[k] == s[i as int]);
                                    }
                                }
                            }
                        }
                        i = i + 1;
                    }
                    proof {
                        if start + limit >= s.len() {
                            assert(s.subrange(start as int, end as int) =~= s.skip(start as int));
                        }
                    }
                }
            },
        }
    }
    PagedResponse { page, limit, total, data: out }
}

} // verus!
