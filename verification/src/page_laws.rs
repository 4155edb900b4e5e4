//! What holds of every query for a page, and of every page.
use crate::page::{page_of, LogsQuery};
use vstd::prelude::*;

verus! {

/// How many messages a page holds depends on the limit alone: 20 where none is named,
/// else the named number, brought into the range from 1 to 100.
pub proof fn law_limit_is_the_named_one_in_range(query: LogsQuery)
    ensures
        query.limit is None ==> query.spec_limit() == 20,
        query.limit matches Some(n) ==> {
            &&& n == 0 ==> query.spec_limit() == 1
            &&& 1 <= n <= 100 ==> query.spec_limit() == n
            &&& n > 100 ==> query.spec_limit() == 100
        },
{
}

/// Which page is asked for depends on the page alone: the first where none is named,
/// and where page 0 is.
pub proof fn law_page_is_the_named_one(query: LogsQuery)
    ensures
        query.page is None ==> query.spec_page() == 1,
        query.page matches Some(p) ==> {
            &&& p == 0 ==> query.spec_page() == 1
            &&& p >= 1 ==> query.spec_page() == p
        },
{
}

/// Two queries with one limit have pages of one size, and two with one page ask for the
/// same page.
pub proof fn law_limit_and_page_are_independent(a: LogsQuery, b: LogsQuery)
    ensures
        a.limit == b.limit ==> a.spec_limit() == b.spec_limit(),
        a.page == b.page ==> a.spec_page() == b.spec_page(),
{
}

/// A page is out of range only where it is so far behind that the number of messages
/// before it does not fit in 64 bits.
pub proof fn law_only_far_pages_are_out_of_range(query: LogsQuery)
    ensures
        query.page is None ==> query.spec_in_range(),
        query.page matches Some(p) ==> (query.spec_in_range() <==> p == 0 || (p - 1)
            * query.spec_limit() <= 0xffff_ffff_ffff_ffff),
{
    let limit = query.spec_limit();
    assert((1 - 1) * limit == 0) by (nonlinear_arith);
}

/// The items of a page are those from `(page - 1) * limit` on, in their order, as many as
/// there are but at most `limit`.
pub proof fn law_page_holds_its_items<T>(items: Seq<T>, page: int, limit: int, at: int)
    requires
        page >= 1,
        limit >= 1,
        at >= 0,
    ensures
        at < page_of(items, page, limit).len() <==> at < limit && (page - 1) * limit + at
            < items.len(),
        at < page_of(items, page, limit).len() ==> page_of(items, page, limit)[at] == items[(page
            - 1) * limit + at],
{
    assert((page - 1) * limit >= 0) by (nonlinear_arith)
        requires
            page >= 1,
            limit >= 1,
    ;
}

} // verus!
