//! Pages of messages.
use vstd::prelude::*;

verus! {

/// Which page of the messages is asked for.
#[derive(Clone, Copy, Debug)]
pub struct LogsQuery {
    /// The page, counted from 1.
    pub page: Option<u64>,
    /// How many messages a page holds.
    pub limit: Option<u64>,
}

/// A page of messages.
#[derive(Debug)]
pub struct LogsResponse {
    pub messages: Vec<serde_json::Value>,
    /// How many messages there are on all pages.
    pub total: u64,
    /// The page that this is.
    pub page: u64,
    /// How many messages a page holds.
    pub limit: u64,
}

/// The lesser of two numbers.
pub open spec fn lesser(a: int, b: int) -> int {
    if a <= b {
        a
    } else {
        b
    }
}

/// Where a page starts among `total` messages.
pub open spec fn page_start(page: int, limit: int, total: int) -> int {
    lesser((page - 1) * limit, total)
}

/// Where a page ends among `total` messages.
pub open spec fn page_end(page: int, limit: int, total: int) -> int {
    lesser(page_start(page, limit, total) + limit, total)
}

/// The items of a page, with pages of `limit` items that are counted from 1.
pub open spec fn page_of<T>(items: Seq<T>, page: int, limit: int) -> Seq<T> {
    items.subrange(
        page_start(page, limit, items.len() as int),
        page_end(page, limit, items.len() as int),
    )
}

impl LogsQuery {
    /// The page that is asked for: the first unless a later one is named.
    pub open spec fn spec_page(self) -> u64 {
        match self.page {
            Some(page) => if page < 1 {
                1
            } else {
                page
            },
            None => 1,
        }
    }

    /// How many messages a page holds: 20 unless a number is named, at least 1 and at
    /// most 100.
    pub open spec fn spec_limit(self) -> u64 {
        match self.limit {
            Some(limit) => if limit < 1 {
                1
            } else if limit > 100 {
                100
            } else {
                limit
            },
            None => 20,
        }
    }

    /// Whether the number of messages before the page fits in 64 bits.
    pub open spec fn spec_in_range(self) -> bool {
        (self.spec_page() - 1) * self.spec_limit() <= u64::MAX
    }

    /// The page that is asked for.
    pub fn effective_page(&self) -> (page: u64)
        ensures
            page == self.spec_page(),
            self.page is None ==> page == 1,
            self.page matches Some(p) ==> page == if p < 1 {
                1
            } else {
                p
            },
    {
        match self.page {
            Some(page) => if page < 1 {
                1
            } else {
                page
            },
            None => 1,
        }
    }

    /// How many messages a page holds.
    pub fn effective_limit(&self) -> (limit: u64)
        ensures
            limit == self.spec_limit(),
            1 <= limit <= 100,
            self.limit is None ==> limit == 20,
            self.limit matches Some(n) ==> limit == if n < 1 {
                1
            } else if n > 100 {
                100
            } else {
                n
            },
    {
        match self.limit {
            Some(limit) => if limit < 1 {
                1
            } else if limit > 100 {
                100
            } else {
                limit
            },
            None => 20,
        }
    }

    /// Whether the number of messages before the page fits in 64 bits.
    pub fn in_range(&self) -> (fits: bool)
        ensures
            fits == self.spec_in_range(),
    {
        (self.effective_page() - 1).checked_mul(self.effective_limit()).is_some()
    }
}

/// Cuts a page out of the messages.
pub fn paginate(all: Vec<serde_json::Value>, query: &LogsQuery) -> (response: LogsResponse)
    requires
        query.spec_in_range(),
    ensures
        response.total == all@.len(),
        response.page == query.spec_page(),
        response.limit == query.spec_limit(),
        response.messages@ == page_of(all@, query.spec_page() as int, query.spec_limit() as int),
        query.limit is None ==> response.limit == 20,
        query.limit matches Some(n) ==> response.limit == if n < 1 {
            1
        } else if n > 100 {
            100
        } else {
            n
        },
        query.page is None ==> response.page == 1,
        query.page matches Some(p) ==> response.page == if p < 1 {
            1
        } else {
            p
        },
        response.messages@.len() <= response.limit,
        forall|i: int|
            0 <= i < response.messages@.len() ==> #[trigger] response.messages@[i] == all@[(
            response.page - 1) * response.limit + i],
        response.messages@.len() > 0 ==> (response.page - 1) * response.limit
            + response.messages@.len() <= all@.len(),
        response.messages@.len() < response.limit ==> (response.page - 1) * response.limit
            + response.messages@.len() >= all@.len(),
{
    let total = all.len();
    let limit = query.effective_limit();
    let page = query.effective_page();
    let skipped: u64 = (page - 1) * limit;
    let offset: usize = if skipped < total as u64 {
        skipped as usize
    } else {
        total
    };
    let size: usize = if limit < (total - offset) as u64 {
        limit as usize
    } else {
        total - offset
    };
    let mut rest = all;
    let mut messages = rest.split_off(offset);
    messages.truncate(size);
    assert(messages@ =~= page_of(all@, page as int, limit as int));
    LogsResponse { messages, total: total as u64, page, limit }
}

} // verus!
