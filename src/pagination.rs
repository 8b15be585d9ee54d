use vstd::prelude::*;

use crate::shared_models::{DisplayMessage, PaginatedMessages};

verus! {

/// First index of page `page` in a list of `total` items, clamped to `total`.
pub open spec fn page_start(total: int, page: int, page_size: int) -> int {
    if page * page_size < total {
        page * page_size
    } else {
        total
    }
}

/// One past the last index of page `page`, clamped to `total`.
pub open spec fn page_end(total: int, page: int, page_size: int) -> int {
    if page * page_size + page_size < total {
        page * page_size + page_size
    } else {
        total
    }
}

impl PaginatedMessages {
    /// `self` is page `page` of `all` in pages of `page_size`.
    pub open spec fn is_page_of(self, all: Seq<DisplayMessage>, page: int, page_size: int) -> bool {
        let total = all.len() as int;
        &&& self.total == total
        &&& self.page == page
        &&& self.page_size == page_size
        &&& self.messages@ == all.subrange(
            page_start(total, page, page_size),
            page_end(total, page, page_size),
        )
        &&& self.has_more == (page_end(total, page, page_size) < total)
    }
}

/// Page `page` of `all`, `page_size` messages to a page. A page beyond the
/// end is empty and has nothing more after it.
pub fn paginate(all: Vec<DisplayMessage>, page: usize, page_size: usize) -> (r: PaginatedMessages)
    ensures
        r.is_page_of(all@, page as int, page_size as int),
{
    let total = all.len();
    let ghost a = all@;
    let start: usize = match page.checked_mul(page_size) {
        Some(s) if s < total => s,
        _ => total,
    };
    proof {
        if page * page_size < total {
            assert(start == page * page_size);
        } else {
            assert(start == total);
        }
    }
    let end: usize = if total - start > page_size {
        start + page_size
    } else {
        total
    };
    proof {
        if start < total {
            assert(start == page * page_size);
        } else {
            assert(page * page_size + page_size >= total) by (nonlinear_arith)
                requires
                    page * page_size >= total,
                    page_size >= 0,
            ;
        }
    }
    let mut rest = all;
    let mut tail = rest.split_off(start);
    tail.truncate(end - start);
    proof {
        assert(tail@ =~= a.subrange(start as int, end as int));
    }
    PaginatedMessages { messages: tail, total, page, page_size, has_more: end < total }
}

/// A page never holds more than `page_size` messages, and there are more
/// after it exactly when the messages before it and on it are fewer than all.
pub proof fn lemma_page_bounds(
    r: PaginatedMessages,
    all: Seq<DisplayMessage>,
    page: int,
    page_size: int,
)
    requires
        r.is_page_of(all, page, page_size),
        page >= 0,
        page_size >= 0,
    ensures
        r.messages@.len() <= page_size,
        r.has_more == (page * page_size + r.messages@.len() < r.total),
{
    let total = all.len() as int;
    assert(page * page_size >= 0) by (nonlinear_arith)
        requires
            page >= 0,
            page_size >= 0,
    ;
}

/// Two calls with the same list and the same page arguments give the same page.
pub proof fn lemma_page_deterministic(
    r1: PaginatedMessages,
    r2: PaginatedMessages,
    all: Seq<DisplayMessage>,
    page: int,
    page_size: int,
)
    requires
        r1.is_page_of(all, page, page_size),
        r2.is_page_of(all, page, page_size),
    ensures
        r1.messages@ == r2.messages@,
        r1.total == r2.total,
        r1.page == r2.page,
        r1.page_size == r2.page_size,
        r1.has_more == r2.has_more,
{
}

} // verus!
