//! Cutting one page out of a list.

use vstd::prelude::*;

verus! {

/// The first of the elements that a page skips `offset` to reach: `offset`
/// itself, or the end of a list of `len` elements.
pub open spec fn page_start(len: int, offset: int) -> int {
    if offset < len {
        offset
    } else {
        len
    }
}

/// The end of a page of at most `limit` elements in a list of `len` elements.
pub open spec fn page_end(len: int, offset: int, limit: int) -> int {
    if page_start(len, offset) + limit < len {
        page_start(len, offset) + limit
    } else {
        len
    }
}

/// What is left of `s` when `offset` elements are skipped and at most `limit`
/// of the others are taken.
pub open spec fn page<T>(s: Seq<T>, offset: int, limit: int) -> Seq<T> {
    s.subrange(page_start(s.len() as int, offset), page_end(s.len() as int, offset, limit))
}

/// Two pages that follow one another hold what one page of both sizes holds.
pub proof fn pages_join<T>(s: Seq<T>, offset: int, first: int, second: int)
    requires
        offset >= 0,
        first >= 0,
        second >= 0,
    ensures
        page(s, offset, first) + page(s, offset + first, second) == page(
            s,
            offset,
            first + second,
        ),
{
    assert(page(s, offset, first) + page(s, offset + first, second) =~= page(
        s,
        offset,
        first + second,
    ));
}

} // verus!
