//! Offset pagination shared by every list endpoint.
//!
//! A query may carry a page and a limit; absent values default to page 1 and
//! limit 10, and a page of 0 — which would underflow the offset — is clamped
//! to 1. The window is cut to the length of the listed sequence.

use vstd::prelude::*;

verus! {

/// The page actually used: 1 when absent or 0.
pub open spec fn effective_page(page: Option<usize>) -> int {
    match page {
        None => 1,
        Some(p) => if p == 0 {
            1
        } else {
            p as int
        },
    }
}

/// The limit actually used: 10 when absent.
pub open spec fn effective_limit(limit: Option<usize>) -> int {
    match limit {
        None => 10,
        Some(l) => l as int,
    }
}

/// The first index of the requested page, cut to `len`.
pub open spec fn spec_page_start(len: int, page: Option<usize>, limit: Option<usize>) -> int {
    let off = (effective_page(page) - 1) * effective_limit(limit);
    if off > len {
        len
    } else {
        off
    }
}

/// One past the last index of the requested page, cut to `len`.
pub open spec fn spec_page_end(len: int, page: Option<usize>, limit: Option<usize>) -> int {
    let e = spec_page_start(len, page, limit) + effective_limit(limit);
    if e > len {
        len
    } else {
        e
    }
}

/// The half-open index window `[start, end)` of the requested page of a
/// sequence of `len` items.
pub fn page_window(len: usize, page: Option<usize>, limit: Option<usize>) -> (r: (usize, usize))
    ensures
        r.0 == spec_page_start(len as int, page, limit),
        r.1 == spec_page_end(len as int, page, limit),
        r.0 <= r.1 <= len,
{
    let p: usize = match page {
        None => 1,
        Some(p) => if p == 0 {
            1
        } else {
            p
        },
    };
    let l: usize = match limit {
        None => 10,
        Some(l) => l,
    };
    let start: usize = match (p - 1).checked_mul(l) {
        None => len,
        Some(o) => if o > len {
            len
        } else {
            o
        },
    };
    let end: usize = match start.checked_add(l) {
        None => len,
        Some(e) => if e > len {
            len
        } else {
            e
        },
    };
    (start, end)
}

/// Law: an absent page and an explicit first page request the same window.
pub proof fn lemma_default_page(len: int, limit: Option<usize>)
    ensures
        spec_page_start(len, None, limit) == spec_page_start(len, Some(1), limit),
        spec_page_end(len, None, limit) == spec_page_end(len, Some(1), limit),
{
}

/// Law: on a sequence long enough to fill it, the window of page `p` with
/// limit `l` is exactly the `l` items starting after the first `(p-1)·l`.
pub proof fn lemma_page_window_full(len: int, p: usize, l: usize)
    requires
        1 <= p,
        (p as int) * (l as int) <= len,
    ensures
        spec_page_start(len, Some(p), Some(l)) == (p - 1) * (l as int),
        spec_page_end(len, Some(p), Some(l)) == (p as int) * (l as int),
{
    assert((p - 1) * (l as int) <= (p as int) * (l as int) && (p - 1) * (l as int) + l == (
    p as int) * (l as int)) by (nonlinear_arith)
        requires
            1 <= p,
    ;
}

} // verus!
