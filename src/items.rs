//! Sequences of variable-length items laid end to end.
use vstd::prelude::*;

verus! {

/// Where the first `n` items that start at `p` end, if each parses; `end(q)` is
/// where one item that starts at `q` ends.
pub open spec fn items_end(p: int, n: int, end: spec_fn(int) -> Option<int>) -> Option<int>
    decreases n,
{
    if n <= 0 {
        Some(p)
    } else {
        match items_end(p, n - 1, end) {
            Some(q) => end(q),
            None => None,
        }
    }
}

/// Item `i` of `s` is what `rel` says of the bytes at its start.
pub open spec fn items_rel<T>(
    p: int,
    s: Seq<T>,
    end: spec_fn(int) -> Option<int>,
    rel: spec_fn(int, T) -> bool,
) -> bool {
    forall|i: int|
        0 <= i < s.len() ==> match #[trigger] items_end(p, i, end) {
            Some(q) => rel(q, s[i]),
            None => false,
        }
}

/// Once an item fails, every longer run fails too.
pub proof fn lemma_items_fail(p: int, i: int, n: int, end: spec_fn(int) -> Option<int>)
    requires
        0 <= i <= n,
        items_end(p, i, end) is None,
    ensures
        items_end(p, n, end) is None,
    decreases n - i,
{
    if i < n {
        lemma_items_fail(p, i, n - 1, end);
    }
}

/// A run extended by one item keeps the relation of the earlier items.
pub proof fn lemma_items_push<T>(
    p: int,
    s: Seq<T>,
    x: T,
    end: spec_fn(int) -> Option<int>,
    rel: spec_fn(int, T) -> bool,
)
    requires
        items_rel(p, s, end, rel),
        items_end(p, s.len() as int, end) matches Some(q) && rel(q, x),
    ensures
        items_rel(p, s.push(x), end, rel),
{
    assert forall|i: int| 0 <= i < s.push(x).len() implies match #[trigger] items_end(
        p,
        i,
        end,
    ) {
        Some(q) => rel(q, s.push(x)[i]),
        None => false,
    } by {
        if i < s.len() {
            assert(s.push(x)[i] == s[i]);
        }
    }
}

} // verus!
