use vstd::prelude::*;

verus! {

/// Number of indices `k` with `0 <= k < n` that satisfy `p`.
pub open spec fn count_below(n: int, p: spec_fn(int) -> bool) -> nat
    decreases n,
{
    if n <= 0 {
        0
    } else {
        count_below(n - 1, p) + if p(n - 1) {
            1nat
        } else {
            0nat
        }
    }
}

/// Predicates that agree below `n` count the same.
pub proof fn lemma_count_ext(n: int, p: spec_fn(int) -> bool, q: spec_fn(int) -> bool)
    requires
        forall|k: int| 0 <= k < n ==> #[trigger] p(k) == q(k),
    ensures
        count_below(n, p) == count_below(n, q),
    decreases n,
{
    if n > 0 {
        lemma_count_ext(n - 1, p, q);
    }
}

/// A predicate implied by another counts at least as much.
pub proof fn lemma_count_mono(n: int, p: spec_fn(int) -> bool, q: spec_fn(int) -> bool)
    requires
        forall|k: int| 0 <= k < n && #[trigger] p(k) ==> q(k),
    ensures
        count_below(n, p) <= count_below(n, q),
    decreases n,
{
    if n > 0 {
        lemma_count_mono(n - 1, p, q);
    }
}

/// Making one index satisfy the predicate adds one to the count.
pub proof fn lemma_count_flip(n: int, p: spec_fn(int) -> bool, q: spec_fn(int) -> bool, j: int)
    requires
        0 <= j < n,
        !p(j),
        q(j),
        forall|k: int| 0 <= k < n && k != j ==> #[trigger] p(k) == q(k),
    ensures
        count_below(n, q) == count_below(n, p) + 1,
    decreases n,
{
    if n - 1 == j {
        lemma_count_ext(n - 1, p, q);
    } else {
        lemma_count_flip(n - 1, p, q, j);
    }
}

/// No index satisfies a predicate that is false everywhere.
pub proof fn lemma_count_none(n: int, p: spec_fn(int) -> bool)
    requires
        forall|k: int| 0 <= k < n ==> !#[trigger] p(k),
    ensures
        count_below(n, p) == 0,
    decreases n,
{
    if n > 0 {
        lemma_count_none(n - 1, p);
    }
}

/// The count of `p` splits into the part where `q` holds and the part where it does not.
pub proof fn lemma_count_split(n: int, p: spec_fn(int) -> bool, q: spec_fn(int) -> bool)
    ensures
        count_below(n, p) == count_below(n, |k: int| p(k) && q(k)) + count_below(
            n,
            |k: int| p(k) && !q(k),
        ),
    decreases n,
{
    if n > 0 {
        lemma_count_split(n - 1, p, q);
    }
}

/// An index below `n` that satisfies `p` makes the count positive.
pub proof fn lemma_count_positive(n: int, p: spec_fn(int) -> bool, i: int)
    requires
        0 <= i < n,
        p(i),
    ensures
        count_below(n, p) >= 1,
    decreases n,
{
    if i < n - 1 {
        lemma_count_positive(n - 1, p, i);
    }
}

/// Counting over a longer prefix never counts less, and counts one more for
/// each satisfying index in between; in particular an index `m` with `p(m)`
/// below `n` makes the count below `n` exceed the count below `m`.
pub proof fn lemma_count_prefix(m: int, n: int, p: spec_fn(int) -> bool)
    requires
        0 <= m <= n,
    ensures
        count_below(m, p) <= count_below(n, p),
        m < n && p(m) ==> count_below(m, p) < count_below(n, p),
    decreases n - m,
{
    if m < n {
        lemma_count_prefix(m, n - 1, p);
    }
}

/// At most `n` indices below `n` satisfy any predicate.
pub proof fn lemma_count_at_most(n: int, p: spec_fn(int) -> bool)
    requires
        0 <= n,
    ensures
        count_below(n, p) <= n,
    decreases n,
{
    if n > 0 {
        lemma_count_at_most(n - 1, p);
    }
}

} // verus!
