//! First and last index below a bound at which a predicate holds.
use vstd::prelude::*;

verus! {

/// The smallest `k` with `0 <= k < n` and `p(k)`.
pub open spec fn first_where(p: spec_fn(int) -> bool, n: int) -> Option<int>
    decreases n,
{
    if n <= 0 {
        None
    } else {
        match first_where(p, n - 1) {
            Some(k) => Some(k),
            None => if p(n - 1) {
                Some(n - 1)
            } else {
                None
            },
        }
    }
}

/// The largest `k` with `0 <= k < n` and `p(k)`.
pub open spec fn last_where(p: spec_fn(int) -> bool, n: int) -> Option<int>
    decreases n,
{
    if n <= 0 {
        None
    } else if p(n - 1) {
        Some(n - 1)
    } else {
        last_where(p, n - 1)
    }
}

pub proof fn lemma_first_where(p: spec_fn(int) -> bool, n: int)
    ensures
        match first_where(p, n) {
            Some(k) => 0 <= k < n && p(k) && forall|j: int| 0 <= j < k ==> !#[trigger] p(j),
            None => forall|j: int| 0 <= j < n ==> !#[trigger] p(j),
        },
    decreases n,
{
    if n > 0 {
        lemma_first_where(p, n - 1);
    }
}

pub proof fn lemma_last_where(p: spec_fn(int) -> bool, n: int)
    ensures
        match last_where(p, n) {
            Some(k) => 0 <= k < n && p(k) && forall|j: int| k < j < n ==> !#[trigger] p(j),
            None => forall|j: int| 0 <= j < n ==> !#[trigger] p(j),
        },
    decreases n,
{
    if n > 0 {
        lemma_last_where(p, n - 1);
    }
}

/// Predicates that agree below `m`, the first of which does not hold from there on, are first met
/// at the same place.
pub proof fn lemma_first_where_same(
    p: spec_fn(int) -> bool,
    q: spec_fn(int) -> bool,
    m: int,
    n: int,
)
    requires
        m <= n,
        forall|j: int| 0 <= j < m ==> #[trigger] p(j) == q(j),
        forall|j: int| m <= j < n ==> !#[trigger] p(j),
    ensures
        first_where(p, n) == first_where(q, m),
{
    lemma_first_where(p, n);
    lemma_first_where(q, m);
    if let Some(k) = first_where(q, m) {
        assert(p(k));
    }
    if let Some(k) = first_where(p, n) {
        assert(q(k));
    }
}

/// Predicates that agree below `n` are last met at the same place.
pub proof fn lemma_last_where_same(p: spec_fn(int) -> bool, q: spec_fn(int) -> bool, n: int)
    requires
        forall|j: int| 0 <= j < n ==> #[trigger] p(j) == q(j),
    ensures
        last_where(p, n) == last_where(q, n),
    decreases n,
{
    if n > 0 {
        assert(p(n - 1) == q(n - 1));
        lemma_last_where_same(p, q, n - 1);
    }
}

} // verus!
