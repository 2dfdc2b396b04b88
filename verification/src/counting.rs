//! Counting positions and adding up values.

use vstd::prelude::*;

verus! {

/// The number of positions `i` with `0 <= i < n` at which `p` holds.
pub open spec fn count_below(n: nat, p: spec_fn(int) -> bool) -> nat
    decreases n,
{
    if n == 0 {
        0
    } else {
        count_below((n - 1) as nat, p) + if p(n - 1) {
            1nat
        } else {
            0nat
        }
    }
}

/// The sum of the values.
pub open spec fn sum_of(values: Seq<nat>) -> nat
    decreases values.len(),
{
    if values.len() == 0 {
        0
    } else {
        sum_of(values.drop_last()) + values.last()
    }
}

/// A count of positions below `n` is at most `n`.
pub proof fn lemma_count_below_bound(n: nat, p: spec_fn(int) -> bool)
    ensures
        count_below(n, p) <= n,
    decreases n,
{
    if n > 0 {
        lemma_count_below_bound((n - 1) as nat, p);
    }
}

/// Two predicates that agree below `n` have the same count there.
pub proof fn lemma_count_same(n: nat, p: spec_fn(int) -> bool, q: spec_fn(int) -> bool)
    requires
        forall|i: int| 0 <= i < n ==> #[trigger] p(i) == q(i),
    ensures
        count_below(n, p) == count_below(n, q),
    decreases n,
{
    if n > 0 {
        lemma_count_same((n - 1) as nat, p, q);
    }
}

/// A predicate that holds nowhere below `n` counts nothing there.
pub proof fn lemma_count_none(n: nat, p: spec_fn(int) -> bool)
    requires
        forall|i: int| 0 <= i < n ==> !#[trigger] p(i),
    ensures
        count_below(n, p) == 0,
    decreases n,
{
    if n > 0 {
        lemma_count_none((n - 1) as nat, p);
    }
}

/// The count below `m + n` is the count below `m` and the count of the `n`
/// positions from `m` on.
pub proof fn lemma_count_split(m: nat, n: nat, p: spec_fn(int) -> bool)
    ensures
        count_below(m + n, p) == count_below(m, p) + count_below(n, |i: int| p(i + m)),
    decreases n,
{
    if n > 0 {
        lemma_count_split(m, (n - 1) as nat, p);
        let shifted = |i: int| p(i + m);
        assert(shifted(n - 1) == p(m + n - 1));
    }
}

} // verus!
