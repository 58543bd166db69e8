//! Sums and maxima of sequences of natural numbers.

use vstd::prelude::*;

verus! {

/// The sum of the elements.
pub open spec fn total(s: Seq<nat>) -> nat
    decreases s.len(),
{
    if s.len() == 0 {
        0
    } else {
        total(s.drop_last()) + s.last()
    }
}

/// The greatest element, or zero for the empty sequence.
pub open spec fn greatest(s: Seq<nat>) -> nat
    decreases s.len(),
{
    if s.len() == 0 {
        0
    } else {
        let rest = greatest(s.drop_last());
        if s.last() > rest {
            s.last()
        } else {
            rest
        }
    }
}

/// Taking one element more adds it to the sum.
pub proof fn lemma_total_step(s: Seq<nat>, i: int)
    requires
        0 <= i < s.len(),
    ensures
        total(s.take(i + 1)) == total(s.take(i)) + s[i],
{
    assert(s.take(i + 1).drop_last() =~= s.take(i));
}

/// The sum of a prefix is at most the sum of the whole.
pub proof fn lemma_total_prefix(s: Seq<nat>, i: int)
    requires
        0 <= i <= s.len(),
    ensures
        total(s.take(i)) <= total(s),
    decreases s.len() - i,
{
    if i == s.len() {
        assert(s.take(i) =~= s);
    } else {
        lemma_total_step(s, i);
        lemma_total_prefix(s, i + 1);
    }
}

/// The sum of a concatenation is the sum of the sums.
pub proof fn lemma_total_concat(a: Seq<nat>, b: Seq<nat>)
    ensures
        total(a + b) == total(a) + total(b),
    decreases b.len(),
{
    if b.len() == 0 {
        assert(a + b =~= a);
    } else {
        assert((a + b).drop_last() =~= a + b.drop_last());
        lemma_total_concat(a, b.drop_last());
    }
}

/// Where every element is at most `bound`, the sum is at most `bound` times
/// the length.
pub proof fn lemma_total_bound(s: Seq<nat>, bound: nat)
    requires
        forall|i: int| 0 <= i < s.len() ==> s[i] <= bound,
    ensures
        total(s) <= s.len() * bound,
    decreases s.len(),
{
    if s.len() > 0 {
        lemma_total_bound(s.drop_last(), bound);
        assert(s.len() * bound == (s.len() - 1) * bound + bound) by (nonlinear_arith);
    }
}

/// Taking one element more raises the maximum to it, if it is greater.
pub proof fn lemma_greatest_step(s: Seq<nat>, i: int)
    requires
        0 <= i < s.len(),
    ensures
        greatest(s.take(i + 1)) == if s[i] > greatest(s.take(i)) {
            s[i]
        } else {
            greatest(s.take(i))
        },
{
    assert(s.take(i + 1).drop_last() =~= s.take(i));
}

/// The maximum of a prefix is at most the maximum of the whole.
pub proof fn lemma_greatest_prefix(s: Seq<nat>, i: int)
    requires
        0 <= i <= s.len(),
    ensures
        greatest(s.take(i)) <= greatest(s),
    decreases s.len() - i,
{
    if i == s.len() {
        assert(s.take(i) =~= s);
    } else {
        lemma_greatest_step(s, i);
        lemma_greatest_prefix(s, i + 1);
    }
}

/// No element is above the maximum, and the maximum is at most the sum.
pub proof fn lemma_greatest_bounds(s: Seq<nat>)
    ensures
        forall|i: int| 0 <= i < s.len() ==> s[i] <= greatest(s),
        greatest(s) <= total(s),
    decreases s.len(),
{
    if s.len() > 0 {
        lemma_greatest_bounds(s.drop_last());
        assert forall|i: int| 0 <= i < s.len() implies s[i] <= greatest(s) by {
            if i < s.len() - 1 {
                assert(s.drop_last()[i] == s[i]);
            }
        }
    }
}

} // verus!
