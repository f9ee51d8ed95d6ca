//! Sums over sequences, and why the order of the terms does not matter.

use vstd::prelude::*;
use vstd::seq_lib::{to_multiset_build, to_multiset_contains, to_multiset_len, to_multiset_remove};

verus! {

/// The sum of `f` over the items of `s`.
pub open spec fn sum_by<A>(s: Seq<A>, f: spec_fn(A) -> nat) -> nat
    decreases s.len(),
{
    if s.len() == 0 {
        0
    } else {
        sum_by(s.drop_last(), f) + f(s.last())
    }
}

pub proof fn lemma_sum_by_push<A>(s: Seq<A>, x: A, f: spec_fn(A) -> nat)
    ensures
        sum_by(s.push(x), f) == sum_by(s, f) + f(x),
{
    assert(s.push(x).drop_last() =~= s);
}

pub proof fn lemma_sum_by_concat<A>(a: Seq<A>, b: Seq<A>, f: spec_fn(A) -> nat)
    ensures
        sum_by(a + b, f) == sum_by(a, f) + sum_by(b, f),
    decreases b.len(),
{
    if b.len() == 0 {
        assert(a + b =~= a);
    } else {
        lemma_sum_by_concat(a, b.drop_last(), f);
        assert((a + b).drop_last() =~= a + b.drop_last());
    }
}

/// Taking one item out lowers the sum by that item's term.
pub proof fn lemma_sum_by_remove<A>(s: Seq<A>, i: int, f: spec_fn(A) -> nat)
    requires
        0 <= i < s.len(),
    ensures
        sum_by(s, f) == sum_by(s.remove(i), f) + f(s[i]),
    decreases s.len(),
{
    if i == s.len() - 1 {
        assert(s.remove(i) =~= s.drop_last());
    } else {
        lemma_sum_by_remove(s.drop_last(), i, f);
        assert(s.remove(i).drop_last() =~= s.drop_last().remove(i));
        assert(s.remove(i).last() == s.last());
    }
}

/// Replacing one item trades its term for the new item's term.
pub proof fn lemma_sum_by_update<A>(s: Seq<A>, i: int, x: A, f: spec_fn(A) -> nat)
    requires
        0 <= i < s.len(),
    ensures
        sum_by(s.update(i, x), f) + f(s[i]) == sum_by(s, f) + f(x),
{
    lemma_sum_by_remove(s, i, f);
    lemma_sum_by_remove(s.update(i, x), i, f);
    assert(s.update(i, x).remove(i) =~= s.remove(i));
}

/// Two sequences with the same items, each as often in one as in the other,
/// have the same sum.
pub proof fn lemma_sum_by_permutation<A>(a: Seq<A>, b: Seq<A>, f: spec_fn(A) -> nat)
    requires
        a.to_multiset() == b.to_multiset(),
    ensures
        sum_by(a, f) == sum_by(b, f),
    decreases a.len(),
{
    to_multiset_len(a);
    to_multiset_len(b);
    if a.len() > 0 {
        let x = a.last();
        let rest = a.drop_last();
        assert(rest.push(x) =~= a);
        to_multiset_build(rest, x);
        to_multiset_contains(a, x);
        to_multiset_contains(b, x);
        assert(a.contains(x));
        let i = choose|i: int| 0 <= i < b.len() && b[i] == x;
        to_multiset_remove(b, i);
        assert(rest.to_multiset() =~= a.to_multiset().remove(x));
        lemma_sum_by_permutation(rest, b.remove(i), f);
        lemma_sum_by_remove(b, i, f);
    }
}

/// The function that gives the sum of `f` over a unit.
pub open spec fn unit_sums<A>(f: spec_fn(A) -> nat) -> spec_fn(Seq<A>) -> nat {
    |unit: Seq<A>| sum_by(unit, f)
}

/// The sum over a concatenation of units is the sum of the units' sums.
pub proof fn lemma_sum_by_flatten<A>(units: Seq<Seq<A>>, f: spec_fn(A) -> nat)
    ensures
        sum_by(units.flatten(), f) == sum_by(units, unit_sums(f)),
    decreases units.len(),
{
    if units.len() == 0 {
        assert(units.flatten() =~= Seq::<A>::empty());
    } else {
        let front = units.drop_last();
        lemma_sum_by_flatten(front, f);
        front.lemma_flatten_push(units.last());
        assert(front.push(units.last()) =~= units);
        lemma_sum_by_concat(front.flatten(), units.last(), f);
    }
}

} // verus!
