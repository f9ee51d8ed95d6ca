//! Splitting a list of tables into work units, round-robin.
//!
//! The item at index `i` goes to unit `i mod k`. The units differ in size by
//! at most one, whatever the sizes of the tables are: the split balances the
//! number of tables, not the volume of data.

use vstd::prelude::*;
use vstd::seq_lib::{lemma_multiset_commutative, to_multiset_build, to_multiset_len};
use crate::sums::{lemma_sum_by_flatten, lemma_sum_by_permutation, sum_by, unit_sums};

verus! {

/// How many of the indices below `n` fall into unit `j` of `k`.
pub open spec fn unit_len(n: nat, k: nat, j: nat) -> nat {
    ((n + k - 1 - j) / k as int) as nat
}

/// Unit `j` of `k`: the items at the indices `j`, `j + k`, `j + 2k`, ..., in
/// list order.
pub open spec fn unit_of<T>(v: Seq<T>, k: nat, j: nat) -> Seq<T> {
    Seq::new(unit_len(v.len(), k, j), |m: int| v[m * k + j])
}

/// The `k` units of a list.
pub open spec fn round_robin<T>(v: Seq<T>, k: nat) -> Seq<Seq<T>> {
    Seq::new(k, |j: int| unit_of(v, k, j as nat))
}

proof fn lemma_div_between(x: int, k: int, q: int)
    requires
        k > 0,
        q * k <= x < (q + 1) * k,
    ensures
        x / k == q,
{
    assert((q + 1) * k == q * k + k) by (nonlinear_arith);
    vstd::arithmetic::div_mod::lemma_fundamental_div_mod_converse(x, k, q, x - q * k);
}

/// One more item at the end lengthens the unit of its index by one and
/// leaves the other units as they were.
pub proof fn lemma_unit_len_step(n: nat, k: nat, j: nat)
    requires
        k >= 1,
        j < k,
    ensures
        unit_len(n + 1, k, j) == unit_len(n, k, j) + if j == n % k {
            1nat
        } else {
            0nat
        },
        j == n % k ==> unit_len(n, k, j) == n / k,
{
    let ki = k as int;
    let q = (n / k) as int;
    let r = (n % k) as int;
    vstd::arithmetic::div_mod::lemma_fundamental_div_mod(n as int, ki);
    assert(n == ki * q + r);
    assert(ki * q == q * ki) by (nonlinear_arith);
    assert((q + 1) * ki == q * ki + ki) by (nonlinear_arith);
    assert((q + 2) * ki == q * ki + 2 * ki) by (nonlinear_arith);
    if j == r {
        lemma_div_between(n + k - 1 - j, ki, q);
        lemma_div_between(n + 1 + k - 1 - j, ki, q + 1);
    } else if j < r {
        lemma_div_between(n + k - 1 - j, ki, q + 1);
        lemma_div_between(n + 1 + k - 1 - j, ki, q + 1);
    } else {
        lemma_div_between(n + k - 1 - j, ki, q);
        lemma_div_between(n + 1 + k - 1 - j, ki, q);
    }
}

/// One more item at the end of the list goes to the end of the unit of its
/// index; the other units stay.
pub proof fn lemma_unit_of_push<T>(v: Seq<T>, x: T, k: nat, j: nat)
    requires
        k >= 1,
        j < k,
    ensures
        unit_of(v.push(x), k, j) == if j == v.len() % k {
            unit_of(v, k, j).push(x)
        } else {
            unit_of(v, k, j)
        },
{
    let n = v.len();
    lemma_unit_len_step(n, k, j);
    lemma_unit_indices(n + 1, k, j);
    lemma_unit_indices(n, k, j);
    vstd::arithmetic::div_mod::lemma_fundamental_div_mod(n as int, k as int);
    let grown = unit_of(v.push(x), k, j);
    let before = unit_of(v, k, j);
    if j == n % k {
        assert((n / k) * k == k * (n / k)) by (nonlinear_arith);
        assert forall|m: int| 0 <= m < grown.len() implies grown[m] == before.push(x)[m] by {
            if m < before.len() {
                assert(m * k + j < n);
            } else {
                assert(m == n / k);
                assert(m * k + j == n);
            }
        }
        assert(grown =~= before.push(x));
    } else {
        assert forall|m: int| 0 <= m < grown.len() implies grown[m] == before[m] by {
            assert(m * k + j < n);
        }
        assert(grown =~= before);
    }
}

/// Every position of a unit stands for an index of the list.
pub proof fn lemma_unit_indices(n: nat, k: nat, j: nat)
    requires
        k >= 1,
        j < k,
    ensures
        forall|m: int| 0 <= m < unit_len(n, k, j) ==> 0 <= #[trigger] (m * k) + j < n,
{
    let len = unit_len(n, k, j) as int;
    let top = n + k - 1 - j;
    vstd::arithmetic::div_mod::lemma_fundamental_div_mod(top, k as int);
    assert forall|m: int| 0 <= m < len implies 0 <= #[trigger] (m * k) + j < n by {
        assert(m * k <= (len - 1) * k) by (nonlinear_arith)
            requires
                0 <= m <= len - 1,
                k >= 1,
        ;
        assert(m * k >= 0) by (nonlinear_arith)
            requires
                0 <= m,
                k >= 1,
        ;
        assert((len - 1) * k == k * len - k) by (nonlinear_arith);
    }
}

/// The item at index `i` is found in unit `i mod k`, at position `i / k`.
pub proof fn lemma_item_position<T>(v: Seq<T>, k: nat, i: int)
    requires
        k >= 1,
        0 <= i < v.len(),
    ensures
        0 <= i % (k as int) < k,
        0 <= i / (k as int) < round_robin(v, k)[i % (k as int)].len(),
        round_robin(v, k)[i % (k as int)][i / (k as int)] == v[i],
{
    let ki = k as int;
    let q = i / ki;
    let r = i % ki;
    vstd::arithmetic::div_mod::lemma_fundamental_div_mod(i, ki);
    vstd::arithmetic::div_mod::lemma_mod_bound(i, ki);
    assert(ki * q == q * ki) by (nonlinear_arith);
    assert(q >= 0) by (nonlinear_arith)
        requires
            ki * q + r == i,
            0 <= r < ki,
            i >= 0,
            ki >= 1,
    ;
    let n = v.len() as int;
    let top = n + ki - 1 - r;
    let len = top / ki;
    vstd::arithmetic::div_mod::lemma_fundamental_div_mod(top, ki);
    vstd::arithmetic::div_mod::lemma_mod_bound(top, ki);
    assert(q < len) by (nonlinear_arith)
        requires
            top == ki * len + top % ki,
            0 <= top % ki < ki,
            q * ki + r == i,
            i < n,
            top == n + ki - 1 - r,
            ki >= 1,
    ;
    assert(unit_len(v.len(), k, r as nat) == len);
}

/// The sizes of any two units differ by at most one.
pub proof fn lemma_units_balanced(n: nat, k: nat, i: nat, j: nat)
    requires
        k >= 1,
        i < k,
        j < k,
    ensures
        unit_len(n, k, i) <= unit_len(n, k, j) + 1,
{
    let ki = k as int;
    let a = n + k - 1 - i;
    let b = n + k - 1 - j;
    vstd::arithmetic::div_mod::lemma_fundamental_div_mod(a, ki);
    vstd::arithmetic::div_mod::lemma_fundamental_div_mod(b, ki);
    vstd::arithmetic::div_mod::lemma_mod_bound(a, ki);
    vstd::arithmetic::div_mod::lemma_mod_bound(b, ki);
    let qa = a / ki;
    let qb = b / ki;
    assert(qa <= qb + 1) by (nonlinear_arith)
        requires
            a == ki * qa + a % ki,
            b == ki * qb + b % ki,
            0 <= a % ki < ki,
            0 <= b % ki < ki,
            a - b < ki,
            ki >= 1,
    ;
    assert(qa >= 0 && qb >= 0) by (nonlinear_arith)
        requires
            a == ki * qa + a % ki,
            b == ki * qb + b % ki,
            0 <= a % ki < ki,
            0 <= b % ki < ki,
            a >= 0,
            b >= 0,
            ki >= 1,
    ;
}

proof fn lemma_flatten_of_empties<T>(s: Seq<Seq<T>>)
    requires
        forall|i: int| 0 <= i < s.len() ==> (#[trigger] s[i]).len() == 0,
    ensures
        s.flatten() == Seq::<T>::empty(),
    decreases s.len(),
{
    if s.len() > 0 {
        lemma_flatten_of_empties(s.drop_first());
        assert(s.flatten() =~= Seq::<T>::empty());
    }
}

proof fn lemma_flatten_grow<T>(s: Seq<Seq<T>>, r: int, x: T)
    requires
        0 <= r < s.len(),
    ensures
        s.update(r, s[r].push(x)).flatten().to_multiset() == s.flatten().to_multiset().insert(x),
    decreases s.len(),
{
    let grown = s.update(r, s[r].push(x));
    let front = s.drop_last();
    front.lemma_flatten_push(s.last());
    assert(front.push(s.last()) =~= s);
    if r == s.len() - 1 {
        front.lemma_flatten_push(s.last().push(x));
        assert(front.push(s.last().push(x)) =~= grown);
        assert(front.flatten() + s.last().push(x) =~= (front.flatten() + s.last()).push(x));
        to_multiset_build(front.flatten() + s.last(), x);
    } else {
        let grown_front = front.update(r, front[r].push(x));
        lemma_flatten_grow(front, r, x);
        grown_front.lemma_flatten_push(s.last());
        assert(grown_front.push(s.last()) =~= grown);
        lemma_multiset_commutative(grown_front.flatten(), s.last());
        lemma_multiset_commutative(front.flatten(), s.last());
        assert(grown.flatten().to_multiset() =~= s.flatten().to_multiset().insert(x));
    }
}

/// The units, taken together, hold every item of the list exactly as often
/// as the list does: nothing is left out and nothing is there twice.
pub proof fn lemma_partition_complete<T>(v: Seq<T>, k: nat)
    requires
        k >= 1,
    ensures
        round_robin(v, k).len() == k,
        round_robin(v, k).flatten().to_multiset() == v.to_multiset(),
        round_robin(v, k).flatten().len() == v.len(),
    decreases v.len(),
{
    let parts = round_robin(v, k);
    if v.len() == 0 {
        assert forall|j: int| 0 <= j < parts.len() implies (#[trigger] parts[j]).len() == 0 by {
            lemma_div_between(k - 1 - j, k as int, 0);
        }
        lemma_flatten_of_empties(parts);
        assert(v =~= Seq::<T>::empty());
    } else {
        let rest = v.drop_last();
        let x = v.last();
        let r = (rest.len() % k) as int;
        assert(rest.push(x) =~= v);
        lemma_partition_complete(rest, k);
        let before = round_robin(rest, k);
        vstd::arithmetic::div_mod::lemma_mod_bound(rest.len() as int, k as int);
        assert forall|j: int| 0 <= j < k implies parts[j] == before.update(
            r,
            before[r].push(x),
        )[j] by {
            lemma_unit_of_push(rest, x, k, j as nat);
        }
        assert(parts =~= before.update(r, before[r].push(x)));
        lemma_flatten_grow(before, r, x);
        to_multiset_build(rest, x);
    }
    to_multiset_len(v);
    to_multiset_len(parts.flatten());
}

/// A sum over the whole list is the sum of the sums over the units: what
/// the workers add up, each over its own unit, comes to the total of the
/// list.
pub proof fn lemma_partition_preserves_sums<T>(v: Seq<T>, k: nat, f: spec_fn(T) -> nat)
    requires
        k >= 1,
    ensures
        sum_by(round_robin(v, k), unit_sums(f)) == sum_by(v, f),
{
    lemma_partition_complete(v, k);
    lemma_sum_by_permutation(round_robin(v, k).flatten(), v, f);
    lemma_sum_by_flatten(round_robin(v, k), f);
}

/// The units held by a vector of vectors, in order.
pub open spec fn unit_views<T>(parts: Seq<Vec<T>>) -> Seq<Seq<T>> {
    Seq::new(parts.len(), |j: int| parts[j]@)
}

/// Splits a list into `k` units: the item at index `i` goes to unit
/// `i mod k`, and each unit keeps the order of the list.
pub fn partition_round_robin<T>(v: Vec<T>, k: usize) -> (parts: Vec<Vec<T>>)
    requires
        k >= 1,
    ensures
        parts@.len() == k,
        forall|j: int| 0 <= j < k ==> (#[trigger] parts@[j])@ == unit_of(v@, k as nat, j as nat),
        unit_views(parts@) == round_robin(v@, k as nat),
{
    let mut parts: Vec<Vec<T>> = Vec::new();
    let mut j: usize = 0;
    while j < k
        invariant
            j <= k,
            parts@.len() == j,
            forall|u: int| 0 <= u < j ==> (#[trigger] parts@[u])@ == Seq::<T>::empty(),
        decreases k - j,
    {
        parts.push(Vec::new());
        j += 1;
    }
    proof {
        assert forall|u: int| 0 <= u < k implies (#[trigger] parts@[u])@ == unit_of(
            v@.take(0),
            k as nat,
            u as nat,
        ) by {
            lemma_div_between(k - 1 - u, k as int, 0);
            assert(unit_of(v@.take(0), k as nat, u as nat) =~= Seq::<T>::empty());
        }
    }
    let mut slot: usize = 0;
    for x in it: v
        invariant
            k >= 1,
            parts@.len() == k,
            it.seq() == v@,
            slot < k,
            slot == it.index() % (k as int),
            forall|u: int|
                0 <= u < k ==> (#[trigger] parts@[u])@ == unit_of(
                    v@.take(it.index()),
                    k as nat,
                    u as nat,
                ),
    {
        let ghost done = v@.take(it.index());
        let ghost before = parts@;
        proof {
            assert(v@.take(it.index() + 1) =~= done.push(x));
            assert forall|u: int| 0 <= u < k implies unit_of(done.push(x), k as nat, u as nat)
                == if u == slot {
                before[u]@.push(x)
            } else {
                before[u]@
            } by {
                lemma_unit_of_push(done, x, k as nat, u as nat);
            }
        }
        parts[slot].push(x);
        slot = if slot + 1 == k {
            0
        } else {
            slot + 1
        };
        proof {
            let i = it.index();
            vstd::arithmetic::div_mod::lemma_fundamental_div_mod(i, k as int);
            vstd::arithmetic::div_mod::lemma_mod_bound(i + 1, k as int);
            if i % (k as int) + 1 == k {
                let q = i / (k as int);
                assert(i + 1 == (k as int) * (q + 1)) by (nonlinear_arith)
                    requires
                        i == (k as int) * q + (k - 1),
                ;
                vstd::arithmetic::div_mod::lemma_mod_multiples_basic(q + 1, k as int);
                assert((k as int) * (q + 1) == (q + 1) * (k as int)) by (nonlinear_arith);
            } else {
                let q = i / (k as int);
                assert(q * (k as int) == (k as int) * q) by (nonlinear_arith);
                vstd::arithmetic::div_mod::lemma_fundamental_div_mod_converse(
                    i + 1,
                    k as int,
                    i / (k as int),
                    i % (k as int) + 1,
                );
            }
        }
    }
    assert(v@.take(v@.len() as int) =~= v@);
    assert(unit_views(parts@) =~= round_robin(v@, k as nat));
    parts
}

} // verus!
