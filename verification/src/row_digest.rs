//! The order-independent digest of a table's rows.
//!
//! Every row is hashed twice, once unkeyed and once under a fixed
//! domain-separation key. The leading 128 bits of the two hashes are added
//! into two running sums modulo 2^128, and the rows are counted. The digest of
//! the table is the hash of the two sums and the count. Addition does not
//! care about order, so neither does the digest.

use vstd::prelude::*;
use vstd::arithmetic::div_mod::{lemma_add_mod_noop, lemma_add_mod_noop_right, lemma_small_mod};
use crate::encoding::{
    be_bytes, be_value, hex_string, leading_u128, lemma_be_bytes_injective, lemma_be_bytes_len,
    lemma_pow256_16, lower_hex, to_be_bytes, two_pow_128,
};
use crate::hashing::{
    blake3_output, hasher_finalize, hasher_input, hasher_new, hasher_new_keyed, hasher_update,
};
use crate::sums::{lemma_sum_by_permutation, lemma_sum_by_push, lemma_sum_by_update, sum_by};

verus! {

/// The domain-separation key of the second row hash: the four ASCII bytes
/// `vkar`, then 28 zero bytes. It is not a secret.
pub open spec fn domain_key() -> Seq<u8> {
    seq![118u8, 107u8, 97u8, 114u8] + Seq::new(28, |i: int| 0u8)
}

/// The first term of a row: the leading 128 bits of its unkeyed hash.
pub open spec fn row_h1(row: Seq<u8>) -> nat {
    be_value(blake3_output(None, row).take(16))
}

/// The second term of a row: the leading 128 bits of its hash under the
/// domain-separation key.
pub open spec fn row_h2(row: Seq<u8>) -> nat {
    be_value(blake3_output(Some(domain_key()), row).take(16))
}

pub open spec fn h1_fn() -> spec_fn(Seq<u8>) -> nat {
    |row: Seq<u8>| row_h1(row)
}

pub open spec fn h2_fn() -> spec_fn(Seq<u8>) -> nat {
    |row: Seq<u8>| row_h2(row)
}

/// The first running sum after these rows.
pub open spec fn sum1_of(rows: Seq<Seq<u8>>) -> nat {
    sum_by(rows, h1_fn()) % two_pow_128()
}

/// The second running sum after these rows.
pub open spec fn sum2_of(rows: Seq<Seq<u8>>) -> nat {
    sum_by(rows, h2_fn()) % two_pow_128()
}

/// What is hashed at the end: both sums as 16 bytes each and the row count as
/// 8 bytes, all big-endian.
pub open spec fn digest_preimage(sum1: nat, sum2: nat, row_count: nat) -> Seq<u8> {
    be_bytes(sum1, 16) + be_bytes(sum2, 16) + be_bytes(row_count, 8)
}

/// The digest, as 64 hexadecimal digits, for two sums and a row count.
pub open spec fn digest_of(sum1: nat, sum2: nat, row_count: nat) -> Seq<char> {
    lower_hex(blake3_output(None, digest_preimage(sum1, sum2, row_count)))
}

/// The digest of a table whose rows have these encodings.
pub open spec fn rows_digest(rows: Seq<Seq<u8>>) -> Seq<char> {
    digest_of(sum1_of(rows), sum2_of(rows), rows.len())
}

/// The digest does not depend on the order of the rows: two tables that hold
/// the same rows, each as often in one as in the other, have the same digest.
pub proof fn lemma_digest_ignores_row_order(a: Seq<Seq<u8>>, b: Seq<Seq<u8>>)
    requires
        a.to_multiset() == b.to_multiset(),
    ensures
        sum1_of(a) == sum1_of(b),
        sum2_of(a) == sum2_of(b),
        a.len() == b.len(),
        rows_digest(a) == rows_digest(b),
{
    lemma_sum_by_permutation(a, b, h1_fn());
    lemma_sum_by_permutation(a, b, h2_fn());
    vstd::seq_lib::to_multiset_len(a);
    vstd::seq_lib::to_multiset_len(b);
}

/// The table without rows has both sums and the count at zero, and so one
/// fixed digest: the hash of 40 zero bytes.
pub proof fn lemma_empty_table_digest()
    ensures
        sum1_of(Seq::<Seq<u8>>::empty()) == 0,
        sum2_of(Seq::<Seq<u8>>::empty()) == 0,
        rows_digest(Seq::<Seq<u8>>::empty()) == digest_of(0, 0, 0),
        digest_preimage(0, 0, 0) == Seq::new(40, |i: int| 0u8),
        rows_digest(Seq::<Seq<u8>>::empty()) == lower_hex(
            blake3_output(None, Seq::new(40, |i: int| 0u8)),
        ),
{
    reveal_with_fuel(be_bytes, 17);
    assert(digest_preimage(0, 0, 0) =~= Seq::new(40, |i: int| 0u8));
}

/// What is hashed at the end gives away the state: two states that fit
/// their fields and have the same 40 bytes are the same state.
pub proof fn lemma_preimage_injective(a: (nat, nat, nat), b: (nat, nat, nat))
    requires
        a.0 < two_pow_128(),
        a.1 < two_pow_128(),
        a.2 <= u64::MAX,
        b.0 < two_pow_128(),
        b.1 < two_pow_128(),
        b.2 <= u64::MAX,
        digest_preimage(a.0, a.1, a.2) == digest_preimage(b.0, b.1, b.2),
    ensures
        a == b,
{
    let pa = digest_preimage(a.0, a.1, a.2);
    let pb = digest_preimage(b.0, b.1, b.2);
    lemma_be_bytes_len(a.0, 16);
    lemma_be_bytes_len(a.1, 16);
    lemma_be_bytes_len(a.2, 8);
    lemma_be_bytes_len(b.0, 16);
    lemma_be_bytes_len(b.1, 16);
    lemma_be_bytes_len(b.2, 8);
    assert(pa.subrange(0, 16) =~= be_bytes(a.0, 16));
    assert(pb.subrange(0, 16) =~= be_bytes(b.0, 16));
    assert(pa.subrange(16, 32) =~= be_bytes(a.1, 16));
    assert(pb.subrange(16, 32) =~= be_bytes(b.1, 16));
    assert(pa.subrange(32, 40) =~= be_bytes(a.2, 8));
    assert(pb.subrange(32, 40) =~= be_bytes(b.2, 8));
    lemma_pow256_16();
    lemma_be_bytes_injective(a.0, b.0, 16);
    lemma_be_bytes_injective(a.1, b.1, 16);
    lemma_be_bytes_injective(a.2, b.2, 8);
}

/// Replacing one row leaves a running sum as it was exactly when the new row
/// has the same term, modulo 2^128, as the row it replaces. So a change to
/// one row goes unseen by the sums only if both of its hashes collide.
pub proof fn lemma_row_replacement(rows: Seq<Seq<u8>>, i: int, row: Seq<u8>)
    requires
        0 <= i < rows.len(),
    ensures
        sum1_of(rows.update(i, row)) == sum1_of(rows) <==> row_h1(row) % two_pow_128() == row_h1(
            rows[i],
        ) % two_pow_128(),
        sum2_of(rows.update(i, row)) == sum2_of(rows) <==> row_h2(row) % two_pow_128() == row_h2(
            rows[i],
        ) % two_pow_128(),
        rows.update(i, row).len() == rows.len(),
{
    lemma_sum_by_update(rows, i, row, h1_fn());
    lemma_sum_by_update(rows, i, row, h2_fn());
    lemma_swap_mod(
        sum_by(rows.update(i, row), h1_fn()),
        h1_fn()(rows[i]),
        sum_by(rows, h1_fn()),
        h1_fn()(row),
        two_pow_128(),
    );
    lemma_swap_mod(
        sum_by(rows.update(i, row), h2_fn()),
        h2_fn()(rows[i]),
        sum_by(rows, h2_fn()),
        h2_fn()(row),
        two_pow_128(),
    );
}

proof fn lemma_swap_mod(t1: nat, a: nat, t2: nat, b: nat, m: nat)
    requires
        m > 0,
        t1 + a == t2 + b,
    ensures
        t1 % m == t2 % m <==> a % m == b % m,
{
    lemma_add_mod_noop(t1 as int, a as int, m as int);
    lemma_add_mod_noop(t2 as int, b as int, m as int);
    let x1 = (t1 % m) as int;
    let x2 = (t2 % m) as int;
    let y1 = (a % m) as int;
    let y2 = (b % m) as int;
    assert((x1 + y1) % (m as int) == (x2 + y2) % (m as int));
    if x1 == x2 {
        lemma_cancel_mod(x1, y1, y2, m as int);
    }
    if y1 == y2 {
        lemma_cancel_mod(y1, x1, x2, m as int);
    }
}

proof fn lemma_cancel_mod(x: int, y1: int, y2: int, m: int)
    requires
        m > 0,
        0 <= x < m,
        0 <= y1 < m,
        0 <= y2 < m,
        (x + y1) % m == (x + y2) % m,
    ensures
        y1 == y2,
{
    let s1 = x + y1;
    let s2 = x + y2;
    assert(s1 % m == if s1 < m { s1 } else { s1 - m }) by {
        if s1 < m {
            lemma_small_mod(s1 as nat, m as nat);
        } else {
            lemma_small_mod((s1 - m) as nat, m as nat);
            vstd::arithmetic::div_mod::lemma_mod_sub_multiples_vanish(s1, m);
        }
    }
    assert(s2 % m == if s2 < m { s2 } else { s2 - m }) by {
        if s2 < m {
            lemma_small_mod(s2 as nat, m as nat);
        } else {
            lemma_small_mod((s2 - m) as nat, m as nat);
            vstd::arithmetic::div_mod::lemma_mod_sub_multiples_vanish(s2, m);
        }
    }
}

/// The domain-separation key as the hasher takes it.
pub fn domain_key_bytes() -> (key: [u8; 32])
    ensures
        key@ == domain_key(),
{
    let mut key: [u8; 32] = [0u8; 32];
    key[0] = 118;
    key[1] = 107;
    key[2] = 97;
    key[3] = 114;
    assert(key@ =~= domain_key());
    key
}

/// Both terms of one row, from its canonical encoding.
pub fn row_hash_pair(encoding: &[u8]) -> (pair: (u128, u128))
    ensures
        pair.0 as nat == row_h1(encoding@),
        pair.1 as nat == row_h2(encoding@),
{
    let mut plain = hasher_new();
    hasher_update(&mut plain, encoding);
    let d1 = hasher_finalize(&plain);
    let key = domain_key_bytes();
    let mut keyed = hasher_new_keyed(&key);
    hasher_update(&mut keyed, encoding);
    let d2 = hasher_finalize(&keyed);
    assert(hasher_input(plain) =~= encoding@);
    assert(hasher_input(keyed) =~= encoding@);
    (leading_u128(&d1), leading_u128(&d2))
}

/// The running state of one table's scan: two sums modulo 2^128 and the
/// number of rows folded in.
#[derive(Clone, Copy, Debug)]
pub struct RunningAccumulator {
    pub sum1: u128,
    pub sum2: u128,
    pub row_count: u64,
}

impl RunningAccumulator {
    /// Whether this is the state reached by folding in exactly `rows`, in any order.
    pub open spec fn summarizes(self, rows: Seq<Seq<u8>>) -> bool {
        &&& self.sum1 as nat == sum1_of(rows)
        &&& self.sum2 as nat == sum2_of(rows)
        &&& self.row_count as nat == rows.len()
    }

    /// The digest that this state stands for.
    pub open spec fn digest_spec(self) -> Seq<char> {
        digest_of(self.sum1 as nat, self.sum2 as nat, self.row_count as nat)
    }

    /// The state before any row: both sums and the count at zero.
    pub fn new() -> (acc: Self)
        ensures
            acc.sum1 == 0,
            acc.sum2 == 0,
            acc.row_count == 0,
            acc.summarizes(Seq::empty()),
    {
        proof {
            lemma_empty_table_digest();
        }
        RunningAccumulator { sum1: 0, sum2: 0, row_count: 0 }
    }

    /// Folds in one row's pair of terms: each sum takes its term modulo
    /// 2^128, and the count goes up by one.
    pub fn fold(&mut self, h1: u128, h2: u128)
        requires
            old(self).row_count < u64::MAX,
        ensures
            final(self).sum1 as nat == (old(self).sum1 as nat + h1 as nat) % two_pow_128(),
            final(self).sum2 as nat == (old(self).sum2 as nat + h2 as nat) % two_pow_128(),
            final(self).row_count == old(self).row_count + 1,
    {
        self.sum1 = self.sum1.wrapping_add(h1);
        self.sum2 = self.sum2.wrapping_add(h2);
        self.row_count = self.row_count + 1;
    }

    /// Hashes one row's encoding and folds it in.
    pub fn fold_row(&mut self, encoding: &[u8])
        requires
            old(self).row_count < u64::MAX,
        ensures
            final(self).sum1 as nat == (old(self).sum1 as nat + row_h1(encoding@)) % two_pow_128(),
            final(self).sum2 as nat == (old(self).sum2 as nat + row_h2(encoding@)) % two_pow_128(),
            final(self).row_count == old(self).row_count + 1,
            forall|rows: Seq<Seq<u8>>| #[trigger]
                old(self).summarizes(rows) ==> final(self).summarizes(rows.push(encoding@)),
    {
        let pair = row_hash_pair(encoding);
        self.fold(pair.0, pair.1);
        proof {
            assert forall|rows: Seq<Seq<u8>>| #[trigger]
                old(self).summarizes(rows) implies self.summarizes(rows.push(encoding@)) by {
                lemma_fold_step(rows, encoding@);
            }
        }
    }

    /// The 40 bytes that are hashed for the digest.
    pub fn preimage(&self) -> (bytes: Vec<u8>)
        ensures
            bytes@ == digest_preimage(
                self.sum1 as nat,
                self.sum2 as nat,
                self.row_count as nat,
            ),
    {
        let mut bytes = to_be_bytes(self.sum1, 16);
        let mut second = to_be_bytes(self.sum2, 16);
        let mut third = to_be_bytes(self.row_count as u128, 8);
        bytes.append(&mut second);
        bytes.append(&mut third);
        bytes
    }

    /// The digest of the table as 64 lowercase hexadecimal digits.
    pub fn digest(&self) -> (s: String)
        ensures
            s@ == self.digest_spec(),
            forall|rows: Seq<Seq<u8>>| #[trigger] self.summarizes(rows) ==> s@ == rows_digest(rows),
    {
        let s1 = to_be_bytes(self.sum1, 16);
        let s2 = to_be_bytes(self.sum2, 16);
        let n = to_be_bytes(self.row_count as u128, 8);
        let mut hasher = hasher_new();
        hasher_update(&mut hasher, s1.as_slice());
        hasher_update(&mut hasher, s2.as_slice());
        hasher_update(&mut hasher, n.as_slice());
        assert(hasher_input(hasher) =~= digest_preimage(
            self.sum1 as nat,
            self.sum2 as nat,
            self.row_count as nat,
        ));
        let out = hasher_finalize(&hasher);
        hex_string(out.as_slice())
    }
}

/// One more row moves each sum by that row's term.
pub proof fn lemma_fold_step(rows: Seq<Seq<u8>>, row: Seq<u8>)
    ensures
        sum1_of(rows.push(row)) == (sum1_of(rows) + row_h1(row)) % two_pow_128(),
        sum2_of(rows.push(row)) == (sum2_of(rows) + row_h2(row)) % two_pow_128(),
{
    let m = two_pow_128() as int;
    lemma_sum_by_push(rows, row, h1_fn());
    lemma_sum_by_push(rows, row, h2_fn());
    lemma_add_mod_noop_right(row_h1(row) as int, sum_by(rows, h1_fn()) as int, m);
    lemma_add_mod_noop_right(row_h2(row) as int, sum_by(rows, h2_fn()) as int, m);
}

/// One row as the source handed it over.
#[derive(Clone, Debug)]
pub enum FetchedRow {
    /// The row's value was null: it is passed over in silence.
    Null,
    /// The row's payload could not be decoded: it is passed over and counted.
    Undecodable,
    /// The canonical encoding of the row.
    Encoded(Vec<u8>),
}

/// The encodings of the rows of a batch that take part in the digest, in
/// batch order.
pub open spec fn decoded_rows(batch: Seq<FetchedRow>) -> Seq<Seq<u8>>
    decreases batch.len(),
{
    if batch.len() == 0 {
        Seq::empty()
    } else {
        let head = decoded_rows(batch.drop_last());
        match batch.last() {
            FetchedRow::Encoded(bytes) => head.push(bytes@),
            _ => head,
        }
    }
}

/// How many rows of a batch could not be decoded.
pub open spec fn undecodable_rows(batch: Seq<FetchedRow>) -> nat
    decreases batch.len(),
{
    if batch.len() == 0 {
        0
    } else {
        undecodable_rows(batch.drop_last()) + if batch.last() is Undecodable {
            1nat
        } else {
            0nat
        }
    }
}

pub proof fn lemma_decoded_rows_bounds(batch: Seq<FetchedRow>)
    ensures
        decoded_rows(batch).len() + undecodable_rows(batch) <= batch.len(),
    decreases batch.len(),
{
    if batch.len() > 0 {
        lemma_decoded_rows_bounds(batch.drop_last());
    }
}

/// What two batches give one after the other, one batch of both gives too.
pub proof fn lemma_decoded_rows_concat(a: Seq<FetchedRow>, b: Seq<FetchedRow>)
    ensures
        decoded_rows(a + b) == decoded_rows(a) + decoded_rows(b),
        undecodable_rows(a + b) == undecodable_rows(a) + undecodable_rows(b),
    decreases b.len(),
{
    if b.len() == 0 {
        assert(a + b =~= a);
        assert(decoded_rows(a) + decoded_rows(b) =~= decoded_rows(a));
    } else {
        lemma_decoded_rows_concat(a, b.drop_last());
        assert((a + b).drop_last() =~= a + b.drop_last());
        assert((a + b).last() == b.last());
        assert(decoded_rows(a + b) =~= decoded_rows(a) + decoded_rows(b));
    }
}

/// The commutative digest engine: it takes the rows of one table, one by one
/// or in batches, and gives the table's digest.
pub struct CommutativeRowDigest {
    acc: RunningAccumulator,
    rows: Ghost<Seq<Seq<u8>>>,
}

impl View for CommutativeRowDigest {
    type V = Seq<Seq<u8>>;

    /// The encodings of the rows taken so far, in the order they came.
    closed spec fn view(&self) -> Seq<Seq<u8>> {
        self.rows@
    }
}

impl CommutativeRowDigest {
    /// The running state stands for exactly the rows taken so far.
    pub closed spec fn wf(&self) -> bool {
        self.acc.summarizes(self.rows@)
    }

    /// The running state.
    pub closed spec fn state(&self) -> RunningAccumulator {
        self.acc
    }

    /// An engine that has taken no row.
    pub fn new() -> (engine: Self)
        ensures
            engine.wf(),
            engine@ == Seq::<Seq<u8>>::empty(),
    {
        CommutativeRowDigest { acc: RunningAccumulator::new(), rows: Ghost(Seq::empty()) }
    }

    /// The running state: the two sums and the number of rows taken.
    pub fn accumulator(&self) -> (acc: RunningAccumulator)
        requires
            self.wf(),
        ensures
            acc == self.state(),
            acc.summarizes(self@),
    {
        self.acc
    }

    /// The number of rows taken so far.
    pub fn row_count(&self) -> (n: u64)
        requires
            self.wf(),
        ensures
            n as nat == self@.len(),
    {
        self.acc.row_count
    }

    /// Takes one row by its canonical encoding.
    pub fn absorb(&mut self, encoding: &[u8])
        requires
            old(self).wf(),
            old(self)@.len() < u64::MAX,
        ensures
            final(self).wf(),
            final(self)@ == old(self)@.push(encoding@),
    {
        self.acc.fold_row(encoding);
        self.rows = Ghost(self.rows@.push(encoding@));
    }

    /// Takes a batch of rows as fetched. Rows that are null or could not be
    /// decoded are passed over; the result says how many could not be decoded.
    pub fn absorb_batch(&mut self, batch: &Vec<FetchedRow>) -> (undecodable: usize)
        requires
            old(self).wf(),
            old(self)@.len() + batch@.len() <= u64::MAX,
        ensures
            final(self).wf(),
            final(self)@ == old(self)@ + decoded_rows(batch@),
            undecodable as nat == undecodable_rows(batch@),
    {
        let mut undecodable: usize = 0;
        let mut i: usize = 0;
        assert(self@ + decoded_rows(batch@.take(0)) =~= self@);
        while i < batch.len()
            invariant
                i <= batch.len(),
                self.wf(),
                old(self)@.len() + batch@.len() <= u64::MAX,
                self@ == old(self)@ + decoded_rows(batch@.take(i as int)),
                undecodable as nat == undecodable_rows(batch@.take(i as int)),
            decreases batch.len() - i,
        {
            proof {
                assert(batch@.take(i + 1).drop_last() =~= batch@.take(i as int));
                assert(batch@.take(i + 1).last() == batch@[i as int]);
                lemma_decoded_rows_bounds(batch@.take(i as int));
            }
            match &batch[i] {
                FetchedRow::Null => {},
                FetchedRow::Undecodable => {
                    undecodable = undecodable + 1;
                },
                FetchedRow::Encoded(bytes) => {
                    self.absorb(bytes.as_slice());
                    assert(self@ =~= old(self)@ + decoded_rows(batch@.take(i + 1)));
                },
            }
            i += 1;
        }
        assert(batch@.take(batch.len() as int) =~= batch@);
        undecodable
    }

    /// The digest of the rows taken so far, as 64 lowercase hexadecimal digits.
    pub fn finish(&self) -> (digest: String)
        requires
            self.wf(),
        ensures
            digest@ == rows_digest(self@),
    {
        self.acc.digest()
    }
}

/// The encodings held by a vector of rows, in order.
pub open spec fn encodings(rows: Seq<Vec<u8>>) -> Seq<Seq<u8>> {
    Seq::new(rows.len(), |i: int| rows[i]@)
}

/// The digest of a table given by the encodings of all its rows.
pub fn digest_rows(rows: &Vec<Vec<u8>>) -> (digest: String)
    ensures
        digest@ == rows_digest(encodings(rows@)),
{
    let mut engine = CommutativeRowDigest::new();
    let mut i: usize = 0;
    assert(encodings(rows@).take(0) =~= Seq::<Seq<u8>>::empty());
    while i < rows.len()
        invariant
            i <= rows.len(),
            engine.wf(),
            engine@ == encodings(rows@).take(i as int),
        decreases rows.len() - i,
    {
        engine.absorb(rows[i].as_slice());
        assert(encodings(rows@).take(i + 1) =~= encodings(rows@).take(i as int).push(
            rows[i as int]@,
        ));
        i += 1;
    }
    assert(encodings(rows@).take(rows.len() as int) =~= encodings(rows@));
    engine.finish()
}

} // verus!
