//! Big-endian integers and lowercase hexadecimal text.

use vstd::prelude::*;
use vstd::string::StringExecFns;
use crate::text::push_char;

verus! {

/// 256 to the power `n`.
pub open spec fn pow256(n: nat) -> nat
    decreases n,
{
    if n == 0 {
        1
    } else {
        256 * pow256((n - 1) as nat)
    }
}

/// 2 to the power 128, the modulus of the running sums.
pub open spec fn two_pow_128() -> nat {
    0x1_0000_0000_0000_0000_0000_0000_0000_0000nat
}

/// The number that `bytes` spell in base 256, most significant byte first.
pub open spec fn be_value(bytes: Seq<u8>) -> nat
    decreases bytes.len(),
{
    if bytes.len() == 0 {
        0
    } else {
        256 * be_value(bytes.drop_last()) + bytes.last() as nat
    }
}

/// The `width` least significant base-256 digits of `v`, most significant first.
pub open spec fn be_bytes(v: nat, width: nat) -> Seq<u8>
    decreases width,
{
    if width == 0 {
        Seq::empty()
    } else {
        be_bytes(v / 256, (width - 1) as nat).push((v % 256) as u8)
    }
}

/// The lowercase hexadecimal digit for a value below 16.
pub open spec fn hex_digit(d: u8) -> char {
    if d < 10 {
        ((48 + d) as u8) as char
    } else {
        ((87 + d) as u8) as char
    }
}

/// Two lowercase hexadecimal digits per byte, in the order of the bytes.
pub open spec fn lower_hex(bytes: Seq<u8>) -> Seq<char>
    decreases bytes.len(),
{
    if bytes.len() == 0 {
        Seq::empty()
    } else {
        lower_hex(bytes.drop_last()).push(hex_digit(bytes.last() / 16)).push(
            hex_digit(bytes.last() % 16),
        )
    }
}

pub proof fn lemma_pow256_positive(n: nat)
    ensures
        pow256(n) > 0,
    decreases n,
{
    if n > 0 {
        lemma_pow256_positive((n - 1) as nat);
    }
}

pub proof fn lemma_pow256_monotone(a: nat, b: nat)
    requires
        a <= b,
    ensures
        pow256(a) <= pow256(b),
    decreases b,
{
    if a < b {
        lemma_pow256_monotone(a, (b - 1) as nat);
        lemma_pow256_positive((b - 1) as nat);
    }
}

pub proof fn lemma_pow256_16()
    ensures
        pow256(8) == 0x1_0000_0000_0000_0000nat,
        pow256(16) == two_pow_128(),
{
    reveal_with_fuel(pow256, 17);
}

/// A big-endian number of `n` digits is below 256 to the `n`.
pub proof fn lemma_be_value_bound(bytes: Seq<u8>)
    ensures
        be_value(bytes) < pow256(bytes.len()),
    decreases bytes.len(),
{
    if bytes.len() > 0 {
        lemma_be_value_bound(bytes.drop_last());
    }
}

pub proof fn lemma_be_bytes_len(v: nat, width: nat)
    ensures
        be_bytes(v, width).len() == width,
    decreases width,
{
    if width > 0 {
        lemma_be_bytes_len(v / 256, (width - 1) as nat);
    }
}

/// Reading back the `width` digits of `v` gives `v` modulo 256 to the `width`:
/// the encoding loses nothing of a number that fits.
pub proof fn lemma_be_round_trip(v: nat, width: nat)
    ensures
        be_value(be_bytes(v, width)) == v % pow256(width),
    decreases width,
{
    if width > 0 {
        let w = (width - 1) as nat;
        let head = be_bytes(v / 256, w);
        lemma_be_round_trip(v / 256, w);
        lemma_pow256_positive(w);
        assert(be_bytes(v, width).drop_last() == head);
        assert(be_bytes(v, width).last() == (v % 256) as u8);
        let p = pow256(w);
        // v == 256 * (v / 256) + v % 256, and (v / 256) == p * q + r
        assert(v % (256 * p) == 256 * ((v / 256) % p) + v % 256) by (nonlinear_arith)
            requires
                p > 0,
        ;
    }
}

/// Two numbers that fit in `width` digits and have the same digits are equal.
pub proof fn lemma_be_bytes_injective(a: nat, b: nat, width: nat)
    requires
        a < pow256(width),
        b < pow256(width),
        be_bytes(a, width) == be_bytes(b, width),
    ensures
        a == b,
{
    lemma_be_round_trip(a, width);
    lemma_be_round_trip(b, width);
    vstd::arithmetic::div_mod::lemma_small_mod(a, pow256(width));
    vstd::arithmetic::div_mod::lemma_small_mod(b, pow256(width));
}

/// Peeling the most significant digit off the front instead of the least
/// significant off the back.
pub proof fn lemma_be_bytes_front(v: nat, width: nat)
    ensures
        be_bytes(v, width + 1) == seq![((v / pow256(width)) % 256) as u8] + be_bytes(v, width),
    decreases width,
{
    if width == 0 {
        reveal_with_fuel(be_bytes, 2);
        assert(pow256(0) == 1);
        assert(be_bytes(v, 1) =~= seq![((v / pow256(0)) % 256) as u8] + be_bytes(v, 0));
    } else {
        let w = (width - 1) as nat;
        lemma_be_bytes_front(v / 256, w);
        lemma_pow256_positive(w);
        let p = pow256(w);
        assert((v / 256) / p == v / (256 * p)) by (nonlinear_arith)
            requires
                p > 0,
        ;
        assert(be_bytes(v, width + 1) =~= seq![((v / pow256(width)) % 256) as u8] + be_bytes(
            v,
            width,
        ));
    }
}

/// The first 128 bits of a digest, read as a big-endian number.
pub fn leading_u128(digest: &[u8; 32]) -> (v: u128)
    ensures
        v as nat == be_value(digest@.take(16)),
{
    let mut acc: u128 = 0;
    let mut i: usize = 0;
    while i < 16
        invariant
            i <= 16,
            acc as nat == be_value(digest@.take(i as int)),
        decreases 16 - i,
    {
        let d: u8 = digest[i];
        proof {
            let prev = digest@.take(i as int);
            let cur = digest@.take(i + 1);
            assert(cur.drop_last() =~= prev);
            assert(cur.last() == d);
            lemma_be_value_bound(prev);
            lemma_pow256_monotone((i + 1) as nat, 16);
            lemma_pow256_16();
        }
        acc = acc * 256 + d as u128;
        i += 1;
    }
    acc
}

/// The `width` low base-256 digits of `v`, most significant first.
pub fn to_be_bytes(v: u128, width: usize) -> (out: Vec<u8>)
    requires
        width <= 16,
    ensures
        out@ == be_bytes(v as nat, width as nat),
{
    let mut out: Vec<u8> = Vec::new();
    let mut k: usize = 0;
    while k < width
        invariant
            k <= width,
            out@.len() == k,
        decreases width - k,
    {
        out.push(0);
        k += 1;
    }
    let mut rem: u128 = v;
    let mut i: usize = 0;
    assert(pow256(0) == 1);
    while i < width
        invariant
            i <= width,
            width <= 16,
            out@.len() == width,
            out@.subrange(width - i, width as int) == be_bytes(v as nat, i as nat),
            rem as nat == v as nat / pow256(i as nat),
        decreases width - i,
    {
        let d: u8 = (rem % 256) as u8;
        let ghost before = out@;
        out.set(width - 1 - i, d);
        proof {
            lemma_be_bytes_front(v as nat, i as nat);
            lemma_pow256_positive(i as nat);
            let p = pow256(i as nat);
            assert((v as nat / p) / 256 == v as nat / (256 * p)) by (nonlinear_arith)
                requires
                    p > 0,
            ;
            assert(out@.subrange(width - i - 1, width as int) =~= seq![d] + before.subrange(
                width - i,
                width as int,
            ));
        }
        rem = rem / 256;
        i += 1;
    }
    assert(out@ =~= out@.subrange(0, width as int));
    out
}

/// The lowercase hexadecimal digit for a value below 16.
pub fn hex_char(d: u8) -> (c: char)
    requires
        d < 16,
    ensures
        c == hex_digit(d),
{
    if d < 10 {
        (48 + d) as char
    } else {
        (87 + d) as char
    }
}

/// Lowercase hexadecimal text for `bytes`, two digits per byte.
pub fn hex_string(bytes: &[u8]) -> (s: String)
    ensures
        s@ == lower_hex(bytes@),
{
    let mut s = String::from_str("");
    proof {
        reveal_strlit("");
    }
    assert(s@ =~= Seq::<char>::empty());
    let mut i: usize = 0;
    while i < bytes.len()
        invariant
            i <= bytes.len(),
            s@ == lower_hex(bytes@.take(i as int)),
        decreases bytes.len() - i,
    {
        let b: u8 = bytes[i];
        proof {
            assert(bytes@.take(i + 1).drop_last() =~= bytes@.take(i as int));
            assert(bytes@.take(i + 1).last() == b);
        }
        push_char(&mut s, hex_char(b / 16));
        push_char(&mut s, hex_char(b % 16));
        i += 1;
    }
    assert(bytes@.take(bytes.len() as int) =~= bytes@);
    s
}

/// A 128-bit number as 32 lowercase hexadecimal digits, most significant first.
pub fn hex16(x: u128) -> (s: String)
    ensures
        s@ == lower_hex(be_bytes(x as nat, 16)),
{
    let bytes = to_be_bytes(x, 16);
    hex_string(bytes.as_slice())
}

} // verus!
