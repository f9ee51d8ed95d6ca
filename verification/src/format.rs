//! Numbers for people: decimal text, fixed-point text with rounding, byte
//! counts in binary units, durations and percentages.
//!
//! Durations are whole nanoseconds. Rounding is to the nearest value, and
//! where two are equally near, to the one whose last digit is even.

use vstd::prelude::*;
use vstd::string::StringExecFns;
use crate::text::push_char;

verus! {

/// Bytes in a KB.
pub const KB: u64 = 1024;

/// Bytes in a MB.
pub const MB: u64 = 1048576;

/// Bytes in a GB.
pub const GB: u64 = 1073741824;

/// Nanoseconds in a millisecond.
pub const NANOS_PER_MILLI: u64 = 1000000;

/// Nanoseconds in a second.
pub const NANOS_PER_SEC: u64 = 1000000000;

/// Nanoseconds in a minute.
pub const NANOS_PER_MIN: u64 = 60000000000;

/// The character of a decimal digit.
pub open spec fn digit_char(d: nat) -> char {
    ((48 + d) as u8) as char
}

/// A number in decimal, without sign or leading zeros.
pub open spec fn decimal(n: nat) -> Seq<char>
    decreases n,
{
    if n < 10 {
        seq![digit_char(n)]
    } else {
        decimal(n / 10).push(digit_char(n % 10))
    }
}

/// `num / den` rounded to the nearest whole number, a tie going to the even one.
pub open spec fn round_half_even(num: nat, den: nat) -> nat {
    let q = num / den;
    let r = num % den;
    if 2 * r > den || (2 * r == den && q % 2 == 1) {
        q + 1
    } else {
        q
    }
}

/// A number of tenths as text with one digit behind the point.
pub open spec fn fixed1(tenths: nat) -> Seq<char> {
    decimal(tenths / 10).push('.').push(digit_char(tenths % 10))
}

/// A number of hundredths as text with two digits behind the point.
pub open spec fn fixed2(hundredths: nat) -> Seq<char> {
    decimal(hundredths / 100).push('.').push(digit_char(hundredths / 10 % 10)).push(
        digit_char(hundredths % 10),
    )
}

/// A byte count in the largest of KB, MB and GB that it reaches, with two
/// digits behind the point. Counts below one KB are given in KB too.
pub open spec fn pretty_bytes_spec(b: nat) -> Seq<char> {
    if b >= GB {
        fixed2(round_half_even(b * 100, GB as nat)) + " GB"@
    } else if b >= MB {
        fixed2(round_half_even(b * 100, MB as nat)) + " MB"@
    } else {
        fixed2(round_half_even(b * 100, KB as nat)) + " KB"@
    }
}

/// A duration: whole milliseconds below one second, seconds with two digits
/// behind the point below one minute, else whole minutes and whole seconds.
pub open spec fn pretty_time_spec(nanos: nat) -> Seq<char> {
    if nanos < NANOS_PER_SEC {
        decimal(round_half_even(nanos, NANOS_PER_MILLI as nat)) + "ms"@
    } else if nanos < NANOS_PER_MIN {
        fixed2(round_half_even(nanos, 10000000)).push('s')
    } else {
        (decimal(nanos / (NANOS_PER_MIN as nat)).push('m') + decimal(
            round_half_even(nanos % (NANOS_PER_MIN as nat), NANOS_PER_SEC as nat),
        )).push('s')
    }
}

/// The share of `part` in `whole` as a percentage with two digits behind
/// the point, without the percent sign; `0.00` where `whole` is zero.
pub open spec fn percent_spec(part: nat, whole: nat) -> Seq<char> {
    if whole == 0 {
        fixed2(0)
    } else {
        fixed2(round_half_even(part * 10000, whole))
    }
}

/// Whole units per second for an amount and the time it took, cut off
/// towards zero and held at the largest `u64`; zero where no time passed.
pub open spec fn rate_spec(amount: nat, nanos: nat) -> nat {
    if nanos == 0 {
        0
    } else if amount * (NANOS_PER_SEC as nat) / nanos > u64::MAX {
        u64::MAX as nat
    } else {
        amount * (NANOS_PER_SEC as nat) / nanos
    }
}

/// The digits of a number given least significant first, as text.
spec fn reversed_digits(digits: Seq<u8>) -> Seq<char> {
    Seq::new(digits.len(), |i: int| digit_char(digits[digits.len() - 1 - i] as nat))
}

/// `num / den`, rounded to the nearest whole number, a tie going to the even one.
pub fn round_div(num: u128, den: u128) -> (q: u128)
    requires
        den > 0,
    ensures
        q as nat == round_half_even(num as nat, den as nat),
{
    let q: u128 = num / den;
    let r: u128 = num % den;
    let rest: u128 = den - r;
    if r > rest || (r == rest && q % 2 == 1) {
        proof {
            vstd::arithmetic::div_mod::lemma_fundamental_div_mod(num as int, den as int);
        }
        assert(q < u128::MAX) by (nonlinear_arith)
            requires
                q == num / den,
                r == num % den,
                r > 0,
                den > 0,
                num <= u128::MAX,
                num == den * (num / den) + num % den,
                r < den,
        ;
        q + 1
    } else {
        q
    }
}

/// Appends a number in decimal.
pub fn push_decimal(s: &mut String, n: u128)
    ensures
        final(s)@ == old(s)@ + decimal(n as nat),
{
    let mut digits: Vec<u8> = Vec::new();
    let mut rem: u128 = n;
    assert(decimal(n as nat) =~= decimal(rem as nat) + reversed_digits(digits@));
    while rem >= 10
        invariant
            decimal(n as nat) == decimal(rem as nat) + reversed_digits(digits@),
            forall|i: int| 0 <= i < digits@.len() ==> digits@[i] < 10,
        decreases rem,
    {
        let d: u8 = (rem % 10) as u8;
        let ghost before = digits@;
        digits.push(d);
        proof {
            assert(reversed_digits(digits@) =~= seq![digit_char(d as nat)] + reversed_digits(
                before,
            ));
            assert(decimal(rem as nat) == decimal((rem / 10) as nat).push(digit_char(d as nat)));
            assert(decimal((rem / 10) as nat) + reversed_digits(digits@) =~= decimal(rem as nat)
                + reversed_digits(before));
        }
        rem = rem / 10;
    }
    push_char(s, (48 + rem as u8) as char);
    let mut j: usize = 0;
    while j < digits.len()
        invariant
            j <= digits.len(),
            rem < 10,
            forall|i: int| 0 <= i < digits@.len() ==> digits@[i] < 10,
            s@ == old(s)@ + decimal(rem as nat) + reversed_digits(digits@).take(j as int),
        decreases digits.len() - j,
    {
        let d: u8 = digits[digits.len() - 1 - j];
        push_char(s, (48 + d) as char);
        assert(reversed_digits(digits@).take(j + 1) =~= reversed_digits(digits@).take(
            j as int,
        ).push(digit_char(d as nat)));
        j += 1;
    }
    assert(reversed_digits(digits@).take(digits.len() as int) =~= reversed_digits(digits@));
    assert(old(s)@ + decimal(rem as nat) + reversed_digits(digits@) =~= old(s)@ + (decimal(
        rem as nat,
    ) + reversed_digits(digits@)));
}

/// Appends a number of tenths with one digit behind the point.
pub fn push_fixed1(s: &mut String, tenths: u128)
    ensures
        final(s)@ == old(s)@ + fixed1(tenths as nat),
{
    push_decimal(s, tenths / 10);
    push_char(s, '.');
    push_char(s, (48 + (tenths % 10) as u8) as char);
    assert(s@ =~= old(s)@ + fixed1(tenths as nat));
}

/// Appends a number of hundredths with two digits behind the point.
pub fn push_fixed2(s: &mut String, hundredths: u128)
    ensures
        final(s)@ == old(s)@ + fixed2(hundredths as nat),
{
    push_decimal(s, hundredths / 100);
    push_char(s, '.');
    push_char(s, (48 + (hundredths / 10 % 10) as u8) as char);
    push_char(s, (48 + (hundredths % 10) as u8) as char);
    assert(s@ =~= old(s)@ + fixed2(hundredths as nat));
}

/// A number in decimal.
pub fn decimal_string(n: u64) -> (s: String)
    ensures
        s@ == decimal(n as nat),
{
    let mut s = String::new();
    push_decimal(&mut s, n as u128);
    assert(s@ =~= decimal(n as nat));
    s
}

/// A byte count for people: `1536` is `1.50 KB`.
pub fn pretty_bytes(b: u64) -> (s: String)
    ensures
        s@ == pretty_bytes_spec(b as nat),
{
    let mut s = String::new();
    let scaled: u128 = b as u128 * 100;
    if b >= GB {
        push_fixed2(&mut s, round_div(scaled, GB as u128));
        s.append(" GB");
    } else if b >= MB {
        push_fixed2(&mut s, round_div(scaled, MB as u128));
        s.append(" MB");
    } else {
        push_fixed2(&mut s, round_div(scaled, KB as u128));
        s.append(" KB");
    }
    assert(s@ =~= pretty_bytes_spec(b as nat));
    s
}

/// A duration in nanoseconds for people: half a second is `500ms`, 125
/// seconds are `2m5s`.
pub fn pretty_time(nanos: u64) -> (s: String)
    ensures
        s@ == pretty_time_spec(nanos as nat),
{
    let mut s = String::new();
    if nanos < NANOS_PER_SEC {
        push_decimal(&mut s, round_div(nanos as u128, NANOS_PER_MILLI as u128));
        s.append("ms");
    } else if nanos < NANOS_PER_MIN {
        push_fixed2(&mut s, round_div(nanos as u128, 10000000));
        push_char(&mut s, 's');
    } else {
        push_decimal(&mut s, (nanos / NANOS_PER_MIN) as u128);
        push_char(&mut s, 'm');
        push_decimal(&mut s, round_div((nanos % NANOS_PER_MIN) as u128, NANOS_PER_SEC as u128));
        push_char(&mut s, 's');
    }
    assert(s@ =~= pretty_time_spec(nanos as nat));
    s
}

/// The share of `part` in `whole` as a percentage with two digits behind
/// the point, without the percent sign.
pub fn percent(part: u64, whole: u64) -> (s: String)
    ensures
        s@ == percent_spec(part as nat, whole as nat),
{
    let mut s = String::new();
    if whole == 0 {
        push_fixed2(&mut s, 0);
    } else {
        push_fixed2(&mut s, round_div(part as u128 * 10000, whole as u128));
    }
    assert(s@ =~= percent_spec(part as nat, whole as nat));
    s
}

/// Whole units per second for an amount and the nanoseconds it took.
pub fn rate_per_second(amount: u64, nanos: u64) -> (rate: u64)
    ensures
        rate as nat == rate_spec(amount as nat, nanos as nat),
{
    if nanos == 0 {
        0
    } else {
        let scaled: u128 = amount as u128 * 1000000000;
        let per: u128 = scaled / nanos as u128;
        if per > u64::MAX as u128 {
            u64::MAX
        } else {
            per as u64
        }
    }
}

} // verus!
