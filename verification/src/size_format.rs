//! Human-readable byte sizes ("1.4 MB"), in binary units.
//!
//! A size of a kilobyte or more is shown as the binary64 value of the byte
//! count divided by the unit, to one decimal place: the byte count is first
//! rounded to 53 significant bits (to nearest, ties to even), and the quotient
//! is then rounded to tenths (to nearest, ties to even). Everything is
//! computed exactly in integers.

use vstd::prelude::*;

use crate::text::{decimal, push_decimal, push_str, string_from_chars};

verus! {

/// `2^k`.
pub open spec fn two_pow(k: nat) -> nat
    decreases k,
{
    if k == 0 {
        1
    } else {
        2 * two_pow((k - 1) as nat)
    }
}

/// The number of binary digits of `n` (0 for 0).
pub open spec fn bit_length(n: nat) -> nat
    decreases n,
{
    if n == 0 {
        0
    } else {
        1 + bit_length(n / 2)
    }
}

/// Rounds `q` units plus a remainder `r` of a `unit` to a whole number of
/// units: to nearest, ties to even.
pub open spec fn round_half_even(q: nat, r: nat, unit: nat) -> nat {
    if 2 * r > unit || (2 * r == unit && q % 2 == 1) {
        q + 1
    } else {
        q
    }
}

/// The exact value of `n` after conversion to binary64: `n` rounded to 53
/// significant bits, to nearest, ties to even.
pub open spec fn as_binary64(n: nat) -> nat {
    if bit_length(n) <= 53 {
        n
    } else {
        let unit = two_pow((bit_length(n) - 53) as nat);
        round_half_even(n / unit, n % unit, unit) * unit
    }
}

/// `v / unit` rounded to tenths, to nearest, ties to even, as a number of tenths.
pub open spec fn tenths(v: nat, unit: nat) -> nat {
    round_half_even((10 * v) / unit, (10 * v) % unit, unit)
}

/// A number of tenths written with one decimal place.
pub open spec fn one_decimal(t: nat) -> Seq<char> {
    decimal(t / 10) + seq!['.'] + decimal(t % 10)
}

/// The text `format_bytes` gives for a byte count.
pub open spec fn format_bytes_text(bytes: nat) -> Seq<char> {
    if bytes >= two_pow(40) {
        one_decimal(tenths(as_binary64(bytes), two_pow(40))) + " TB"@
    } else if bytes >= two_pow(30) {
        one_decimal(tenths(as_binary64(bytes), two_pow(30))) + " GB"@
    } else if bytes >= two_pow(20) {
        one_decimal(tenths(as_binary64(bytes), two_pow(20))) + " MB"@
    } else if bytes >= two_pow(10) {
        one_decimal(tenths(as_binary64(bytes), two_pow(10))) + " KB"@
    } else {
        decimal(bytes) + " B"@
    }
}

proof fn lemma_bit_length_bound(n: nat, k: nat)
    requires
        n < two_pow(k),
    ensures
        bit_length(n) <= k,
    decreases k,
{
    if n > 0 {
        assert(k > 0);
        lemma_bit_length_bound(n / 2, (k - 1) as nat);
    }
}

proof fn lemma_two_pow_positive(k: nat)
    ensures
        two_pow(k) >= 1,
    decreases k,
{
    if k > 0 {
        lemma_two_pow_positive((k - 1) as nat);
    }
}

proof fn lemma_two_pow_monotone(a: nat, b: nat)
    requires
        a <= b,
    ensures
        two_pow(a) <= two_pow(b),
    decreases b,
{
    if a < b {
        lemma_two_pow_monotone(a, (b - 1) as nat);
        lemma_two_pow_positive((b - 1) as nat);
    }
}

proof fn lemma_two_pow_add(a: nat, b: nat)
    ensures
        two_pow(a + b) == two_pow(a) * two_pow(b),
    decreases a,
{
    lemma_two_pow_positive(a);
    lemma_two_pow_positive(b);
    assert(two_pow(a) * two_pow(b) >= 1) by (nonlinear_arith)
        requires
            two_pow(a) >= 1,
            two_pow(b) >= 1,
    ;
    if a > 0 {
        let a1 = (a - 1) as nat;
        lemma_two_pow_add(a1, b);
        assert(two_pow(a) == 2 * two_pow(a1));
        assert(two_pow(a + b) == 2 * two_pow(a1 + b));
        let x = two_pow(a1);
        let y = two_pow(b);
        assert(2 * (x * y) == (2 * x) * y) by (nonlinear_arith);
        assert(two_pow(a + b) == two_pow(a) * two_pow(b));
    } else {
        assert(two_pow(a) == 1);
        assert(a + b == b);
        assert(two_pow(a + b) == two_pow(a) * two_pow(b));
    }
}

proof fn lemma_two_pow_values()
    ensures
        two_pow(10) == 1024,
        two_pow(20) == 1048576,
        two_pow(30) == 1073741824,
        two_pow(40) == 1099511627776,
        two_pow(11) == 2048,
        two_pow(64) == 0x1_0000_0000_0000_0000,
{
    reveal_with_fuel(two_pow, 12);
    assert(two_pow(10) == 1024);
    assert(two_pow(11) == 2048);
    lemma_two_pow_add(10, 10);
    lemma_two_pow_add(20, 10);
    lemma_two_pow_add(30, 10);
    lemma_two_pow_add(40, 20);
    assert(two_pow(60) == 1099511627776 * 1048576);
    assert(two_pow(4) == 16);
    lemma_two_pow_add(60, 4);
    assert(two_pow(64) == 1099511627776 * 1048576 * 16);
}

/// The number of binary digits of `n`.
fn bit_len(n: u64) -> (l: u64)
    ensures
        l == bit_length(n as nat),
        l <= 64,
{
    proof {
        lemma_two_pow_values();
        lemma_bit_length_bound(n as nat, 64);
    }
    let mut m = n;
    let mut l: u64 = 0;
    while m > 0
        invariant
            l + bit_length(m as nat) == bit_length(n as nat),
            bit_length(n as nat) <= 64,
        decreases m,
    {
        m = m / 2;
        l = l + 1;
    }
    l
}

/// `2^k` for small `k`.
fn pow2(k: u64) -> (p: u128)
    requires
        k <= 64,
    ensures
        p == two_pow(k as nat),
{
    proof {
        lemma_two_pow_values();
        lemma_two_pow_monotone(k as nat, 64);
    }
    let mut p: u128 = 1;
    let mut i: u64 = 0;
    while i < k
        invariant
            i <= k <= 64,
            p == two_pow(i as nat),
            two_pow(k as nat) <= 0x1_0000_0000_0000_0000,
        decreases k - i,
    {
        proof {
            lemma_two_pow_monotone((i + 1) as nat, k as nat);
        }
        p = p * 2;
        i = i + 1;
    }
    p
}

/// Rounds `q` units plus a remainder `r` to a whole number of units.
fn round_units(q: u128, r: u128, unit: u128) -> (n: u128)
    requires
        q < u128::MAX,
        r < unit,
        unit < 0x1_0000_0000_0000_0000_0000_0000_0000,
    ensures
        n == round_half_even(q as nat, r as nat, unit as nat),
{
    if 2 * r > unit || (2 * r == unit && q % 2 == 1) {
        q + 1
    } else {
        q
    }
}

/// The exact value of `n` after conversion to binary64.
fn binary64_value(n: u64) -> (v: u128)
    ensures
        v == as_binary64(n as nat),
        v <= 0x1_0000_0000_0000_0800,
{
    let l = bit_len(n);
    if l <= 53 {
        n as u128
    } else {
        let unit = pow2(l - 53);
        proof {
            lemma_two_pow_values();
            lemma_two_pow_monotone((l - 53) as nat, 11);
            lemma_two_pow_positive((l - 53) as nat);
        }
        let q = (n as u128) / unit;
        let r = (n as u128) % unit;
        let rounded = round_units(q, r, unit);
        assert(q * unit <= n as u128) by (nonlinear_arith)
            requires
                q == (n as u128) / unit,
                unit >= 1,
        ;
        assert(rounded * unit <= q * unit + unit) by (nonlinear_arith)
            requires
                rounded <= q + 1,
                unit >= 1,
        ;
        rounded * unit
    }
}

} // verus!

verus! {

/// Appends `v / unit` to one decimal place.
fn push_one_decimal(out: &mut Vec<char>, v: u128, unit: u128)
    requires
        v <= 0x1_0000_0000_0000_0800,
        1 <= unit <= 1099511627776,
    ensures
        final(out)@ == old(out)@ + one_decimal(tenths(v as nat, unit as nat)),
{
    let scaled = 10 * v;
    let q = scaled / unit;
    let r = scaled % unit;
    assert(q <= scaled) by (nonlinear_arith)
        requires
            q == scaled / unit,
            unit >= 1,
    ;
    let t = round_units(q, r, unit);
    push_decimal(out, t / 10);
    out.push('.');
    push_decimal(out, t % 10);
    assert(final(out)@ =~= old(out)@ + one_decimal(tenths(v as nat, unit as nat)));
}

/// Formats a byte count for people, in binary units: "512 B", "1.0 KB",
/// "1.4 MB", "2.3 GB", "1.5 TB".
pub fn format_bytes(bytes: u64) -> (s: String)
    ensures
        s@ == format_bytes_text(bytes as nat),
{
    proof {
        lemma_two_pow_values();
    }
    let mut out: Vec<char> = Vec::new();
    if bytes >= 1099511627776 {
        push_one_decimal(&mut out, binary64_value(bytes), 1099511627776);
        push_str(&mut out, " TB");
    } else if bytes >= 1073741824 {
        push_one_decimal(&mut out, binary64_value(bytes), 1073741824);
        push_str(&mut out, " GB");
    } else if bytes >= 1048576 {
        push_one_decimal(&mut out, binary64_value(bytes), 1048576);
        push_str(&mut out, " MB");
    } else if bytes >= 1024 {
        push_one_decimal(&mut out, binary64_value(bytes), 1024);
        push_str(&mut out, " KB");
    } else {
        push_decimal(&mut out, bytes as u128);
        push_str(&mut out, " B");
    }
    string_from_chars(&out)
}

} // verus!
