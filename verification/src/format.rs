//! Decimal rendering of integers, as Rust's formatting machinery writes them.

use vstd::prelude::*;

use crate::text::{push_all, push_str_chars};

verus! {

pub open spec fn digit_char(d: nat) -> char
    recommends
        d < 10,
{
    (('0' as u32) + d) as char
}

/// The decimal digits of `n`, most significant first, without leading zeros.
pub open spec fn decimal(n: nat) -> Seq<char>
    decreases n,
{
    if n < 10 {
        seq![digit_char(n)]
    } else {
        decimal(n / 10).push(digit_char(n % 10))
    }
}

/// `n` written with at least two digits, as `{:02}` writes a nonnegative value.
pub open spec fn two_digits(n: nat) -> Seq<char> {
    if n < 10 {
        seq!['0', digit_char(n)]
    } else {
        decimal(n)
    }
}

/// A signed value as `{:02}` writes it: the sign counts toward the width.
pub open spec fn padded_signed(n: int) -> Seq<char> {
    if n >= 0 {
        two_digits(n as nat)
    } else {
        seq!['-'] + decimal((-n) as nat)
    }
}

/// A signed value as `{}` writes it.
pub open spec fn signed_decimal(n: int) -> Seq<char> {
    if n >= 0 {
        decimal(n as nat)
    } else {
        seq!['-'] + decimal((-n) as nat)
    }
}

fn digit(d: u128) -> (c: char)
    requires
        d < 10,
    ensures
        c == digit_char(d as nat),
{
    let b: u8 = 48 + (d as u8);
    b as char
}

/// The decimal digits of `n`.
pub fn decimal_chars(n: u128) -> (out: Vec<char>)
    ensures
        out@ == decimal(n as nat),
    decreases n,
{
    if n < 10 {
        vec![digit(n)]
    } else {
        let mut out = decimal_chars(n / 10);
        out.push(digit(n % 10));
        out
    }
}

/// Appends the decimal digits of `n`.
pub fn push_decimal(out: &mut String, n: u128)
    ensures
        final(out)@ == old(out)@ + decimal(n as nat),
{
    let digits = decimal_chars(n);
    push_all(out, &digits);
}

/// Appends `n` as `{}` writes an `i64`.
pub fn push_signed(out: &mut String, n: i64)
    ensures
        final(out)@ == old(out)@ + signed_decimal(n as int),
{
    if n >= 0 {
        push_decimal(out, n as u128);
    } else {
        out.push('-');
        let magnitude: u128 = if n == i64::MIN {
            9223372036854775808u128
        } else {
            (-n) as u128
        };
        push_decimal(out, magnitude);
        assert(out@ =~= old(out)@ + signed_decimal(n as int));
    }
}

/// Appends `n` as `{:02}` writes an `i32`.
pub fn push_padded(out: &mut String, n: i32)
    ensures
        final(out)@ == old(out)@ + padded_signed(n as int),
{
    if n >= 0 {
        if n < 10 {
            out.push('0');
            out.push(digit(n as u128));
            assert(out@ =~= old(out)@ + padded_signed(n as int));
        } else {
            push_decimal(out, n as u128);
        }
    } else {
        out.push('-');
        let magnitude: u128 = (-(n as i64)) as u128;
        push_decimal(out, magnitude);
        assert(out@ =~= old(out)@ + padded_signed(n as int));
    }
}

/// `n / d` rounded to the nearest integer, ties to even.
pub open spec fn div_round_half_even(n: nat, d: nat) -> nat
    recommends
        d > 0,
{
    let q = n / d;
    let r = n % d;
    if 2 * r > d || (2 * r == d && q % 2 == 1) {
        q + 1
    } else {
        q
    }
}

pub fn div_round_half_even_u128(n: u128, d: u128) -> (out: u128)
    requires
        d > 0,
        n / d < u128::MAX,
    ensures
        out == div_round_half_even(n as nat, d as nat),
{
    let q = n / d;
    let r = n % d;
    if r > d - r || (r == d - r && q % 2 == 1) {
        q + 1
    } else {
        q
    }
}



/// `2^k`.
pub open spec fn two_pow(k: nat) -> nat
    decreases k,
{
    if k == 0 {
        1
    } else {
        2 * two_pow((k - 1) as nat)
    }
}

/// How often `n` must be halved to fit in 53 bits.
pub open spec fn excess_bits(n: nat) -> nat
    decreases n,
{
    if n < 0x20_0000_0000_0000 {
        0
    } else {
        1 + excess_bits(n / 2)
    }
}

/// `floor(log2(x))` for `x >= 1` (0 for 0).
pub open spec fn log2_floor(x: nat) -> nat
    decreases x,
{
    if x < 2 {
        0
    } else {
        1 + log2_floor(x / 2)
    }
}

/// The value an integer takes as an `f64`: rounded to 53 significant bits,
/// ties to even.
pub open spec fn f64_value(n: nat) -> nat {
    let k = excess_bits(n);
    div_round_half_even(n, two_pow(k)) * two_pow(k)
}

/// `t` tenths written with one decimal, e.g. `12.5`.
pub open spec fn tenths_text(t: nat) -> Seq<char> {
    decimal(t / 10) + seq!['.', digit_char(t % 10)]
}

/// Tenths of `f64_value(n) / 2^shift`, rounded half to even: what `{:.1}`
/// prints for that quotient, which is exact in binary.
pub open spec fn binary_tenths(n: nat, shift: nat) -> nat {
    div_round_half_even(f64_value(n) * 10, two_pow(shift))
}

/// Tenths of the `f64` quotient `f64_value(n) / 10^6`, rounded half to even.
/// The quotient itself is rounded to 53 significant bits: it lies in
/// `[2^e, 2^(e+1))` with `e = log2_floor(f64_value(n) / 10^6)`, so it is
/// `m / 2^(52 - e)` for the nearest integer `m`.
pub open spec fn million_tenths(n: nat) -> nat {
    let w = f64_value(n);
    let s = (52 - log2_floor(w / 1_000_000)) as nat;
    let m = div_round_half_even(w * two_pow(s), 1_000_000);
    div_round_half_even(m * 10, two_pow(s))
}

proof fn lemma_two_pow_pos(k: nat)
    ensures
        two_pow(k) >= 1,
        two_pow(k) > k,
    decreases k,
{
    if k > 0 {
        lemma_two_pow_pos((k - 1) as nat);
    }
}

proof fn lemma_div_twice(n: nat, p: nat)
    requires
        p > 0,
    ensures
        (n / p) / 2 == n / (p * 2),
{
    vstd::arithmetic::div_mod::lemma_div_denominator(n as int, p as int, 2);
}

proof fn lemma_div_round_bound(n: nat, p: nat)
    requires
        p > 0,
    ensures
        div_round_half_even(n, p) * p <= n + p,
        div_round_half_even(n, p) <= n / p + 1,
{
    let q = n / p;
    vstd::arithmetic::div_mod::lemma_fundamental_div_mod(n as int, p as int);
    assert(q * p <= n) by (nonlinear_arith)
        requires
            n == p * q + n % p,
            n % p >= 0,
    ;
    assert((q + 1) * p == q * p + p) by (nonlinear_arith);
}

/// `n` as an `f64` holds it: the exact integer value of `n as f64`.
pub fn f64_value_of(n: u64) -> (out: u128)
    ensures
        out as nat == f64_value(n as nat),
        out <= 2 * (n as nat) + 1,
{
    let mut m: u64 = n;
    let mut p: u128 = 1;
    let mut k: u64 = 0;
    proof {
        vstd::arithmetic::div_mod::lemma_div_basics(n as int);
    }
    while m >= 0x20_0000_0000_0000
        invariant
            p as nat == two_pow(k as nat),
            m as nat == (n as nat) / (p as nat),
            p <= n || k == 0,
            p >= 1,
            excess_bits(n as nat) == k + excess_bits(m as nat),
        decreases m,
    {
        proof {
            lemma_div_twice(n as nat, p as nat);
            lemma_two_pow_pos(k as nat);
            assert(p * 2 <= n) by (nonlinear_arith)
                requires
                    m as nat == (n as nat) / (p as nat),
                    m >= 2,
                    p >= 1,
            {
                vstd::arithmetic::div_mod::lemma_fundamental_div_mod(n as int, p as int);
            }
        }
        m = m / 2;
        p = p * 2;
        k = k + 1;
    }
    let q = div_round_half_even_u128(n as u128, p);
    proof {
        lemma_div_round_bound(n as nat, p as nat);
        assert(q * p <= n + p);
    }
    q * p
}


proof fn lemma_two_pow_monotone(a: nat, b: nat)
    requires
        a <= b,
    ensures
        two_pow(a) <= two_pow(b),
    decreases b,
{
    if a < b {
        lemma_two_pow_monotone(a, (b - 1) as nat);
        lemma_two_pow_pos((b - 1) as nat);
    }
}

proof fn lemma_log2_floor_bound(x: nat, j: nat)
    requires
        j >= 1,
        x < two_pow(j),
    ensures
        log2_floor(x) < j,
    decreases x,
{
    if x >= 2 {
        assert(j >= 2) by {
            if j == 1 {
                assert(two_pow(1) == 2);
            }
        }
        assert(x / 2 < two_pow((j - 1) as nat));
        lemma_log2_floor_bound(x / 2, (j - 1) as nat);
    }
}

proof fn lemma_two_pow_values()
    ensures
        two_pow(20) == 0x10_0000,
        two_pow(30) == 0x4000_0000,
        two_pow(46) == 0x4000_0000_0000,
{
    reveal_with_fuel(two_pow, 47);
}

/// `t` tenths written with one decimal.
pub fn push_tenths(out: &mut String, t: u128)
    ensures
        final(out)@ == old(out)@ + tenths_text(t as nat),
{
    push_decimal(out, t / 10);
    out.push('.');
    out.push(digit(t % 10));
    assert(out@ =~= old(out)@ + tenths_text(t as nat));
}

/// What `format!("{:.1} GiB", v as f64 / 2^30)` or, below one GiB,
/// `format!("{:.1} MiB", v as f64 / 2^20)` writes.
pub open spec fn binary_size_text(v: nat) -> Seq<char> {
    if v >= 0x4000_0000 {
        tenths_text(binary_tenths(v, 30)) + " GiB"@
    } else {
        tenths_text(binary_tenths(v, 20)) + " MiB"@
    }
}

/// A byte count in binary units with one decimal: GiB from one GiB up,
/// MiB below.
pub fn binary_size(value: u64) -> (out: String)
    ensures
        out@ == binary_size_text(value as nat),
{
    let w = f64_value_of(value);
    proof {
        lemma_two_pow_values();
    }
    let shift: u128 = if value >= 0x4000_0000 { 0x4000_0000 } else { 0x10_0000 };
    let t = div_round_half_even_u128(w * 10, shift);
    let mut out = String::new();
    push_tenths(&mut out, t);
    if value >= 0x4000_0000 {
        push_str_chars(&mut out, " GiB");
    } else {
        push_str_chars(&mut out, " MiB");
    }
    assert(out@ =~= binary_size_text(value as nat));
    out
}

/// `floor(log2(x))`.
fn log2_floor_of(x: u128) -> (out: u64)
    requires
        x < 0x4000_0000_0000,
    ensures
        out as nat == log2_floor(x as nat),
        out < 46,
{
    proof {
        lemma_two_pow_values();
        lemma_log2_floor_bound(x as nat, 46);
    }
    let mut y = x;
    let mut e: u64 = 0;
    while y >= 2
        invariant
            log2_floor(x as nat) == e + log2_floor(y as nat),
            log2_floor(x as nat) < 46,
        decreases y,
    {
        y = y / 2;
        e = e + 1;
    }
    e
}

/// `2^k`.
fn two_pow_of(k: u64) -> (out: u128)
    requires
        k <= 64,
    ensures
        out as nat == two_pow(k as nat),
{
    let mut p: u128 = 1;
    let mut i: u64 = 0;
    while i < k
        invariant
            i <= k <= 64,
            p as nat == two_pow(i as nat),
        decreases k - i,
    {
        proof {
            lemma_two_pow_monotone((i + 1) as nat, 64);
            reveal_with_fuel(two_pow, 65);
        }
        p = p * 2;
        i = i + 1;
    }
    p
}

/// What `format!("{:.1} Mbps", v as f64 / 1e6)` writes from one Mbps up,
/// and `format!("{:.0} kbps", v as f64 / 1e3)` below: the latter quotient
/// is exact or at least a thousandth away from a rounding tie, so it
/// rounds like the exact quotient, ties to even.
pub open spec fn bitrate_text(v: nat) -> Seq<char> {
    if v >= 1_000_000 {
        tenths_text(million_tenths(v)) + " Mbps"@
    } else {
        decimal(div_round_half_even(v, 1000)) + " kbps"@
    }
}

/// A bit rate in Mbps with one decimal, or in whole kbps below one Mbps.
pub fn bitrate_label(value: u64) -> (out: String)
    ensures
        out@ == bitrate_text(value as nat),
{
    let mut out = String::new();
    if value >= 1_000_000 {
        let w = f64_value_of(value);
        proof {
            lemma_two_pow_values();
            assert(w / 1_000_000 < 0x4000_0000_0000);
        }
        let e = log2_floor_of(w / 1_000_000);
        let s = 52 - e;
        let pow = two_pow_of(s);
        proof {
            lemma_two_pow_monotone(s as nat, 52);
            reveal_with_fuel(two_pow, 53);
            assert(pow <= 0x10_0000_0000_0000);
            assert(w * pow <= 0x3_0000_0000_0000_0000u128 * 0x10_0000_0000_0000u128) by (nonlinear_arith)
                requires
                    w <= 0x3_0000_0000_0000_0000u128,
                    pow <= 0x10_0000_0000_0000u128,
            ;
        }
        let m = div_round_half_even_u128(w * pow, 1_000_000);
        proof {
            assert(m <= (w * pow) / 1_000_000 + 1);
        }
        let t = div_round_half_even_u128(m * 10, pow);
        push_tenths(&mut out, t);
        push_str_chars(&mut out, " Mbps");
    } else {
        let t = div_round_half_even_u128(value as u128, 1000);
        push_decimal(&mut out, t);
        push_str_chars(&mut out, " kbps");
    }
    assert(out@ =~= bitrate_text(value as nat));
    out
}

} // verus!
