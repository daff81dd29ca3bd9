//! Human-readable rendering of sizes and numbers for terminal output.
use vstd::prelude::*;
use crate::text::{decimal, decimal_chars, digit_char, digit_to_char, string_from_chars, chars_of, push_char, push_str, lemma_decimal_nonempty};
use crate::security::{is_control_char, char_is_control};

verus! {

/// `num / den` rounded to the nearest integer, ties to even.
pub open spec fn round_div_even(num: nat, den: nat) -> nat
    recommends
        den > 0,
{
    let q = num / den;
    let r = num % den;
    if 2 * r > den || (2 * r == den && q % 2 == 1) {
        q + 1
    } else {
        q
    }
}

/// The power of two by which an integer must be divided to fit the 53-bit
/// significand of an `f64`.
pub open spec fn f64_scale(n: nat) -> nat
    decreases n,
{
    if n < 0x20_0000_0000_0000 {
        1
    } else {
        2 * f64_scale(n / 2)
    }
}

/// The value of `n as f64`: `n` rounded to 53 significant bits, ties to even.
pub open spec fn f64_of(n: nat) -> nat {
    round_div_even(n, f64_scale(n)) * f64_scale(n)
}

/// A fixed-point number with one decimal: `q / 10` as digits, a point, one digit.
pub open spec fn fixed1(q: nat) -> Seq<char> {
    decimal(q / 10).push('.').push(digit_char((q % 10) as int))
}

/// A fixed-point number with two decimals: `q / 100` as digits, a point, two digits.
pub open spec fn fixed2(q: nat) -> Seq<char> {
    decimal(q / 100).push('.').push(digit_char(((q / 10) % 10) as int)).push(digit_char((q % 10) as int))
}

/// The human-readable size: bytes below 1 KiB, one decimal of KiB below 1 MiB,
/// and two decimals of MiB from 1 MiB on (the MiB value taken as an `f64`).
pub open spec fn format_bytes_spec(bytes: nat) -> Seq<char> {
    if bytes >= 1048576 {
        fixed2(round_div_even(f64_of(bytes) * 100, 1048576)) + " MB"@
    } else if bytes >= 1024 {
        fixed1(round_div_even(bytes * 10, 1024)) + " KB"@
    } else {
        decimal(bytes) + " bytes"@
    }
}

/// `num / den` rounded to the nearest integer, ties to even.
fn round_div_even_exec(num: u128, den: u128) -> (r: u128)
    requires
        den > 0,
        num / den < u128::MAX,
    ensures
        r == round_div_even(num as nat, den as nat),
{
    let q = num / den;
    let r = num % den;
    if r > den - r || (r == den - r && q % 2 == 1) {
        q + 1
    } else {
        q
    }
}

/// `f64_scale` of half a number, doubled, is the scale of the number.
proof fn lemma_scale_step(m: nat, p: nat, n: nat)
    requires
        m >= 0x20_0000_0000_0000,
        p > 0,
        m == n / p,
        f64_scale(n) == p * f64_scale(m),
    ensures
        f64_scale(n) == (2 * p) * f64_scale(m / 2),
        m / 2 == n / (2 * p),
{
    assert(f64_scale(m) == 2 * f64_scale(m / 2));
    assert(p * (2 * f64_scale(m / 2)) == (2 * p) * f64_scale(m / 2)) by (nonlinear_arith);
    vstd::arithmetic::div_mod::lemma_div_denominator(n as int, p as int, 2);
}

/// The value of `n as f64`.
fn f64_value(n: u64) -> (r: u128)
    ensures
        r == f64_of(n as nat),
{
    let mut m: u64 = n;
    let mut p: u128 = 1;
    while m >= 0x20_0000_0000_0000
        invariant
            p > 0,
            p <= 0x1_0000_0000_0000_0000,
            m == (n as nat) / (p as nat),
            f64_scale(n as nat) == p * f64_scale(m as nat),
            m >= 0x20_0000_0000_0000 ==> p * 0x20_0000_0000_0000 <= n,
        decreases m,
    {
        proof {
            lemma_scale_step(m as nat, p as nat, n as nat);
            assert(p * 0x20_0000_0000_0000 <= n);
            assert(p * 2 <= 0x1_0000_0000_0000_0000) by (nonlinear_arith)
                requires p * 0x20_0000_0000_0000 <= n, n < 0x1_0000_0000_0000_0000nat;
            assert(m / 2 >= 0x20_0000_0000_0000 ==> (2 * p) * 0x20_0000_0000_0000 <= n) by (nonlinear_arith)
                requires m == (n as nat) / (p as nat), p > 0;
        }
        m = m / 2;
        p = p * 2;
    }
    assert(f64_scale(m as nat) == 1);
    assert(p * f64_scale(m as nat) == p) by (nonlinear_arith) requires f64_scale(m as nat) == 1;
    assert(p == f64_scale(n as nat));
    proof {
        assert((n as nat) / (p as nat) <= n) by (nonlinear_arith) requires p > 0;
    }
    let q = round_div_even_exec(n as u128, p);
    proof {
        assert(q <= (n as nat) / (p as nat) + 1);
        assert(q * p <= n + p) by (nonlinear_arith) requires q <= (n as nat) / (p as nat) + 1, p > 0;
    }
    q * p
}

/// A fixed-point rendering with one decimal of `q / 10`.
fn fixed1_chars(q: u64) -> (v: Vec<char>)
    ensures
        v@ == fixed1(q as nat),
{
    let mut v = decimal_chars(q / 10);
    v.push('.');
    v.push(digit_to_char(q % 10));
    v
}

/// A fixed-point rendering with two decimals of `q / 100`.
fn fixed2_chars(q: u64) -> (v: Vec<char>)
    ensures
        v@ == fixed2(q as nat),
{
    let mut v = decimal_chars(q / 100);
    v.push('.');
    v.push(digit_to_char((q / 10) % 10));
    v.push(digit_to_char(q % 10));
    v
}

/// Formats bytes into a human-readable string.
pub fn format_bytes(bytes: usize) -> (s: String)
    ensures
        s@ == format_bytes_spec(bytes as nat),
{
    let b = bytes as u64;
    if bytes >= 1048576 {
        let v = f64_value(b);
        proof {
            lemma_scale_bound(b as nat);
            lemma_f64_of_bound(b as nat);
        }
        let q = round_div_even_exec(v * 100, 1048576);
        proof {
            assert(q <= (v * 100) / 1048576 + 1);
            assert((v * 100) / 1048576 <= 0x400_0000_0000_0000) by (nonlinear_arith)
                requires v <= 0x2_0000_0000_0000_0000nat;
        }
        let mut s = string_from_chars(&fixed2_chars(q as u64));
        push_str(&mut s, " MB");
        s
    } else if bytes >= 1024 {
        let q = round_div_even_exec((b as u128) * 10, 1024);
        let mut s = string_from_chars(&fixed1_chars(q as u64));
        push_str(&mut s, " KB");
        s
    } else {
        let mut s = string_from_chars(&decimal_chars(b));
        push_str(&mut s, " bytes");
        s
    }
}

/// Rounding to an `f64` moves a number up by less than one scale step.
proof fn lemma_f64_of_bound(n: nat)
    requires
        f64_scale(n) > 0,
    ensures
        f64_of(n) <= n + f64_scale(n),
{
    let p = f64_scale(n);
    let q = round_div_even(n, p);
    assert(q <= n / p + 1);
    assert(q * p <= n + p) by (nonlinear_arith) requires q <= n / p + 1, p > 0;
}

/// The scale of a 64-bit number is at most 2^64.
proof fn lemma_scale_bound(n: nat)
    requires
        n < 0x1_0000_0000_0000_0000,
    ensures
        f64_scale(n) <= 0x1_0000_0000_0000_0000,
        f64_scale(n) > 0,
        f64_scale(n) * 0x20_0000_0000_0000 <= 2 * n || n < 0x20_0000_0000_0000,
    decreases n,
{
    if n >= 0x20_0000_0000_0000 {
        lemma_scale_bound(n / 2);
        if n / 2 >= 0x20_0000_0000_0000 {
        }
    }
}

/// A number right-aligned in a field of three characters.
pub open spec fn pad3(n: nat) -> Seq<char> {
    let d = decimal(n);
    if d.len() >= 3 {
        d
    } else {
        Seq::new((3 - d.len()) as nat, |i: int| ' ') + d
    }
}

/// Pads a number for alignment in a summary box (right-aligned, width 3).
pub fn pad_number(num: usize) -> (s: String)
    ensures
        s@ == pad3(num as nat),
{
    let d = decimal_chars(num as u64);
    proof {
        lemma_decimal_nonempty(num as nat);
    }
    let mut v: Vec<char> = Vec::new();
    let mut k: usize = d.len();
    while k < 3
        invariant
            d@ == decimal(num as nat),
            d@.len() <= k <= 3 || (k == d@.len() && k >= 3),
            v@ == Seq::new((k - d@.len()) as nat, |i: int| ' '),
        decreases 3 - k,
    {
        v.push(' ');
        assert(v@ =~= Seq::new((k + 1 - d@.len()) as nat, |i: int| ' '));
        k = k + 1;
    }
    let mut i: usize = 0;
    let ghost pre = v@;
    while i < d.len()
        invariant
            d@ == decimal(num as nat),
            i <= d@.len(),
            v@ == pre + d@.take(i as int),
        decreases d@.len() - i,
    {
        v.push(d[i]);
        assert(d@.take(i + 1) =~= d@.take(i as int).push(d@[i as int]));
        assert(pre + d@.take(i + 1) =~= (pre + d@.take(i as int)).push(d@[i as int]));
        i = i + 1;
    }
    assert(d@.take(d@.len() as int) =~= d@);
    proof {
        if d@.len() >= 3 {
            assert(pre =~= Seq::<char>::empty());
            assert(v@ =~= d@);
        }
    }
    string_from_chars(&v)
}

/// A character kept by terminal sanitizing: not a control character, or a
/// newline or tab.
pub open spec fn terminal_safe(c: char) -> bool {
    !is_control_char(c) || c == '\n' || c == '\t'
}

/// Sanitizes a string for terminal output: control characters other than newline
/// and tab are dropped.
pub fn sanitize_terminal_string(s: &str) -> (r: String)
    ensures
        r@ == s@.filter(|c: char| terminal_safe(c)),
{
    let cs = chars_of(s);
    let mut out = String::new();
    let mut i: usize = 0;
    while i < cs.len()
        invariant
            cs@ == s@,
            i <= cs@.len(),
            out@ == cs@.take(i as int).filter(|c: char| terminal_safe(c)),
        decreases cs@.len() - i,
    {
        let c = cs[i];
        if !char_is_control(c) || c == '\n' || c == '\t' {
            push_char(&mut out, c);
        }
        proof {
            assert(cs@.take(i + 1).drop_last() =~= cs@.take(i as int));
            reveal_with_fuel(Seq::filter, 1);
        }
        i = i + 1;
    }
    assert(cs@.take(cs@.len() as int) =~= cs@);
    out
}

} // verus!
