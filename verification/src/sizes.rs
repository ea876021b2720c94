//! Human-readable byte sizes with binary units, rendered the way Rust's
//! float formatting renders `bytes / 1024^k` with one or two decimals.

use vstd::prelude::*;
use crate::text::{decimal, digit_char, push_decimal, append_str};

verus! {

pub open spec fn kib() -> nat {
    1024
}

pub open spec fn mib() -> nat {
    1048576
}

pub open spec fn gib() -> nat {
    1073741824
}

/// `n / d` rounded to the nearest integer, ties to the even neighbour.
pub open spec fn round_div(n: nat, d: nat) -> nat
    recommends
        d > 0,
{
    let q = n / d;
    let r = n % d;
    if 2 * r > d || (2 * r == d && q % 2 == 1) {
        q + 1
    } else {
        q
    }
}

/// The power of two by which an integer must be scaled down to fit the
/// 53-bit significand of an `f64`.
pub open spec fn f64_scale(b: nat) -> nat
    decreases b,
{
    if b < 0x20_0000_0000_0000 {
        1
    } else {
        2 * f64_scale(b / 2)
    }
}

/// The value of `b as f64`: `b` rounded to 53 significant bits, ties to even.
pub open spec fn f64_value(b: nat) -> nat {
    round_div(b, f64_scale(b)) * f64_scale(b)
}

/// `x / 10` with one decimal (`{:.1}` of a value held in tenths).
pub open spec fn with_tenths(x: nat) -> Seq<char> {
    decimal(x / 10) + seq!['.'] + decimal(x % 10)
}

/// `x / 100` with two decimals (`{:.2}` of a value held in hundredths).
pub open spec fn with_hundredths(x: nat) -> Seq<char> {
    decimal(x / 100) + seq!['.', digit_char((x % 100) / 10), digit_char(x % 10)]
}

/// The size text: `999 B`, `2.0 KB`, `389.8 KB`, `5.0 MB`, `1.50 GB`.
pub open spec fn size_text(b: nat) -> Seq<char> {
    if b < kib() {
        decimal(b) + seq![' ', 'B']
    } else if b < mib() {
        with_tenths(round_div(b * 10, kib())) + seq![' ', 'K', 'B']
    } else if b < gib() {
        with_tenths(round_div(b * 10, mib())) + seq![' ', 'M', 'B']
    } else {
        with_hundredths(round_div(f64_value(b) * 100, gib())) + seq![' ', 'G', 'B']
    }
}

fn round_div_exec(n: u128, d: u128) -> (r: u128)
    requires
        d > 0,
        n / d < u128::MAX,
    ensures
        r == round_div(n as nat, d as nat),
{
    let q = n / d;
    let r = n % d;
    if r > d - r || (r == d - r && q % 2 == 1) {
        q + 1
    } else {
        q
    }
}

fn f64_value_exec(b: u64) -> (r: u128)
    ensures
        r == f64_value(b as nat),
        r <= 0x2_0000_0000_0000_0000,
{
    let mut m: u128 = b as u128;
    let mut p: u128 = 1;
    while m >= 0x20_0000_0000_0000
        invariant
            m == (b as nat) / (p as nat),
            p >= 1,
            p * m <= b,
            p == 1 || p <= b,
            f64_scale(b as nat) == p * f64_scale(m as nat),
        decreases m,
    {
        proof {
            vstd::arithmetic::div_mod::lemma_div_denominator(b as int, p as int, 2);
            assert(p <= b) by (nonlinear_arith)
                requires
                    p * m <= b,
                    m >= 1,
            ;
            assert(p * 2 * (m / 2) <= p * m) by (nonlinear_arith)
                requires
                    p >= 1,
            ;
            assert(f64_scale(m as nat) == 2 * f64_scale((m / 2) as nat));
            assert(p * (2 * f64_scale((m / 2) as nat)) == (p * 2) * f64_scale((m / 2) as nat))
                by (nonlinear_arith);
        }
        m = m / 2;
        p = p * 2;
        assert(p <= b) by (nonlinear_arith)
            requires
                p * m <= b,
                m >= 1,
        ;
    }
    assert(f64_scale(m as nat) == 1);
    assert(f64_scale(b as nat) == p) by (nonlinear_arith)
        requires
            f64_scale(b as nat) == p * f64_scale(m as nat),
            f64_scale(m as nat) == 1,
    ;
    let bb: u128 = b as u128;
    proof {
        assert(bb / p < u128::MAX) by (nonlinear_arith)
            requires
                bb < 0x1_0000_0000_0000_0000,
                p >= 1,
        {
            assert(bb / p <= bb);
        }
    }
    let q = round_div_exec(bb, p);
    proof {
        assert(q <= bb / p + 1);
        assert((bb / p) * p <= bb) by (nonlinear_arith)
            requires
                p >= 1,
        {
            vstd::arithmetic::div_mod::lemma_fundamental_div_mod(bb as int, p as int);
        }
        assert(q * p <= bb + p) by (nonlinear_arith)
            requires
                q <= bb / p + 1,
                (bb / p) * p <= bb,
        ;
        assert(q * p <= 0x2_0000_0000_0000_0000);
    }
    q * p
}

/// `format_bytes_human`: a byte count in `B`, `KB`, `MB` or `GB`.
pub fn format_bytes_human(bytes: u64) -> (s: String)
    ensures
        s@ == size_text(bytes as nat),
{
    let mut out: Vec<char> = Vec::new();
    if bytes < 1024 {
        push_decimal(&mut out, bytes);
        append_str(&mut out, " B");
        proof { reveal_strlit(" B"); }
        assert(out@ =~= size_text(bytes as nat));
    } else if bytes < 1048576 {
        let x = round_div_exec((bytes as u128) * 10, 1024);
        push_tenths(&mut out, x);
        append_str(&mut out, " KB");
        proof { reveal_strlit(" KB"); }
        assert(out@ =~= size_text(bytes as nat));
    } else if bytes < 1073741824 {
        let x = round_div_exec((bytes as u128) * 10, 1048576);
        push_tenths(&mut out, x);
        append_str(&mut out, " MB");
        proof { reveal_strlit(" MB"); }
        assert(out@ =~= size_text(bytes as nat));
    } else {
        let v = f64_value_exec(bytes);
        let x = round_div_exec(v * 100, 1073741824);
        push_hundredths(&mut out, x);
        append_str(&mut out, " GB");
        proof { reveal_strlit(" GB"); }
        assert(out@ =~= size_text(bytes as nat));
    }
    crate::text::string_of(out.as_slice())
}

fn push_tenths(out: &mut Vec<char>, x: u128)
    requires
        x / 10 <= u64::MAX,
    ensures
        final(out)@ == old(out)@ + with_tenths(x as nat),
{
    push_decimal(out, (x / 10) as u64);
    out.push('.');
    push_decimal(out, (x % 10) as u64);
    assert(final(out)@ =~= old(out)@ + with_tenths(x as nat));
}

fn push_hundredths(out: &mut Vec<char>, x: u128)
    requires
        x / 100 <= u64::MAX,
    ensures
        final(out)@ == old(out)@ + with_hundredths(x as nat),
{
    push_decimal(out, (x / 100) as u64);
    out.push('.');
    let tens = (((x % 100) / 10) as u8 + 48) as char;
    let ones = (((x % 10) as u8) + 48) as char;
    assert(tens == digit_char(((x % 100) / 10) as nat));
    assert(ones == digit_char((x % 10) as nat));
    out.push(tens);
    out.push(ones);
    assert(final(out)@ =~= old(out)@ + with_hundredths(x as nat));
}

} // verus!
