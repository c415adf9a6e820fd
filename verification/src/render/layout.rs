//! The vertical geometry of a screenshot, in the single-precision floating
//! point that the screenshot format has always been laid out in.
//!
//! Rows are 21 units tall below a 38-unit header, and a row's text baseline
//! sits 17 * 0.78 units below its top. These are computed the way `f32`
//! arithmetic computes them: every intermediate result is rounded to 24
//! significant bits, ties to even. All values involved are multiples of
//! 2^-20, so a value is held here as the integer `v` standing for
//! `v / 2^20`, and rounding to 24 significant bits of `v` is the same as
//! rounding the value itself. For screens of up to a few thousand rows the
//! rounding changes nothing and the numbers are the exact ones; beyond that
//! the printed coordinates drift from the exact ones exactly as `f32` makes
//! them drift.
use vstd::prelude::*;

use crate::text::{dec, digit, digit_char, push_char, push_dec};

verus! {

/// One unit: values are held as multiples of 2^-20.
pub const SCALE: u128 = 1_048_576;

/// `17 * 0.78` as `f32` computes it: `0.78` and the product each rounded to
/// 24 significant bits, which gives 13904117 / 2^20 (about 13.2599993).
pub const BASELINE_DROP: u128 = 13_904_117;

/// Two to the power `k`.
pub open spec fn pow2(k: nat) -> nat
    decreases k,
{
    if k == 0 {
        1
    } else {
        2 * pow2((k - 1) as nat)
    }
}

/// The number of binary digits of `n` (0 for 0).
pub open spec fn bit_len(n: nat) -> nat
    decreases n,
{
    if n == 0 {
        0
    } else {
        1 + bit_len(n / 2)
    }
}

/// `a / d` rounded to the nearest integer, ties to even.
pub open spec fn div_round_even(a: nat, d: nat) -> nat {
    let q = a / d;
    let r = a % d;
    if 2 * r > d || (2 * r == d && q % 2 == 1) {
        q + 1
    } else {
        q
    }
}

/// `n` rounded to 24 significant binary digits, ties to even (what storing
/// a value in an `f32` does).
pub open spec fn round24(n: nat) -> nat {
    if bit_len(n) <= 24 {
        n
    } else {
        let u = pow2((bit_len(n) - 24) as nat);
        div_round_even(n, u) * u
    }
}

/// The top of row `y` (`38 + y * 21`), as scaled `f32`.
pub open spec fn row_top(y: nat) -> nat {
    round24(38 * (SCALE as nat) + round24(round24(y * (SCALE as nat)) * 21))
}

/// The text baseline of row `y` (its top plus `17 * 0.78`), as scaled `f32`.
pub open spec fn row_baseline(y: nat) -> nat {
    round24(row_top(y) + (BASELINE_DROP as nat))
}

/// The height of a document of `n` rows (`38 + 14 + n * 21`), as scaled `f32`.
pub open spec fn doc_height(n: nat) -> nat {
    round24(52 * (SCALE as nat) + round24(round24(n * (SCALE as nat)) * 21))
}

/// A scaled value printed with two decimals (`{:.2}`): rounded to hundredths,
/// ties to even, then the whole part, a point and two digits.
pub open spec fn fixed2(v: nat) -> Seq<char> {
    let c = div_round_even(v * 100, SCALE as nat);
    dec(c / 100) + seq!['.', digit_char(((c / 10) % 10) as int), digit_char((c % 10) as int)]
}

/// A scaled value printed with no decimals (`{:.0}`): rounded to a whole
/// number, ties to even.
pub open spec fn fixed0(v: nat) -> Seq<char> {
    dec(div_round_even(v, SCALE as nat))
}

/// `pow2` grows with its exponent.
pub proof fn lemma_pow2_mono(a: nat, b: nat)
    requires
        a <= b,
    ensures
        pow2(a) <= pow2(b),
        pow2(a) >= 1,
    decreases b,
{
    if a < b {
        lemma_pow2_mono(a, (b - 1) as nat);
    } else if a > 0 {
        lemma_pow2_mono((a - 1) as nat, (a - 1) as nat);
    }
}

/// A positive number lies between the powers of two that its length names.
pub proof fn lemma_bit_len_bounds(n: nat)
    requires
        n > 0,
    ensures
        pow2((bit_len(n) - 1) as nat) <= n < pow2(bit_len(n)),
        bit_len(n) >= 1,
    decreases n,
{
    if n > 1 {
        lemma_bit_len_bounds(n / 2);
        let k = bit_len(n / 2);
        assert(pow2(k) == 2 * pow2((k - 1) as nat));
        assert(bit_len(n) == k + 1);
        assert(pow2((k + 1) as nat) == 2 * pow2(k));
    } else {
        assert(bit_len(0) == 0);
        assert(bit_len(1) == 1);
        assert(pow2(1) == 2 * pow2(0));
    }
}

/// A number has no more binary digits than its value.
pub proof fn lemma_bit_len_at_most(n: nat)
    ensures
        bit_len(n) <= n,
    decreases n,
{
    if n > 0 {
        lemma_bit_len_at_most(n / 2);
    }
}

/// Rounding at most doubles a number.
pub proof fn lemma_round24_bound(n: nat)
    ensures
        round24(n) <= 2 * n,
{
    if bit_len(n) > 24 {
        let u = pow2((bit_len(n) - 24) as nat);
        lemma_bit_len_bounds(n);
        lemma_pow2_mono((bit_len(n) - 24) as nat, (bit_len(n) - 1) as nat);
        let q = n / u;
        assert(q * u <= n) by (nonlinear_arith)
            requires
                q == n / u,
                u > 0,
        ;
        assert((q + 1) * u == q * u + u) by (nonlinear_arith);
    }
}

fn div_round_even_exec(a: u128, d: u128) -> (r: u128)
    requires
        d > 0,
        a < 0x1_0000_0000_0000_0000_0000_0000_0000,
    ensures
        r == div_round_even(a as nat, d as nat),
{
    let q = a / d;
    let r = a % d;
    if r > d - r || (r == d - r && q % 2 == 1) {
        q + 1
    } else {
        q
    }
}

/// Rounds `n` to 24 significant bits, ties to even.
pub fn round24_exec(n: u128) -> (r: u128)
    requires
        n < 0x1_0000_0000_0000_0000_0000_0000,
    ensures
        r == round24(n as nat),
        r <= 2 * n,
{
    proof {
        lemma_round24_bound(n as nat);
    }
    proof {
        lemma_bit_len_at_most(n as nat);
    }
    let mut b: u128 = 0;
    let mut m = n;
    while m > 0
        invariant
            bit_len(n as nat) == b + bit_len(m as nat),
            bit_len(n as nat) <= n,
            m <= n,
        decreases m,
    {
        m = m / 2;
        b = b + 1;
    }
    if b <= 24 {
        return n;
    }
    proof {
        lemma_bit_len_bounds(n as nat);
        lemma_pow2_mono((b - 24) as nat, (b - 1) as nat);
    }
    let mut u: u128 = 1;
    let mut i: u128 = 0;
    while i < b - 24
        invariant
            b > 24,
            b == bit_len(n as nat),
            i <= b - 24,
            u == pow2(i as nat),
            pow2((b - 24) as nat) <= n,
        decreases b - 24 - i,
    {
        proof {
            lemma_pow2_mono((i + 1) as nat, (b - 24) as nat);
        }
        u = u * 2;
        i = i + 1;
    }
    let q = div_round_even_exec(n, u);
    proof {
        assert(q <= n / u + 1);
        assert((n / u) * u <= n) by (nonlinear_arith)
            requires
                u > 0,
        ;
        assert(q * u <= n + u) by (nonlinear_arith)
            requires
                q <= n / u + 1,
                (n / u) * u <= n,
                u > 0,
        ;
    }
    q * u
}

fn f32_row_offset(k: u128) -> (r: u128)
    requires
        k < 0x1_0000_0000_0000_0000,
    ensures
        r == round24(round24(k as nat * (SCALE as nat)) * 21),
        r < 0x100000000000000000000000,
{
    let a = round24_exec(k * SCALE);
    round24_exec(a * 21)
}

/// The top of row `y`, as scaled `f32`.
pub fn row_top_exec(y: usize) -> (v: u128)
    ensures
        v == row_top(y as nat),
        v < 0x400000000000000000000000,
{
    let a = f32_row_offset(y as u128);
    round24_exec(38 * SCALE + a)
}

/// The text baseline of row `y`, as scaled `f32`.
pub fn row_baseline_exec(y: usize) -> (v: u128)
    ensures
        v == row_baseline(y as nat),
        v < 0x1000000000000000000000000,
{
    let t = row_top_exec(y);
    round24_exec(t + BASELINE_DROP)
}

/// The height of a document of `n` rows, as scaled `f32`.
pub fn doc_height_exec(n: usize) -> (v: u128)
    ensures
        v == doc_height(n as nat),
        v < 0x400000000000000000000000,
{
    let a = f32_row_offset(n as u128);
    round24_exec(52 * SCALE + a)
}

/// Appends a scaled value with two decimals.
pub fn push_fixed2(out: &mut String, v: u128)
    requires
        v < 0x10000000000000000000000000,
    ensures
        final(out)@ == old(out)@ + fixed2(v as nat),
{
    let c = div_round_even_exec(v * 100, SCALE);
    push_dec(out, c / 100);
    push_char(out, '.');
    push_char(out, digit(((c / 10) % 10) as u8));
    push_char(out, digit((c % 10) as u8));
    assert(out@ =~= old(out)@ + fixed2(v as nat));
}

/// Appends a scaled value with no decimals.
pub fn push_fixed0(out: &mut String, v: u128)
    requires
        v < 0x10000000000000000000000000,
    ensures
        final(out)@ == old(out)@ + fixed0(v as nat),
{
    let c = div_round_even_exec(v, SCALE);
    push_dec(out, c);
}

} // verus!
