//! The pool formulas over mathematical integers, and the facts about them
//! that the swap engine needs.
use vstd::prelude::*;
use vstd::arithmetic::div_mod::{
    lemma_div_by_multiple, lemma_div_denominator, lemma_div_is_ordered, lemma_multiply_divide_le,
};

verus! {

/// Narrowing to `u128` that stops at `u128::MAX`.
pub open spec fn cap_u128(v: int) -> int {
    if v > u128::MAX {
        u128::MAX as int
    } else {
        v
    }
}

/// Output of a swap of `x` against input-side reserve `xc` and output-side reserve `yc`:
/// `x·X·Y / (x+X)²`.
pub open spec fn swap_output(x: int, xc: int, yc: int) -> int {
    x * xc * yc / ((x + xc) * (x + xc))
}

/// Fee of that swap: `x²·Y / (x+X)²`.
pub open spec fn swap_fee(x: int, xc: int, yc: int) -> int {
    x * x * yc / ((x + xc) * (x + xc))
}

/// The reserve on the input side of a swap.
pub open spec fn input_reserve(fis: int, rtoken: int, input_is_fis: bool) -> int {
    if input_is_fis {
        fis
    } else {
        rtoken
    }
}

/// The reserve on the output side of a swap.
pub open spec fn output_reserve(fis: int, rtoken: int, input_is_fis: bool) -> int {
    if input_is_fis {
        rtoken
    } else {
        fis
    }
}

/// `(output, fee)` of swapping `x` in a pool with reserves `fis` and `rtoken`;
/// `(0, 0)` when any of them is zero.
pub open spec fn swap_result(fis: int, rtoken: int, x: int, input_is_fis: bool) -> (int, int) {
    if fis == 0 || rtoken == 0 || x == 0 {
        (0, 0)
    } else {
        let xc = input_reserve(fis, rtoken, input_is_fis);
        let yc = output_reserve(fis, rtoken, input_is_fis);
        (swap_output(x, xc, yc), swap_fee(x, xc, yc))
    }
}

/// `|F·r − f·R|`, how far a deposit is from the pool's ratio.
pub open spec fn slip_magnitude(fb: int, rb: int, f: int, r: int) -> int {
    if fb * r > f * rb {
        fb * r - f * rb
    } else {
        f * rb - fb * r
    }
}

/// Units before the slip adjustment: `P·(F·r + f·R) / (2·R·F)`.
pub open spec fn raw_units(p: int, fb: int, rb: int, f: int, r: int) -> int {
    p * (fb * r + f * rb) / (rb * fb * 2)
}

/// The slip adjustment: `raw·|F·r − f·R| / ((f+F)·(r+R))`.
pub open spec fn slip_units(p: int, fb: int, rb: int, f: int, r: int) -> int {
    raw_units(p, fb, rb, f, r) * slip_magnitude(fb, rb, f, r) / ((f + fb) * (r + rb))
}

/// Units granted for depositing `f` FIS and `r` rTOKEN into a pool with both reserves
/// non-zero.
pub open spec fn added_units(p: int, fb: int, rb: int, f: int, r: int) -> int {
    raw_units(p, fb, rb, f, r) - slip_units(p, fb, rb, f, r)
}

/// `(new total, added)` units for a deposit, before narrowing to `u128`.
pub open spec fn pool_unit_result(p: int, fb: int, rb: int, f: int, r: int) -> (int, int) {
    if f == 0 && r == 0 {
        (0, 0)
    } else if fb + f == 0 || rb + r == 0 {
        (0, 0)
    } else if fb == 0 || rb == 0 {
        (f, f)
    } else {
        (p + added_units(p, fb, rb, f, r), added_units(p, fb, rb, f, r))
    }
}

/// `(fis out, rtoken out, swap input)` for removing `rm` of `p` units, `sw` of them to be
/// swapped to one side, from reserves `fb` and `rb`.
pub open spec fn remove_result(p: int, rm: int, sw: int, fb: int, rb: int, input_is_fis: bool) -> (
    int,
    int,
    int,
) {
    if p == 0 || rm == 0 {
        (0, 0, 0)
    } else {
        let u = if rm > p {
            p
        } else {
            rm
        };
        let s = if sw > u {
            u
        } else {
            sw
        };
        (u * fb / p, u * rb / p, s * input_reserve(fb, rb, input_is_fis) / p)
    }
}

/// `a / d ≤ q` when `a ≤ d·q`.
pub proof fn lemma_div_at_most(a: int, d: int, q: int)
    requires
        0 < d,
        a <= d * q,
    ensures
        a / d <= q,
{
    lemma_multiply_divide_le(a, d, q);
}

/// `k·m / m ≤ k`, and `k·n / m ≤ k` for `n ≤ m`.
pub proof fn lemma_scaled_share(k: int, n: int, m: int)
    requires
        0 <= k,
        0 <= n <= m,
        0 < m,
    ensures
        k * n / m <= k,
        0 <= k * n / m,
{
    assert(k * n <= m * k) by (nonlinear_arith)
        requires
            0 <= k,
            0 <= n <= m,
    ;
    assert(0 <= k * n) by (nonlinear_arith)
        requires
            0 <= k,
            0 <= n,
    ;
    lemma_div_at_most(k * n, m, k);
    lemma_div_is_ordered(0, k * n, m);
}

/// Products of two numbers below the bounds stay below the product of the bounds.
pub proof fn lemma_mul_below(a: int, b: int, ba: int, bb: int)
    requires
        0 <= a < ba,
        0 <= b < bb,
    ensures
        0 <= a * b < ba * bb,
{
    assert(0 <= a * b < ba * bb) by (nonlinear_arith)
        requires
            0 <= a < ba,
            0 <= b < bb,
    ;
}

/// The raw units of a deposit are at most `P·m` when both deposits are at most `m`.
pub proof fn lemma_raw_units_bound(p: int, fb: int, rb: int, f: int, r: int, m: int)
    requires
        0 <= p,
        0 < fb,
        0 < rb,
        0 <= f <= m,
        0 <= r <= m,
    ensures
        0 <= raw_units(p, fb, rb, f, r) <= p * m,
{
    let num = fb * r + f * rb;
    let den = rb * fb * 2;
    assert(0 <= num <= den * m) by (nonlinear_arith)
        requires
            0 < fb,
            0 < rb,
            0 <= f <= m,
            0 <= r <= m,
            num == fb * r + f * rb,
            den == rb * fb * 2,
    ;
    assert(0 <= p * num <= den * (p * m) && 0 < den) by (nonlinear_arith)
        requires
            0 <= p,
            0 <= num <= den * m,
            0 < fb,
            0 < rb,
            den == rb * fb * 2,
    ;
    lemma_div_at_most(p * num, den, p * m);
    lemma_div_is_ordered(0, p * num, den);
}

/// The slip magnitude never exceeds the slip denominator `(f+F)·(r+R)`.
pub proof fn lemma_slip_magnitude_bound(fb: int, rb: int, f: int, r: int)
    requires
        0 <= fb,
        0 <= rb,
        0 <= f,
        0 <= r,
    ensures
        0 <= slip_magnitude(fb, rb, f, r) <= (f + fb) * (r + rb),
        slip_magnitude(fb, rb, f, r) <= fb * r || slip_magnitude(fb, rb, f, r) <= f * rb,
{
    assert(0 <= fb * r && 0 <= f * rb && fb * r + f * rb <= (f + fb) * (r + rb))
        by (nonlinear_arith)
        requires
            0 <= fb,
            0 <= rb,
            0 <= f,
            0 <= r,
    ;
}

/// The output and the fee of a swap each stay within the output reserve, and together
/// they come to at most `x·Y / (x+X)`.
pub proof fn lemma_swap_bounds(x: int, xc: int, yc: int)
    requires
        0 < x,
        0 < xc,
        0 <= yc,
    ensures
        0 <= swap_output(x, xc, yc) <= yc,
        0 <= swap_fee(x, xc, yc) <= yc,
        swap_output(x, xc, yc) + swap_fee(x, xc, yc) <= x * yc / (x + xc),
        (x + xc) * swap_output(x, xc, yc) <= x * yc,
{
    let t = x + xc;
    let d = t * t;
    assert(0 < d) by (nonlinear_arith)
        requires
            0 < t,
            d == t * t,
    ;
    assert(x * xc <= d && x * x <= d) by (nonlinear_arith)
        requires
            0 < x,
            0 < xc,
            t == x + xc,
            d == t * t,
    ;
    assert(x * xc * yc == yc * (x * xc) && x * x * yc == yc * (x * x)) by (nonlinear_arith);
    lemma_scaled_share(yc, x * xc, d);
    lemma_scaled_share(yc, x * x, d);
    let a = x * xc * yc;
    let b = x * x * yc;
    // floor(a/d) + floor(b/d) <= floor((a+b)/d)
    assert(0 <= a && 0 <= b) by (nonlinear_arith)
        requires
            0 < x,
            0 < xc,
            0 <= yc,
            a == x * xc * yc,
            b == x * x * yc,
    ;
    assert(a / d + b / d <= (a + b) / d) by (nonlinear_arith)
        requires
            0 <= a,
            0 <= b,
            0 < d,
    {
        assert(d * (a / d) <= a && d * (b / d) <= b) by (nonlinear_arith)
            requires
                0 <= a,
                0 <= b,
                0 < d,
        ;
        assert(a + b == d * (a / d + b / d) + (a + b - d * (a / d + b / d)));
    }
    // (a+b)/d == x·Y/t
    assert(a + b == (x * yc) * t) by (nonlinear_arith)
        requires
            a == x * xc * yc,
            b == x * x * yc,
            t == x + xc,
    ;
    assert(0 <= x * yc) by (nonlinear_arith)
        requires
            0 < x,
            0 <= yc,
    ;
    lemma_div_by_multiple(x * yc, t);
    lemma_div_denominator((x * yc) * t, t, t);
    // t·out <= x·Y
    let out = a / d;
    assert(d * out <= a) by (nonlinear_arith)
        requires
            0 <= a,
            0 < d,
            out == a / d,
    ;
    assert(x * xc * yc <= t * (x * yc)) by (nonlinear_arith)
        requires
            0 < x,
            0 < xc,
            0 <= yc,
            t == x + xc,
    ;
    assert(t * (t * out) <= t * (x * yc)) by (nonlinear_arith)
        requires
            d * out <= a,
            d == t * t,
            a == x * xc * yc,
            x * xc * yc <= t * (x * yc),
    ;
    assert(t * out <= x * yc) by (nonlinear_arith)
        requires
            t * (t * out) <= t * (x * yc),
            0 < t,
    ;
}

} // verus!
