//! Laws of the swap engine, stated over the outcomes of its operations.
use vstd::prelude::*;
use vstd::arithmetic::div_mod::lemma_div_by_multiple;
use crate::primitives::RSymbol;
use crate::swap::{
    SwapPool, add_outcome, create_outcome, remove_outcome, swap_outcome, withdrawn_pool,
};
use crate::swap_math::{
    input_reserve, lemma_div_at_most, lemma_scaled_share, lemma_swap_bounds, output_reserve, pool_unit_result,
    raw_units, remove_result, slip_magnitude, slip_units, swap_output, swap_result,
};

verus! {

/// A pool's units are zero exactly when its FIS reserve is, and its FIS reserve is zero
/// exactly when its rTOKEN reserve is.
pub open spec fn pool_consistent(pool: SwapPool) -> bool {
    (pool.total_unit == 0 <==> pool.fis_balance == 0) && (pool.fis_balance == 0
        <==> pool.rtoken_balance == 0)
}

/// A newly created pool is consistent.
pub proof fn lemma_create_consistent(
    symbol: RSymbol,
    rtoken_amount: u128,
    fis_amount: u128,
    user_rtoken_free: u128,
    user_fis_free: u128,
)
    requires
        create_outcome(symbol, rtoken_amount, fis_amount, user_rtoken_free, user_fis_free).is_ok(),
    ensures
        pool_consistent(
            create_outcome(
                symbol,
                rtoken_amount,
                fis_amount,
                user_rtoken_free,
                user_fis_free,
            ).unwrap().0,
        ),
{
}

/// A swap keeps a pool consistent.
pub proof fn lemma_swap_consistent(
    pool: SwapPool,
    input_amount: u128,
    min_out_amount: u128,
    input_is_fis: bool,
    user_fis_free: u128,
    user_rtoken_free: u128,
)
    requires
        pool_consistent(pool),
        swap_outcome(
            pool,
            input_amount,
            min_out_amount,
            input_is_fis,
            user_fis_free,
            user_rtoken_free,
        ).is_ok(),
    ensures
        pool_consistent(
            swap_outcome(
                pool,
                input_amount,
                min_out_amount,
                input_is_fis,
                user_fis_free,
                user_rtoken_free,
            ).unwrap().0,
        ),
{
}

/// A deposit keeps a pool consistent, unless the pool is empty and the deposit is
/// one-sided.
pub proof fn lemma_add_consistent(
    pool: SwapPool,
    rtoken_amount: u128,
    fis_amount: u128,
    user_rtoken_free: u128,
    user_fis_free: u128,
)
    requires
        pool_consistent(pool),
        pool.total_unit > 0 || (fis_amount > 0 && rtoken_amount > 0),
        add_outcome(pool, rtoken_amount, fis_amount, user_rtoken_free, user_fis_free).is_ok(),
    ensures
        pool_consistent(
            add_outcome(pool, rtoken_amount, fis_amount, user_rtoken_free, user_fis_free).unwrap().0,
        ),
{
    if pool.total_unit > 0 {
        let units = pool_unit_result(
            pool.total_unit as int,
            pool.fis_balance as int,
            pool.rtoken_balance as int,
            fis_amount as int,
            rtoken_amount as int,
        );
        lemma_added_units_nonneg(
            pool.total_unit as int,
            pool.fis_balance as int,
            pool.rtoken_balance as int,
            fis_amount as int,
            rtoken_amount as int,
        );
        assert(units.0 >= pool.total_unit);
    }
}

/// The slip adjustment never exceeds the raw units, so the units added are not negative.
pub proof fn lemma_added_units_nonneg(p: int, fb: int, rb: int, f: int, r: int)
    requires
        0 <= p,
        0 < fb,
        0 < rb,
        0 <= f,
        0 <= r,
    ensures
        0 <= slip_units(p, fb, rb, f, r) <= raw_units(p, fb, rb, f, r),
{
    let num = fb * r + f * rb;
    let den = rb * fb * 2;
    assert(0 <= num && 0 < den && 0 <= p * num) by (nonlinear_arith)
        requires
            0 <= p,
            0 < fb,
            0 < rb,
            0 <= f,
            0 <= r,
            num == fb * r + f * rb,
            den == rb * fb * 2,
    ;
    lemma_scaled_share(p * num, 1, 1);
    assert(0 <= raw_units(p, fb, rb, f, r)) by (nonlinear_arith)
        requires
            0 <= p * num,
            0 < den,
            raw_units(p, fb, rb, f, r) == p * num / den,
    ;
    assert(0 <= fb * r && 0 <= f * rb && fb * r + f * rb <= (f + fb) * (r + rb) && 0 < (f
        + fb) * (r + rb)) by (nonlinear_arith)
        requires
            0 < fb,
            0 < rb,
            0 <= f,
            0 <= r,
    ;
    lemma_scaled_share(raw_units(p, fb, rb, f, r), slip_magnitude(fb, rb, f, r), (f + fb) * (r + rb));
}

/// A removal keeps a pool consistent, unless it takes out every unit and still has a
/// non-zero amount to swap internally (that amount then lands in an emptied pool).
pub proof fn lemma_remove_consistent(
    pool: SwapPool,
    rm_unit: u128,
    swap_unit: u128,
    input_is_fis: bool,
    lp_unit: u128,
    pallet_fis_free: u128,
    pallet_rtoken_free: u128,
)
    requires
        pool_consistent(pool),
        rm_unit < pool.total_unit || remove_result(
            pool.total_unit as int,
            rm_unit as int,
            swap_unit as int,
            pool.fis_balance as int,
            pool.rtoken_balance as int,
            input_is_fis,
        ).2 == 0,
        remove_outcome(
            pool,
            rm_unit,
            swap_unit,
            input_is_fis,
            lp_unit,
            pallet_fis_free,
            pallet_rtoken_free,
        ).is_ok(),
    ensures
        pool_consistent(
            remove_outcome(
                pool,
                rm_unit,
                swap_unit,
                input_is_fis,
                lp_unit,
                pallet_fis_free,
                pallet_rtoken_free,
            ).unwrap().0,
        ),
{
    let pv = pool.total_unit as int;
    let fb = pool.fis_balance as int;
    let rb = pool.rtoken_balance as int;
    if pv > 0 {
        let w = remove_result(pv, rm_unit as int, swap_unit as int, fb, rb, input_is_fis);
        let mid = withdrawn_pool(pool, rm_unit, w.0, w.1);
        if rm_unit < pv {
            let u = rm_unit as int;
            assert(0 <= u * fb < pv * fb && 0 <= u * rb < pv * rb) by (nonlinear_arith)
                requires
                    0 < u < pv,
                    0 < fb,
                    0 < rb,
            ;
            lemma_div_strictly_below(u * fb, pv, fb);
            lemma_div_strictly_below(u * rb, pv, rb);
            let sw = if swap_unit > u {
                u
            } else {
                swap_unit as int
            };
            lemma_scaled_share(input_reserve(fb, rb, input_is_fis), sw, pv);
            assert(sw * input_reserve(fb, rb, input_is_fis) == input_reserve(fb, rb, input_is_fis)
                * sw) by (nonlinear_arith);
            assert(w.2 == sw * input_reserve(fb, rb, input_is_fis) / pv);
            lemma_scaled_share(fb, u, pv);
            lemma_scaled_share(rb, u, pv);
            assert(mid.fis_balance > 0 && mid.rtoken_balance > 0 && mid.total_unit > 0);
            if w.2 > 0 {
                let xc = if input_is_fis {
                    mid.fis_balance as int
                } else {
                    mid.rtoken_balance as int
                };
                let yc = if input_is_fis {
                    mid.rtoken_balance as int
                } else {
                    mid.fis_balance as int
                };
                lemma_swap_bounds(w.2 as u128 as int, xc, yc);
                lemma_output_below_reserve(w.2 as u128 as int, xc, yc);
            }
        } else {
            lemma_scaled_share(fb, pv, pv);
            lemma_div_by_multiple(fb, pv);
            lemma_div_by_multiple(rb, pv);
            assert(pv * fb == fb * pv && pv * rb == rb * pv) by (nonlinear_arith);
        }
    }
}

/// `a / d < q` when `a < d·q`.
pub proof fn lemma_div_strictly_below(a: int, d: int, q: int)
    requires
        0 <= a < d * q,
        0 < d,
    ensures
        a / d < q,
{
    assert(a / d < q) by (nonlinear_arith)
        requires
            0 <= a < d * q,
            0 < d,
    {
        assert(d * (a / d) <= a) by (nonlinear_arith)
            requires
                0 <= a,
                0 < d,
        ;
    }
}

/// A swap's output is strictly below a non-empty output reserve.
pub proof fn lemma_output_below_reserve(x: int, xc: int, yc: int)
    requires
        0 < x,
        0 < xc,
        0 < yc,
    ensures
        swap_output(x, xc, yc) < yc,
{
    lemma_swap_bounds(x, xc, yc);
    assert(swap_output(x, xc, yc) < yc) by (nonlinear_arith)
        requires
            (x + xc) * swap_output(x, xc, yc) <= x * yc,
            0 < x,
            0 < xc,
            0 < yc,
    ;
}

} // verus!

verus! {

/// Output plus fee of any swap is at most `x·Y / (x+X)`, `X` the input-side and `Y`
/// the output-side reserve.
pub proof fn lemma_swap_result_bound(fis: u128, rtoken: u128, x: u128, input_is_fis: bool)
    requires
        x + input_reserve(fis as int, rtoken as int, input_is_fis) > 0,
    ensures
        swap_result(fis as int, rtoken as int, x as int, input_is_fis).0 + swap_result(
            fis as int,
            rtoken as int,
            x as int,
            input_is_fis,
        ).1 <= x * output_reserve(fis as int, rtoken as int, input_is_fis) / (x
            + input_reserve(fis as int, rtoken as int, input_is_fis)),
{
    let xc = input_reserve(fis as int, rtoken as int, input_is_fis);
    let yc = output_reserve(fis as int, rtoken as int, input_is_fis);
    if fis == 0 || rtoken == 0 || x == 0 {
        assert(0 <= x * yc) by (nonlinear_arith)
            requires
                0 <= x,
                0 <= yc,
        ;
        lemma_scaled_share(x * yc, 1, 1);
        assert(0 <= x * yc / (x + xc)) by (nonlinear_arith)
            requires
                0 <= x * yc,
                0 < x + xc,
        ;
    } else {
        lemma_swap_bounds(x as int, xc, yc);
    }
}

/// A swap with a non-zero input does not shrink the product of the reserves, provided
/// the input side does not saturate at `u128::MAX`.
pub proof fn lemma_swap_keeps_product(
    pool: SwapPool,
    input_amount: u128,
    min_out_amount: u128,
    input_is_fis: bool,
    user_fis_free: u128,
    user_rtoken_free: u128,
)
    requires
        input_amount > 0,
        input_reserve(pool.fis_balance as int, pool.rtoken_balance as int, input_is_fis)
            + input_amount <= u128::MAX,
        swap_outcome(
            pool,
            input_amount,
            min_out_amount,
            input_is_fis,
            user_fis_free,
            user_rtoken_free,
        ).is_ok(),
    ensures
        ({
            let after = swap_outcome(
                pool,
                input_amount,
                min_out_amount,
                input_is_fis,
                user_fis_free,
                user_rtoken_free,
            ).unwrap().0;
            after.fis_balance * after.rtoken_balance >= pool.fis_balance * pool.rtoken_balance
        }),
{
    let x = input_amount as int;
    let xc = input_reserve(pool.fis_balance as int, pool.rtoken_balance as int, input_is_fis);
    let yc = output_reserve(pool.fis_balance as int, pool.rtoken_balance as int, input_is_fis);
    lemma_swap_bounds(x, xc, yc);
    let y = swap_output(x, xc, yc);
    assert((xc + x) * (yc - y) >= xc * yc) by (nonlinear_arith)
        requires
            (x + xc) * y <= x * yc,
            0 <= y <= yc,
            0 < x,
    ;
    assert(xc * yc == yc * xc && (xc + x) * (yc - y) == (yc - y) * (xc + x)) by (nonlinear_arith);
}

/// The LP-unit formula is symmetric in the two sides of the pool, but for a bootstrap
/// deposit into a pool with an empty side, which grants the FIS amount.
pub proof fn lemma_pool_unit_symmetric(p: u128, fb: u128, rb: u128, f: u128, r: u128)
    requires
        (fb > 0 && rb > 0) || fb + f == 0 || rb + r == 0 || f == r,
    ensures
        pool_unit_result(p as int, fb as int, rb as int, f as int, r as int) == pool_unit_result(
            p as int,
            rb as int,
            fb as int,
            r as int,
            f as int,
        ),
{
    if fb > 0 && rb > 0 && !(f == 0 && r == 0) {
        assert(fb * r + f * rb == rb * f + r * fb && rb * fb * 2 == fb * rb * 2) by (
        nonlinear_arith);
        assert(raw_units(p as int, fb as int, rb as int, f as int, r as int) == raw_units(
            p as int,
            rb as int,
            fb as int,
            r as int,
            f as int,
        ));
        assert(fb * r == r * fb && f * rb == rb * f) by (nonlinear_arith);
        assert(slip_magnitude(fb as int, rb as int, f as int, r as int) == slip_magnitude(
            rb as int,
            fb as int,
            r as int,
            f as int,
        ));
        assert((f + fb) * (r + rb) == (r + rb) * (f + fb)) by (nonlinear_arith);
    }
}

/// Creating a pool and then removing all of its units without an internal swap pays the
/// creator back exactly what was deposited, and leaves the pool empty.
pub proof fn lemma_create_then_remove_all(
    symbol: RSymbol,
    rtoken_amount: u128,
    fis_amount: u128,
    user_rtoken_free: u128,
    user_fis_free: u128,
    pallet_fis_free: u128,
    pallet_rtoken_free: u128,
)
    requires
        create_outcome(symbol, rtoken_amount, fis_amount, user_rtoken_free, user_fis_free).is_ok(),
        pallet_fis_free >= fis_amount,
        pallet_rtoken_free >= rtoken_amount,
    ensures
        ({
            let (pool, minted) = create_outcome(
                symbol,
                rtoken_amount,
                fis_amount,
                user_rtoken_free,
                user_fis_free,
            ).unwrap();
            let removed = remove_outcome(
                pool,
                minted,
                0,
                true,
                minted,
                pallet_fis_free,
                pallet_rtoken_free,
            );
            removed.is_ok() && removed.unwrap().1 == fis_amount && removed.unwrap().2
                == rtoken_amount && removed.unwrap().0.total_unit == 0
                && removed.unwrap().0.fis_balance == 0 && removed.unwrap().0.rtoken_balance == 0
        }),
{
    let f = fis_amount as int;
    let r = rtoken_amount as int;
    assert(f * f == f * f && f * r == r * f) by (nonlinear_arith);
    lemma_div_by_multiple(f, f);
    lemma_div_by_multiple(r, f);
    assert(0 * f == 0);
}

} // verus!

verus! {

/// A new pool's units are exactly the units minted to its creator.
pub proof fn lemma_create_units_match_supply(
    symbol: RSymbol,
    rtoken_amount: u128,
    fis_amount: u128,
    user_rtoken_free: u128,
    user_fis_free: u128,
)
    requires
        create_outcome(symbol, rtoken_amount, fis_amount, user_rtoken_free, user_fis_free).is_ok(),
    ensures
        ({
            let (pool, minted) = create_outcome(
                symbol,
                rtoken_amount,
                fis_amount,
                user_rtoken_free,
                user_fis_free,
            ).unwrap();
            pool.total_unit == minted
        }),
{
}

/// Where the units held equal a consistent pool's units, they still do after a deposit
/// mints its units, unless the new total would pass `u128::MAX`.
pub proof fn lemma_add_units_match_supply(
    pool: SwapPool,
    rtoken_amount: u128,
    fis_amount: u128,
    user_rtoken_free: u128,
    user_fis_free: u128,
    supply: int,
)
    requires
        pool_consistent(pool),
        supply == pool.total_unit,
        pool_unit_result(
            pool.total_unit as int,
            pool.fis_balance as int,
            pool.rtoken_balance as int,
            fis_amount as int,
            rtoken_amount as int,
        ).0 <= u128::MAX,
        add_outcome(pool, rtoken_amount, fis_amount, user_rtoken_free, user_fis_free).is_ok(),
    ensures
        ({
            let (after, minted) = add_outcome(
                pool,
                rtoken_amount,
                fis_amount,
                user_rtoken_free,
                user_fis_free,
            ).unwrap();
            supply + minted == after.total_unit
        }),
{
    if pool.total_unit > 0 {
        lemma_added_units_nonneg(
            pool.total_unit as int,
            pool.fis_balance as int,
            pool.rtoken_balance as int,
            fis_amount as int,
            rtoken_amount as int,
        );
    }
}

/// Where the units held equal the pool's units, and the remover holds no more than
/// that, they still do after a removal burns its units.
pub proof fn lemma_remove_units_match_supply(
    pool: SwapPool,
    rm_unit: u128,
    swap_unit: u128,
    input_is_fis: bool,
    lp_unit: u128,
    pallet_fis_free: u128,
    pallet_rtoken_free: u128,
    supply: int,
)
    requires
        supply == pool.total_unit,
        lp_unit <= supply,
        remove_outcome(
            pool,
            rm_unit,
            swap_unit,
            input_is_fis,
            lp_unit,
            pallet_fis_free,
            pallet_rtoken_free,
        ).is_ok(),
    ensures
        supply - rm_unit == remove_outcome(
            pool,
            rm_unit,
            swap_unit,
            input_is_fis,
            lp_unit,
            pallet_fis_free,
            pallet_rtoken_free,
        ).unwrap().0.total_unit,
{
}

/// `n − d·⌊n/d⌋` lies in `[0, d)`.
pub proof fn lemma_floor_remainder(n: int, d: int)
    requires
        0 <= n,
        0 < d,
    ensures
        0 <= n - d * (n / d) < d,
{
    assert(0 <= n - d * (n / d) < d) by (nonlinear_arith)
        requires
            0 <= n,
            0 < d,
    ;
}

/// A proportional deposit followed by removing exactly the units it minted, with no
/// internal swap, restores the pool's units and leaves each reserve at its share
/// `(F+f)·P/(P+a)` rounded up by less than one unit; that share keeps the pool's ratio.
pub proof fn lemma_add_then_remove_keeps_ratio(
    pool: SwapPool,
    rtoken_amount: u128,
    fis_amount: u128,
    user_rtoken_free: u128,
    user_fis_free: u128,
    pallet_fis_free: u128,
    pallet_rtoken_free: u128,
)
    requires
        pool.total_unit > 0,
        pool.fis_balance > 0,
        pool.rtoken_balance > 0,
        fis_amount * pool.rtoken_balance == rtoken_amount * pool.fis_balance,
        pool.fis_balance + fis_amount <= u128::MAX,
        pool.rtoken_balance + rtoken_amount <= u128::MAX,
        pool_unit_result(
            pool.total_unit as int,
            pool.fis_balance as int,
            pool.rtoken_balance as int,
            fis_amount as int,
            rtoken_amount as int,
        ).0 <= u128::MAX,
        add_outcome(pool, rtoken_amount, fis_amount, user_rtoken_free, user_fis_free).is_ok(),
        ({
            let (mid, minted) = add_outcome(
                pool,
                rtoken_amount,
                fis_amount,
                user_rtoken_free,
                user_fis_free,
            ).unwrap();
            remove_outcome(
                mid,
                minted,
                0,
                true,
                minted,
                pallet_fis_free,
                pallet_rtoken_free,
            ).is_ok()
        }),
    ensures
        ({
            let (mid, minted) = add_outcome(
                pool,
                rtoken_amount,
                fis_amount,
                user_rtoken_free,
                user_fis_free,
            ).unwrap();
            let after = remove_outcome(
                mid,
                minted,
                0,
                true,
                minted,
                pallet_fis_free,
                pallet_rtoken_free,
            ).unwrap().0;
            let p = pool.total_unit as int;
            let grown = p + minted;
            let fis_sum = pool.fis_balance + fis_amount;
            let rtoken_sum = pool.rtoken_balance + rtoken_amount;
            &&& after.total_unit == pool.total_unit
            &&& 0 <= after.fis_balance * grown - fis_sum * p < grown
            &&& 0 <= after.rtoken_balance * grown - rtoken_sum * p < grown
            &&& fis_sum * pool.rtoken_balance == rtoken_sum * pool.fis_balance
        }),
{
    let (mid, minted) = add_outcome(
        pool,
        rtoken_amount,
        fis_amount,
        user_rtoken_free,
        user_fis_free,
    ).unwrap();
    let p = pool.total_unit as int;
    let a = minted as int;
    let grown = p + a;
    let fs = pool.fis_balance + fis_amount;
    let rs = pool.rtoken_balance + rtoken_amount;
    lemma_added_units_nonneg(
        p,
        pool.fis_balance as int,
        pool.rtoken_balance as int,
        fis_amount as int,
        rtoken_amount as int,
    );
    assert(mid.total_unit == grown && mid.fis_balance == fs && mid.rtoken_balance == rs);
    assert(0 <= a * fs && 0 <= a * rs) by (nonlinear_arith)
        requires
            0 <= a,
            0 <= fs,
            0 <= rs,
    ;
    lemma_scaled_share(fs, a, grown);
    lemma_scaled_share(rs, a, grown);
    assert(a * fs == fs * a && a * rs == rs * a) by (nonlinear_arith);
    lemma_floor_remainder(a * fs, grown);
    lemma_floor_remainder(a * rs, grown);
    let wf = a * fs / grown;
    let wr = a * rs / grown;
    assert((fs - wf) * grown - fs * p == a * fs - grown * wf) by (nonlinear_arith)
        requires
            grown == p + a,
    ;
    assert((rs - wr) * grown - rs * p == a * rs - grown * wr) by (nonlinear_arith)
        requires
            grown == p + a,
    ;
    assert(0 * fs == 0);
    assert(a <= grown);
    assert(remove_result(grown, a, 0, fs, rs, true) == (wf, wr, 0int));
    let after = remove_outcome(
        mid,
        minted,
        0,
        true,
        minted,
        pallet_fis_free,
        pallet_rtoken_free,
    ).unwrap().0;
    assert(after == withdrawn_pool(mid, minted, wf, wr));
    assert(after.total_unit == p);
    assert(after.fis_balance == fs - wf);
    assert(after.rtoken_balance == rs - wr);
    assert(fs * pool.rtoken_balance == rs * pool.fis_balance) by (nonlinear_arith)
        requires
            fis_amount * pool.rtoken_balance == rtoken_amount * pool.fis_balance,
            fs == pool.fis_balance + fis_amount,
            rs == pool.rtoken_balance + rtoken_amount,
    ;
}

} // verus!

verus! {

/// Removing, without a swap, exactly the units a deposit into a non-empty pool minted
/// pays out in the pool's new ratio up to one unit per side:
/// `|wF·(R+r) − wR·(F+f)| < max(F+f, R+r)`. For a deposit in the pool's ratio
/// (`f·R = r·F`) it never pays out more than was deposited on either side.
pub proof fn lemma_withdrawal_keeps_ratio(
    p: int,
    fb: int,
    rb: int,
    f: int,
    r: int,
    input_is_fis: bool,
)
    requires
        p > 0,
        fb > 0,
        rb > 0,
        f >= 0,
        r >= 0,
        !(f == 0 && r == 0),
        pool_unit_result(p, fb, rb, f, r).1 > 0,
    ensures
        ({
            let a = pool_unit_result(p, fb, rb, f, r).1;
            let t = pool_unit_result(p, fb, rb, f, r).0;
            let x = fb + f;
            let y = rb + r;
            let w = remove_result(t, a, 0, x, y, input_is_fis);
            &&& t == p + a
            &&& w.2 == 0
            &&& w.0 == a * x / t
            &&& w.1 == a * y / t
            &&& -(if x > y { x } else { y }) < w.0 * y - w.1 * x < (if x > y { x } else { y })
            &&& f * rb == r * fb ==> w.0 <= f && w.1 <= r
        }),
{
    let a = pool_unit_result(p, fb, rb, f, r).1;
    let t = p + a;
    let x = fb + f;
    let y = rb + r;
    lemma_added_units_nonneg(p, fb, rb, f, r);
    assert(a <= t);
    assert(0 * x == 0 && 0 * y == 0);
    assert(0 * input_reserve(x, y, input_is_fis) == 0);
    let wf = a * x / t;
    let wr = a * y / t;
    assert(0 <= a * x && 0 <= a * y) by (nonlinear_arith)
        requires
            0 <= a,
            0 < x,
            0 < y,
    ;
    lemma_floor_remainder(a * x, t);
    lemma_floor_remainder(a * y, t);
    let e1 = a * x - t * wf;
    let e2 = a * y - t * wr;
    let m = if x > y { x } else { y };
    assert(t * (wf * y - wr * x) == e2 * x - e1 * y) by (nonlinear_arith)
        requires
            e1 == a * x - t * wf,
            e2 == a * y - t * wr,
    ;
    assert(-(t * m) < e2 * x - e1 * y < t * m) by (nonlinear_arith)
        requires
            0 <= e1 < t,
            0 <= e2 < t,
            0 < x <= m,
            0 < y <= m,
    ;
    assert(-m < wf * y - wr * x < m) by (nonlinear_arith)
        requires
            t * (wf * y - wr * x) == e2 * x - e1 * y,
            -(t * m) < e2 * x - e1 * y < t * m,
            0 < t,
    ;
    if f * rb == r * fb {
        // the deposit is in ratio: no slip, and the raw units are at most P·f/F
        assert(fb * r == f * rb) by (nonlinear_arith)
            requires
                f * rb == r * fb,
        ;
        assert(slip_magnitude(fb, rb, f, r) == 0);
        let den = (f + fb) * (r + rb);
        assert(den > 0) by (nonlinear_arith)
            requires
                f >= 0,
                r >= 0,
                fb > 0,
                rb > 0,
                den == (f + fb) * (r + rb),
        ;
        assert(raw_units(p, fb, rb, f, r) * 0 == 0);
        assert(slip_units(p, fb, rb, f, r) == 0);
        assert(a == raw_units(p, fb, rb, f, r));
        let num = fb * r + f * rb;
        let rden = rb * fb * 2;
        assert(rden > 0 && num == 2 * (f * rb)) by (nonlinear_arith)
            requires
                fb > 0,
                rb > 0,
                rden == rb * fb * 2,
                num == fb * r + f * rb,
                fb * r == f * rb,
        ;
        assert(0 <= p * num) by (nonlinear_arith)
            requires
                0 < p,
                num == 2 * (f * rb),
                0 <= f,
                0 < rb,
        ;
        assert(rden * a <= p * num) by (nonlinear_arith)
            requires
                a == p * num / rden,
                rden > 0,
                0 <= p * num,
        ;
        assert(a * fb <= p * f && a * rb <= p * r) by (nonlinear_arith)
            requires
                rden * a <= p * num,
                rden == rb * fb * 2,
                num == 2 * (f * rb),
                fb * r == f * rb,
                fb > 0,
                rb > 0,
                a >= 0,
                p > 0,
        ;
        assert(a * x <= t * f && a * y <= t * r) by (nonlinear_arith)
            requires
                a * fb <= p * f,
                a * rb <= p * r,
                t == p + a,
                x == fb + f,
                y == rb + r,
        ;
        lemma_div_at_most(a * x, t, f);
        lemma_div_at_most(a * y, t, r);
    }
}

} // verus!
