//! The swap engine: one FIS/rTOKEN pool per symbol, with liquidity units.
use vstd::prelude::*;
use crate::primitives::{RSymbol, symbol_index};
use crate::swap_math::{
    cap_u128, input_reserve, lemma_mul_below, lemma_raw_units_bound, lemma_scaled_share,
    lemma_slip_magnitude_bound, lemma_swap_bounds, output_reserve, pool_unit_result, raw_units,
    remove_result, slip_magnitude, slip_units, swap_fee, swap_output, swap_result,
};
use crate::wide::{
    Wide, lemma_words_value_nonneg, u128_limit, wide_as_u128, wide_div_or_zero, wide_from_u128,
    wide_gt, wide_limit, wide_saturating_add, wide_saturating_mul, wide_saturating_sub,
};

verus! {

/// The reserves and the outstanding liquidity units of one symbol's pool.
#[derive(Clone, Copy, Debug, PartialEq, Eq, Structural)]
pub struct SwapPool {
    pub symbol: RSymbol,
    pub fis_balance: u128,
    pub rtoken_balance: u128,
    pub total_unit: u128,
}

/// Why a swap-engine operation was rejected.
#[derive(Clone, Copy, Debug, PartialEq, Eq, Structural)]
pub enum SwapError {
    AmountZero,
    AmountAllZero,
    PoolAlreadyExist,
    PoolNotExist,
    UserRTokenAmountNotEnough,
    UserFisAmountNotEnough,
    PoolFisBalanceNotEnough,
    PoolRTokenBalanceNotEnough,
    UnitAmountImproper,
    SwapAmountTooFew,
    LessThanMinOutAmount,
}

/// A swap of `input_amount` on `pool`: the pool afterwards, the output and the fee.
/// The user's FIS balance must exceed the input (one unit stays behind); an rTOKEN
/// balance need only cover it.
pub open spec fn swap_outcome(
    pool: SwapPool,
    input_amount: u128,
    min_out_amount: u128,
    input_is_fis: bool,
    user_fis_free: u128,
    user_rtoken_free: u128,
) -> Result<(SwapPool, u128, u128), SwapError> {
    let (y, fee) = swap_result(
        pool.fis_balance as int,
        pool.rtoken_balance as int,
        input_amount as int,
        input_is_fis,
    );
    if input_amount == 0 || min_out_amount == 0 {
        Err(SwapError::AmountZero)
    } else if y == 0 {
        Err(SwapError::SwapAmountTooFew)
    } else if y < min_out_amount {
        Err(SwapError::LessThanMinOutAmount)
    } else if input_is_fis {
        if user_fis_free <= input_amount {
            Err(SwapError::UserFisAmountNotEnough)
        } else if y >= pool.rtoken_balance {
            Err(SwapError::PoolRTokenBalanceNotEnough)
        } else {
            Ok(
                (
                    SwapPool {
                        fis_balance: pool.fis_balance.saturating_add(input_amount),
                        rtoken_balance: (pool.rtoken_balance - y) as u128,
                        ..pool
                    },
                    y as u128,
                    fee as u128,
                ),
            )
        }
    } else {
        if user_rtoken_free < input_amount {
            Err(SwapError::UserRTokenAmountNotEnough)
        } else if y >= pool.fis_balance {
            Err(SwapError::PoolFisBalanceNotEnough)
        } else {
            Ok(
                (
                    SwapPool {
                        rtoken_balance: pool.rtoken_balance.saturating_add(input_amount),
                        fis_balance: (pool.fis_balance - y) as u128,
                        ..pool
                    },
                    y as u128,
                    fee as u128,
                ),
            )
        }
    }
}

/// A deposit into `pool`: the pool afterwards and the units minted to the depositor.
pub open spec fn add_outcome(
    pool: SwapPool,
    rtoken_amount: u128,
    fis_amount: u128,
    user_rtoken_free: u128,
    user_fis_free: u128,
) -> Result<(SwapPool, u128), SwapError> {
    let units = pool_unit_result(
        pool.total_unit as int,
        pool.fis_balance as int,
        pool.rtoken_balance as int,
        fis_amount as int,
        rtoken_amount as int,
    );
    if fis_amount == 0 && rtoken_amount == 0 {
        Err(SwapError::AmountAllZero)
    } else if user_rtoken_free < rtoken_amount {
        Err(SwapError::UserRTokenAmountNotEnough)
    } else if user_fis_free <= fis_amount {
        Err(SwapError::UserFisAmountNotEnough)
    } else {
        Ok(
            (
                SwapPool {
                    total_unit: cap_u128(units.0) as u128,
                    fis_balance: pool.fis_balance.saturating_add(fis_amount),
                    rtoken_balance: pool.rtoken_balance.saturating_add(rtoken_amount),
                    ..pool
                },
                cap_u128(units.1) as u128,
            ),
        )
    }
}

/// The pool after the proportional withdrawal of a removal, before its internal swap.
pub open spec fn withdrawn_pool(pool: SwapPool, rm_unit: u128, rm_fis: int, rm_rtoken: int) -> SwapPool {
    SwapPool {
        total_unit: pool.total_unit.saturating_sub(rm_unit),
        fis_balance: pool.fis_balance.saturating_sub(rm_fis as u128),
        rtoken_balance: pool.rtoken_balance.saturating_sub(rm_rtoken as u128),
        ..pool
    }
}

/// `(pool, fis out, rtoken out)` after the internal swap of `swap_in` on the side that
/// `input_is_fis` names, starting from `pool` and the proportional amounts.
pub open spec fn internal_swap(
    pool: SwapPool,
    rm_fis: u128,
    rm_rtoken: u128,
    swap_in: u128,
    input_is_fis: bool,
) -> (SwapPool, u128, u128) {
    let y = swap_result(
        pool.fis_balance as int,
        pool.rtoken_balance as int,
        swap_in as int,
        input_is_fis,
    ).0 as u128;
    if swap_in == 0 {
        (pool, rm_fis, rm_rtoken)
    } else if input_is_fis {
        (
            SwapPool {
                fis_balance: pool.fis_balance.saturating_add(swap_in),
                rtoken_balance: pool.rtoken_balance.saturating_sub(y),
                ..pool
            },
            rm_fis.saturating_sub(swap_in),
            rm_rtoken.saturating_add(y),
        )
    } else {
        (
            SwapPool {
                rtoken_balance: pool.rtoken_balance.saturating_add(swap_in),
                fis_balance: pool.fis_balance.saturating_sub(y),
                ..pool
            },
            rm_fis.saturating_add(y),
            rm_rtoken.saturating_sub(swap_in),
        )
    }
}

/// A removal of `rm_unit` units by a holder of `lp_unit`: the pool afterwards and the
/// FIS and rTOKEN paid out. The pallet account's balances must cover the payout.
pub open spec fn remove_outcome(
    pool: SwapPool,
    rm_unit: u128,
    swap_unit: u128,
    input_is_fis: bool,
    lp_unit: u128,
    pallet_fis_free: u128,
    pallet_rtoken_free: u128,
) -> Result<(SwapPool, u128, u128), SwapError> {
    let w = remove_result(
        pool.total_unit as int,
        rm_unit as int,
        swap_unit as int,
        pool.fis_balance as int,
        pool.rtoken_balance as int,
        input_is_fis,
    );
    let after = internal_swap(
        withdrawn_pool(pool, rm_unit, w.0, w.1),
        w.0 as u128,
        w.1 as u128,
        w.2 as u128,
        input_is_fis,
    );
    if !(rm_unit > 0 && rm_unit <= lp_unit && rm_unit >= swap_unit) {
        Err(SwapError::UnitAmountImproper)
    } else if pallet_fis_free < after.1 {
        Err(SwapError::PoolFisBalanceNotEnough)
    } else if pallet_rtoken_free < after.2 {
        Err(SwapError::PoolRTokenBalanceNotEnough)
    } else {
        Ok(after)
    }
}

/// A new pool for `symbol`: the pool and the units minted to its creator.
pub open spec fn create_outcome(
    symbol: RSymbol,
    rtoken_amount: u128,
    fis_amount: u128,
    user_rtoken_free: u128,
    user_fis_free: u128,
) -> Result<(SwapPool, u128), SwapError> {
    if fis_amount == 0 || rtoken_amount == 0 {
        Err(SwapError::AmountZero)
    } else if user_rtoken_free < rtoken_amount {
        Err(SwapError::UserRTokenAmountNotEnough)
    } else if user_fis_free <= fis_amount {
        Err(SwapError::UserFisAmountNotEnough)
    } else {
        Ok(
            (
                SwapPool {
                    symbol,
                    fis_balance: fis_amount,
                    rtoken_balance: rtoken_amount,
                    total_unit: fis_amount,
                },
                fis_amount,
            ),
        )
    }
}

/// The swap pallet: the registry of pools, one slot per symbol.
pub struct Module {
    pools: Vec<Option<SwapPool>>,
}

/// The module identifier from which the pallet account is derived.
pub const MODULE_ID: [u8; 8] = [0x72, 0x64, 0x78, 0x2f, 0x73, 0x77, 0x61, 0x70];

/// The pallet account: the bytes `modl`, then the module identifier, then zeros.
pub open spec fn pallet_account() -> Seq<u8> {
    seq![0x6du8, 0x6fu8, 0x64u8, 0x6cu8].add(MODULE_ID@).add(Seq::new(20, |i: int| 0u8))
}

impl Module {
    pub closed spec fn wf(&self) -> bool {
        self.pools@.len() == 8
    }

    /// The pool stored for `symbol`, if any.
    pub closed spec fn pool_of(&self, symbol: RSymbol) -> Option<SwapPool> {
        self.pools@[symbol_index(symbol) as int]
    }

    /// A registry without pools.
    pub fn new() -> (r: Module)
        ensures
            r.wf(),
            forall|s: RSymbol| #[trigger] r.pool_of(s).is_none(),
    {
        let mut pools: Vec<Option<SwapPool>> = Vec::new();
        let mut i: usize = 0;
        while i < 8
            invariant
                i <= 8,
                pools@.len() == i,
                forall|j: int| 0 <= j < i ==> (#[trigger] pools@[j]).is_none(),
            decreases 8 - i,
        {
            pools.push(None);
            i = i + 1;
        }
        Module { pools }
    }

    /// The pool stored for `symbol`, if any.
    pub fn swap_pools(&self, symbol: RSymbol) -> (r: Option<SwapPool>)
        requires
            self.wf(),
        ensures
            r == self.pool_of(symbol),
    {
        self.pools[symbol.index() as usize]
    }

    /// Stores `pool` under `symbol`, replacing what was there.
    pub fn help_set_pool(&mut self, symbol: RSymbol, pool: SwapPool)
        requires
            old(self).wf(),
        ensures
            final(self).wf(),
            final(self).pool_of(symbol) == Some(pool),
            forall|s: RSymbol| s != symbol ==> #[trigger] final(self).pool_of(s) == old(self).pool_of(s),
    {
        self.pools.set(symbol.index() as usize, Some(pool));
        proof {
            assert forall|s: RSymbol| s != symbol implies #[trigger] self.pool_of(s) == old(self).pool_of(s) by {
                assert(symbol_index(s) != symbol_index(symbol));
            }
        }
    }

    /// The account that holds the assets of every pool.
    pub fn account_id() -> (r: [u8; 32])
        ensures
            r@ == pallet_account(),
    {
        let mut r: [u8; 32] = [0u8; 32];
        r.set(0, 0x6d);
        r.set(1, 0x6f);
        r.set(2, 0x64);
        r.set(3, 0x6c);
        let mut i: usize = 0;
        while i < 8
            invariant
                i <= 8,
                r@.len() == 32,
                r@.subrange(0, 4) == seq![0x6du8, 0x6fu8, 0x64u8, 0x6cu8],
                forall|j: int| 0 <= j < i ==> r@[4 + j] == MODULE_ID@[j],
                forall|j: int| 12 <= j < 32 ==> r@[j] == 0u8,
            decreases 8 - i,
        {
            r.set(4 + i, MODULE_ID[i]);
            i = i + 1;
        }
        assert(r@ =~= pallet_account());
        r
    }

    /// Swaps `input_amount` of one side of `symbol`'s pool for the other side.
    /// `user_fis_free` and `user_rtoken_free` are the caller's free balances.
    /// Returns `(output, fee)`; the caller is owed the transfers that go with it.
    pub fn swap(
        &mut self,
        symbol: RSymbol,
        input_amount: u128,
        min_out_amount: u128,
        input_is_fis: bool,
        user_fis_free: u128,
        user_rtoken_free: u128,
    ) -> (r: Result<(u128, u128), SwapError>)
        requires
            old(self).wf(),
        ensures
            final(self).wf(),
            old(self).pool_of(symbol).is_none() ==> r == Err::<(u128, u128), SwapError>(
                SwapError::PoolNotExist,
            ),
            old(self).pool_of(symbol).is_some() ==> match swap_outcome(
                old(self).pool_of(symbol).unwrap(),
                input_amount,
                min_out_amount,
                input_is_fis,
                user_fis_free,
                user_rtoken_free,
            ) {
                Ok((p, y, fee)) => r == Ok::<(u128, u128), SwapError>((y, fee))
                    && final(self).pool_of(symbol) == Some(p),
                Err(e) => r == Err::<(u128, u128), SwapError>(e),
            },
            r.is_err() ==> forall|s: RSymbol| #[trigger] final(self).pool_of(s) == old(self).pool_of(s),
            forall|s: RSymbol| s != symbol ==> #[trigger] final(self).pool_of(s) == old(self).pool_of(s),
    {
        let mut pool = match self.swap_pools(symbol) {
            Some(p) => p,
            None => {
                return Err(SwapError::PoolNotExist);
            },
        };
        if !(input_amount > 0 && min_out_amount > 0) {
            return Err(SwapError::AmountZero);
        }
        let (result, fee) = Self::cal_swap_result(
            pool.fis_balance,
            pool.rtoken_balance,
            input_amount,
            input_is_fis,
        );
        if result == 0 {
            return Err(SwapError::SwapAmountTooFew);
        }
        if result < min_out_amount {
            return Err(SwapError::LessThanMinOutAmount);
        }
        if input_is_fis {
            if !(user_fis_free > input_amount) {
                return Err(SwapError::UserFisAmountNotEnough);
            }
            if !(result < pool.rtoken_balance) {
                return Err(SwapError::PoolRTokenBalanceNotEnough);
            }
            pool.fis_balance = pool.fis_balance.saturating_add(input_amount);
            pool.rtoken_balance = pool.rtoken_balance - result;
        } else {
            if !(user_rtoken_free >= input_amount) {
                return Err(SwapError::UserRTokenAmountNotEnough);
            }
            if !(result < pool.fis_balance) {
                return Err(SwapError::PoolFisBalanceNotEnough);
            }
            pool.rtoken_balance = pool.rtoken_balance.saturating_add(input_amount);
            pool.fis_balance = pool.fis_balance - result;
        }
        self.help_set_pool(symbol, pool);
        Ok((result, fee))
    }

    /// Deposits `fis_amount` FIS and `rtoken_amount` rTOKEN into `symbol`'s pool.
    /// Returns `(new total units, units minted to the depositor)`.
    pub fn add_liquidity(
        &mut self,
        symbol: RSymbol,
        rtoken_amount: u128,
        fis_amount: u128,
        user_rtoken_free: u128,
        user_fis_free: u128,
    ) -> (r: Result<(u128, u128), SwapError>)
        requires
            old(self).wf(),
        ensures
            final(self).wf(),
            old(self).pool_of(symbol).is_none() ==> r == Err::<(u128, u128), SwapError>(
                SwapError::PoolNotExist,
            ),
            old(self).pool_of(symbol).is_some() ==> match add_outcome(
                old(self).pool_of(symbol).unwrap(),
                rtoken_amount,
                fis_amount,
                user_rtoken_free,
                user_fis_free,
            ) {
                Ok((p, minted)) => r == Ok::<(u128, u128), SwapError>((p.total_unit, minted))
                    && final(self).pool_of(symbol) == Some(p),
                Err(e) => r == Err::<(u128, u128), SwapError>(e),
            },
            r.is_err() ==> forall|s: RSymbol| #[trigger] final(self).pool_of(s) == old(self).pool_of(s),
            forall|s: RSymbol| s != symbol ==> #[trigger] final(self).pool_of(s) == old(self).pool_of(s),
    {
        let mut pool = match self.swap_pools(symbol) {
            Some(p) => p,
            None => {
                return Err(SwapError::PoolNotExist);
            },
        };
        if !(fis_amount > 0 || rtoken_amount > 0) {
            return Err(SwapError::AmountAllZero);
        }
        if !(user_rtoken_free >= rtoken_amount) {
            return Err(SwapError::UserRTokenAmountNotEnough);
        }
        if !(user_fis_free > fis_amount) {
            return Err(SwapError::UserFisAmountNotEnough);
        }
        let (new_total_pool_unit, add_lp_unit) = Self::cal_pool_unit(
            pool.total_unit,
            pool.fis_balance,
            pool.rtoken_balance,
            fis_amount,
            rtoken_amount,
        );
        pool.total_unit = new_total_pool_unit;
        pool.fis_balance = pool.fis_balance.saturating_add(fis_amount);
        pool.rtoken_balance = pool.rtoken_balance.saturating_add(rtoken_amount);
        self.help_set_pool(symbol, pool);
        Ok((new_total_pool_unit, add_lp_unit))
    }

    /// Removes `rm_unit` of the caller's `lp_unit` units from `symbol`'s pool; `swap_unit`
    /// of them are paid out on the side opposite to `input_is_fis` by an internal swap.
    /// `pallet_fis_free` and `pallet_rtoken_free` are the pallet account's balances.
    /// Returns the `(FIS, rTOKEN)` paid out; the caller burns `rm_unit` units.
    pub fn remove_liquidity(
        &mut self,
        symbol: RSymbol,
        rm_unit: u128,
        swap_unit: u128,
        input_is_fis: bool,
        lp_unit: u128,
        pallet_fis_free: u128,
        pallet_rtoken_free: u128,
    ) -> (r: Result<(u128, u128), SwapError>)
        requires
            old(self).wf(),
        ensures
            final(self).wf(),
            old(self).pool_of(symbol).is_none() ==> r == Err::<(u128, u128), SwapError>(
                SwapError::PoolNotExist,
            ),
            old(self).pool_of(symbol).is_some() ==> match remove_outcome(
                old(self).pool_of(symbol).unwrap(),
                rm_unit,
                swap_unit,
                input_is_fis,
                lp_unit,
                pallet_fis_free,
                pallet_rtoken_free,
            ) {
                Ok((p, out_fis, out_rtoken)) => r == Ok::<(u128, u128), SwapError>(
                    (out_fis, out_rtoken),
                ) && final(self).pool_of(symbol) == Some(p),
                Err(e) => r == Err::<(u128, u128), SwapError>(e),
            },
            r.is_err() ==> forall|s: RSymbol| #[trigger] final(self).pool_of(s) == old(self).pool_of(s),
            forall|s: RSymbol| s != symbol ==> #[trigger] final(self).pool_of(s) == old(self).pool_of(s),
    {
        let mut pool = match self.swap_pools(symbol) {
            Some(p) => p,
            None => {
                return Err(SwapError::PoolNotExist);
            },
        };
        if !(rm_unit > 0 && rm_unit <= lp_unit && rm_unit >= swap_unit) {
            return Err(SwapError::UnitAmountImproper);
        }
        let (mut rm_fis_amount, mut rm_rtoken_amount, swap_input_amount) = Self::cal_remove_result(
            pool.total_unit,
            rm_unit,
            swap_unit,
            pool.fis_balance,
            pool.rtoken_balance,
            input_is_fis,
        );
        pool.total_unit = pool.total_unit.saturating_sub(rm_unit);
        pool.fis_balance = pool.fis_balance.saturating_sub(rm_fis_amount);
        pool.rtoken_balance = pool.rtoken_balance.saturating_sub(rm_rtoken_amount);
        if swap_input_amount > 0 {
            let (swap_result, _) = Self::cal_swap_result(
                pool.fis_balance,
                pool.rtoken_balance,
                swap_input_amount,
                input_is_fis,
            );
            if input_is_fis {
                pool.fis_balance = pool.fis_balance.saturating_add(swap_input_amount);
                pool.rtoken_balance = pool.rtoken_balance.saturating_sub(swap_result);
                rm_fis_amount = rm_fis_amount.saturating_sub(swap_input_amount);
                rm_rtoken_amount = rm_rtoken_amount.saturating_add(swap_result);
            } else {
                pool.rtoken_balance = pool.rtoken_balance.saturating_add(swap_input_amount);
                pool.fis_balance = pool.fis_balance.saturating_sub(swap_result);
                rm_rtoken_amount = rm_rtoken_amount.saturating_sub(swap_input_amount);
                rm_fis_amount = rm_fis_amount.saturating_add(swap_result);
            }
        }
        if !(pallet_fis_free >= rm_fis_amount) {
            return Err(SwapError::PoolFisBalanceNotEnough);
        }
        if !(pallet_rtoken_free >= rm_rtoken_amount) {
            return Err(SwapError::PoolRTokenBalanceNotEnough);
        }
        self.help_set_pool(symbol, pool);
        Ok((rm_fis_amount, rm_rtoken_amount))
    }

    /// Opens `symbol`'s pool with `who`'s deposit of `fis_amount` FIS and
    /// `rtoken_amount` rTOKEN. Returns `(total units, units minted to who)`.
    pub fn create_pool(
        &mut self,
        symbol: RSymbol,
        rtoken_amount: u128,
        fis_amount: u128,
        user_rtoken_free: u128,
        user_fis_free: u128,
    ) -> (r: Result<(u128, u128), SwapError>)
        requires
            old(self).wf(),
        ensures
            final(self).wf(),
            old(self).pool_of(symbol).is_some() ==> r == Err::<(u128, u128), SwapError>(
                SwapError::PoolAlreadyExist,
            ),
            old(self).pool_of(symbol).is_none() ==> match create_outcome(
                symbol,
                rtoken_amount,
                fis_amount,
                user_rtoken_free,
                user_fis_free,
            ) {
                Ok((p, minted)) => r == Ok::<(u128, u128), SwapError>((p.total_unit, minted))
                    && final(self).pool_of(symbol) == Some(p),
                Err(e) => r == Err::<(u128, u128), SwapError>(e),
            },
            r.is_err() ==> forall|s: RSymbol| #[trigger] final(self).pool_of(s) == old(self).pool_of(s),
            forall|s: RSymbol| s != symbol ==> #[trigger] final(self).pool_of(s) == old(self).pool_of(s),
    {
        if self.swap_pools(symbol).is_some() {
            return Err(SwapError::PoolAlreadyExist);
        }
        if !(fis_amount > 0 && rtoken_amount > 0) {
            return Err(SwapError::AmountZero);
        }
        if !(user_rtoken_free >= rtoken_amount) {
            return Err(SwapError::UserRTokenAmountNotEnough);
        }
        if !(user_fis_free > fis_amount) {
            return Err(SwapError::UserFisAmountNotEnough);
        }
        let (pool_unit, lp_unit) = Self::cal_pool_unit(0, 0, 0, fis_amount, rtoken_amount);
        let pool = SwapPool {
            symbol: symbol,
            fis_balance: fis_amount,
            rtoken_balance: rtoken_amount,
            total_unit: pool_unit,
        };
        self.help_set_pool(symbol, pool);
        Ok((pool_unit, lp_unit))
    }
    /// Narrows to `u128`, stopping at `u128::MAX`.
    pub fn safe_to_u128(number: Wide) -> (r: u128)
        ensures
            r as int == cap_u128(number.value()),
    {
        proof {
            lemma_words_value_nonneg(number.words@);
        }
        if wide_gt(number, wide_from_u128(u128::MAX)) {
            u128::MAX
        } else {
            wide_as_u128(number)
        }
    }

    /// `(output, fee)` of swapping `input_amount` into the pool: output `x·X·Y/(x+X)²` and
    /// fee `x²·Y/(x+X)²`, `X` the input-side and `Y` the output-side reserve.
    pub fn cal_swap_result(
        fis_balance: u128,
        rtoken_balance: u128,
        input_amount: u128,
        input_is_fis: bool,
    ) -> (r: (u128, u128))
        ensures
            r.0 as int == swap_result(
                fis_balance as int,
                rtoken_balance as int,
                input_amount as int,
                input_is_fis,
            ).0,
            r.1 as int == swap_result(
                fis_balance as int,
                rtoken_balance as int,
                input_amount as int,
                input_is_fis,
            ).1,
    {
        if fis_balance == 0 || rtoken_balance == 0 || input_amount == 0 {
            return (0, 0);
        }
        let x = wide_from_u128(input_amount);
        let (x_capital, y_capital) = if input_is_fis {
            (wide_from_u128(fis_balance), wide_from_u128(rtoken_balance))
        } else {
            (wide_from_u128(rtoken_balance), wide_from_u128(fis_balance))
        };
        let ghost xv = input_amount as int;
        let ghost xc = input_reserve(fis_balance as int, rtoken_balance as int, input_is_fis);
        let ghost yc = output_reserve(fis_balance as int, rtoken_balance as int, input_is_fis);
        let ghost b = u128_limit();
        assert(wide_limit() == b * b * b * b);
        assert(xv < b && xc < b && yc < b);
        let t = wide_saturating_add(x, x_capital);
        assert(t.value() == xv + xc);
        let denominator = wide_saturating_mul(t, t);
        proof {
            lemma_mul_below(xv + xc, xv + xc, 2 * b, 2 * b);
            lemma_mul_below(xv, xc, b, b);
            lemma_mul_below(xv, xv, b, b);
            lemma_mul_below(xv * xc, yc, b * b, b);
            lemma_mul_below(xv * xv, yc, b * b, b);
            assert(2 * b * (2 * b) < wide_limit()) by (nonlinear_arith)
                requires
                    b == u128_limit(),
                    wide_limit() == b * b * b * b,
            ;
            assert(b * b * b < wide_limit()) by (nonlinear_arith)
                requires
                    b == u128_limit(),
                    wide_limit() == b * b * b * b,
            ;
            lemma_swap_bounds(xv, xc, yc);
        }
        let xx_capital = wide_saturating_mul(x, x_capital);
        let xx = wide_saturating_mul(x, x);
        assert(denominator.value() == (xv + xc) * (xv + xc));
        assert((xv + xc) * (xv + xc) > 0) by (nonlinear_arith)
            requires
                xv > 0,
                xc > 0,
        ;
        assert(xx_capital.value() == xv * xc);
        assert(xx.value() == xv * xv);
        let y_numerator = wide_saturating_mul(xx_capital, y_capital);
        let fee_numerator = wide_saturating_mul(xx, y_capital);
        assert(y_numerator.value() == xv * xc * yc);
        assert(fee_numerator.value() == xv * xv * yc);
        let y = wide_div_or_zero(y_numerator, denominator);
        let fee = wide_div_or_zero(fee_numerator, denominator);
        assert(y.value() <= yc && fee.value() <= yc);
        assert(y.value() == swap_output(xv, xc, yc));
        assert(fee.value() == swap_fee(xv, xc, yc));
        assert(swap_result(fis_balance as int, rtoken_balance as int, xv, input_is_fis) == (
            swap_output(xv, xc, yc),
            swap_fee(xv, xc, yc),
        ));
        (Self::safe_to_u128(y), Self::safe_to_u128(fee))
    }

    /// `(new total, added)` liquidity units for depositing `fis_amount` and
    /// `rtoken_amount` into a pool with `old_pool_unit` units and the given reserves.
    /// A pool with an empty side is bootstrapped at `(fis_amount, fis_amount)`; otherwise
    /// `raw = P·(F·r + f·R)/(2·R·F)` less the slip adjustment
    /// `raw·|F·r − f·R|/((f+F)·(r+R))` is added.
    pub fn cal_pool_unit(
        old_pool_unit: u128,
        fis_balance: u128,
        rtoken_balance: u128,
        fis_amount: u128,
        rtoken_amount: u128,
    ) -> (r: (u128, u128))
        ensures
            r.0 as int == cap_u128(
                pool_unit_result(
                    old_pool_unit as int,
                    fis_balance as int,
                    rtoken_balance as int,
                    fis_amount as int,
                    rtoken_amount as int,
                ).0,
            ),
            r.1 as int == cap_u128(
                pool_unit_result(
                    old_pool_unit as int,
                    fis_balance as int,
                    rtoken_balance as int,
                    fis_amount as int,
                    rtoken_amount as int,
                ).1,
            ),
    {
        if fis_amount == 0 && rtoken_amount == 0 {
            return (0, 0);
        }
        if fis_balance == 0 && fis_amount == 0 {
            return (0, 0);
        }
        if rtoken_balance == 0 && rtoken_amount == 0 {
            return (0, 0);
        }
        if fis_balance == 0 || rtoken_balance == 0 {
            return (fis_amount, fis_amount);
        }
        let ghost pv = old_pool_unit as int;
        let ghost fb = fis_balance as int;
        let ghost rb = rtoken_balance as int;
        let ghost fv = fis_amount as int;
        let ghost rv = rtoken_amount as int;
        let ghost b = u128_limit();
        let ghost m = u128::MAX as int;
        assert(wide_limit() == b * b * b * b);
        assert(b == m + 1);

        let p_capital = wide_from_u128(old_pool_unit);
        let f_capital = wide_from_u128(fis_balance);
        let r_capital = wide_from_u128(rtoken_balance);
        let f = wide_from_u128(fis_amount);
        let r = wide_from_u128(rtoken_amount);

        proof {
            lemma_mul_below(fb, rv, b, b);
            lemma_mul_below(fv, rb, b, b);
            lemma_mul_below(rb, fb, b, b);
            assert(2 * (b * b) < wide_limit() && b * (2 * (b * b)) < wide_limit() && (2 * b) * (
            2 * b) < wide_limit()) by (nonlinear_arith)
                requires
                    b == u128_limit(),
                    wide_limit() == b * b * b * b,
            ;
        }
        let fr = wide_saturating_mul(f_capital, r);
        let f_r = wide_saturating_mul(f, r_capital);
        assert(fr.value() == fb * rv && f_r.value() == fv * rb);
        let numerator = wide_saturating_add(fr, f_r);
        assert(numerator.value() == fb * rv + fv * rb);
        proof {
            lemma_mul_below(pv, fb * rv + fv * rb, b, 2 * (b * b));
        }
        let scaled = wide_saturating_mul(p_capital, numerator);
        assert(scaled.value() == pv * (fb * rv + fv * rb));
        let rf = wide_saturating_mul(r_capital, f_capital);
        assert(rf.value() == rb * fb);
        let two = wide_from_u128(2);
        let raw_denominator = wide_saturating_mul(rf, two);
        assert(raw_denominator.value() == rb * fb * 2);
        assert(rb * fb * 2 > 0) by (nonlinear_arith)
            requires
                rb > 0,
                fb > 0,
        ;
        let raw_unit = wide_div_or_zero(scaled, raw_denominator);
        assert(raw_unit.value() == raw_units(pv, fb, rb, fv, rv));
        proof {
            lemma_raw_units_bound(pv, fb, rb, fv, rv, m);
            lemma_mul_below(pv, m, b, b);
            lemma_slip_magnitude_bound(fb, rb, fv, rv);
        }

        let abs = if wide_gt(fr, f_r) {
            wide_saturating_sub(fr, f_r)
        } else {
            wide_saturating_sub(f_r, fr)
        };
        assert(abs.value() == slip_magnitude(fb, rb, fv, rv));

        let fis_sum = wide_saturating_add(f, f_capital);
        let rtoken_sum = wide_saturating_add(r, r_capital);
        proof {
            lemma_mul_below(fv + fb, rv + rb, 2 * b, 2 * b);
            lemma_mul_below(raw_units(pv, fb, rb, fv, rv), slip_magnitude(fb, rb, fv, rv), b * b, b * b);
            assert(b * b * (b * b) == wide_limit()) by (nonlinear_arith)
                requires
                    wide_limit() == b * b * b * b,
            ;
            assert((fv + fb) * (rv + rb) > 0) by (nonlinear_arith)
                requires
                    rb > 0,
                    fb > 0,
                    fv >= 0,
                    rv >= 0,
            ;
            lemma_scaled_share(raw_units(pv, fb, rb, fv, rv), slip_magnitude(fb, rb, fv, rv), (fv + fb) * (rv + rb));
        }
        let slip_denominator = wide_saturating_mul(fis_sum, rtoken_sum);
        assert(slip_denominator.value() == (fv + fb) * (rv + rb));
        let slip_numerator = wide_saturating_mul(raw_unit, abs);
        let adj_unit = wide_div_or_zero(slip_numerator, slip_denominator);
        assert(adj_unit.value() == slip_units(pv, fb, rb, fv, rv));

        let add_unit = wide_saturating_sub(raw_unit, adj_unit);
        let total_unit = wide_saturating_add(p_capital, add_unit);
        assert(pv + b * b < wide_limit()) by (nonlinear_arith)
            requires
                b == u128_limit(),
                pv < b,
                wide_limit() == b * b * b * b,
        ;
        (Self::safe_to_u128(total_unit), Self::safe_to_u128(add_unit))
    }

    /// `(fis out, rtoken out, swap input)` for removing `rm_unit` of `pool_unit` units, of
    /// which `swap_unit` are to be swapped on the side that `input_is_fis` names. `rm_unit`
    /// is clamped to `pool_unit` and `swap_unit` to the clamped `rm_unit`.
    pub fn cal_remove_result(
        pool_unit: u128,
        rm_unit: u128,
        swap_unit: u128,
        fis_balance: u128,
        rtoken_balance: u128,
        input_is_fis: bool,
    ) -> (r: (u128, u128, u128))
        ensures
            r.0 as int == remove_result(
                pool_unit as int,
                rm_unit as int,
                swap_unit as int,
                fis_balance as int,
                rtoken_balance as int,
                input_is_fis,
            ).0,
            r.1 as int == remove_result(
                pool_unit as int,
                rm_unit as int,
                swap_unit as int,
                fis_balance as int,
                rtoken_balance as int,
                input_is_fis,
            ).1,
            r.2 as int == remove_result(
                pool_unit as int,
                rm_unit as int,
                swap_unit as int,
                fis_balance as int,
                rtoken_balance as int,
                input_is_fis,
            ).2,
    {
        if pool_unit == 0 || rm_unit == 0 {
            return (0, 0, 0);
        }
        let use_rm_unit = if rm_unit > pool_unit {
            pool_unit
        } else {
            rm_unit
        };
        let use_swap_unit = if swap_unit > use_rm_unit {
            use_rm_unit
        } else {
            swap_unit
        };
        let ghost b = u128_limit();
        let ghost pv = pool_unit as int;
        let ghost fb = fis_balance as int;
        let ghost rb = rtoken_balance as int;
        assert(wide_limit() == b * b * b * b);
        assert(b * b < wide_limit()) by (nonlinear_arith)
            requires
                b == u128_limit(),
                wide_limit() == b * b * b * b,
        ;
        let p = wide_from_u128(pool_unit);
        let fis = wide_from_u128(fis_balance);
        let rtoken = wide_from_u128(rtoken_balance);
        let u = wide_from_u128(use_rm_unit);
        let s = wide_from_u128(use_swap_unit);
        proof {
            lemma_mul_below(use_rm_unit as int, fb, b, b);
            lemma_mul_below(use_rm_unit as int, rb, b, b);
            lemma_mul_below(use_swap_unit as int, fb, b, b);
            lemma_mul_below(use_swap_unit as int, rb, b, b);
            assert(use_rm_unit as int * fb == fb * use_rm_unit as int);
            lemma_scaled_share(fb, use_rm_unit as int, pv);
            lemma_scaled_share(rb, use_rm_unit as int, pv);
            lemma_scaled_share(fb, use_swap_unit as int, pv);
            lemma_scaled_share(rb, use_swap_unit as int, pv);
        }
        let fis_amount = wide_div_or_zero(wide_saturating_mul(u, fis), p);
        let rtoken_amount = wide_div_or_zero(wide_saturating_mul(u, rtoken), p);
        let swap_amount = if input_is_fis {
            wide_div_or_zero(wide_saturating_mul(s, fis), p)
        } else {
            wide_div_or_zero(wide_saturating_mul(s, rtoken), p)
        };
        (
            Self::safe_to_u128(fis_amount),
            Self::safe_to_u128(rtoken_amount),
            Self::safe_to_u128(swap_amount),
        )
    }
}

} // verus!
