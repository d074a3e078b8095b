//! Unbonding: the commission split, the pipeline's bookkeeping and each account's
//! bounded list of unlock chunks.
use vstd::prelude::*;
use crate::series::{AccountId, BondPipeline, SeriesError, perbill_product, protocol_unbond_fee};

verus! {

/// The largest number of unlock chunks one account keeps per symbol.
pub const MAX_UNLOCKING_CHUNKS: usize = 32;

/// The number of still-locked chunks below which pruning drops the oldest chunks instead.
pub const MIN_UNLOCKING_CHUNKS: usize = 16;

/// One pending withdrawal of an account: from which pool, unlocking in which era.
#[derive(Clone, Debug)]
pub struct UserUnlockChunk {
    pub pool: Vec<u8>,
    pub unlock_era: u32,
    pub value: u128,
    pub recipient: Vec<u8>,
}

/// One entry of a pool's unbond queue for an era.
#[derive(Clone, Debug)]
pub struct Unbonding {
    pub who: AccountId,
    pub value: u128,
    pub recipient: Vec<u8>,
}

/// The checked part of an unbond: the commission, the rTOKEN burned, and the eras.
#[derive(Clone, Copy, Debug, PartialEq, Eq, Structural)]
pub struct UnbondQuote {
    pub fee: u128,
    pub left_value: u128,
    pub current_era: u32,
    pub unlock_era: u32,
}

/// The checks of an unbond, in order, and the split of `value` into commission and the
/// rest.
pub open spec fn unbond_check_result(
    value: u128,
    rtoken_bond_switch: bool,
    pool_bonded: bool,
    recipient_valid: bool,
    current_era: Option<u32>,
    bonding_duration: Option<u32>,
    has_receiver: bool,
    has_relay_fees_receiver: bool,
    free: u128,
    commission: u32,
) -> Result<UnbondQuote, SeriesError> {
    let fee = perbill_product(commission, value);
    if value == 0 {
        Err(SeriesError::LiquidityUnbondZero)
    } else if !rtoken_bond_switch {
        Err(SeriesError::BondSwitchClosed)
    } else if !pool_bonded {
        Err(SeriesError::PoolNotFound)
    } else if !recipient_valid {
        Err(SeriesError::InvalidPubkey)
    } else if current_era.is_none() {
        Err(SeriesError::NoCurrentEra)
    } else if bonding_duration.is_none() {
        Err(SeriesError::BondingDurationNotSet)
    } else if current_era.unwrap() + bonding_duration.unwrap() > u32::MAX {
        Err(SeriesError::OverFlow)
    } else if !has_receiver {
        Err(SeriesError::NoReceiver)
    } else if !has_relay_fees_receiver {
        Err(SeriesError::NoRelayFeesReceiver)
    } else if free < value {
        Err(SeriesError::Insufficient)
    } else if fee >= value {
        Err(SeriesError::Insufficient)
    } else {
        Ok(
            UnbondQuote {
                fee: fee as u128,
                left_value: (value - fee) as u128,
                current_era: current_era.unwrap(),
                unlock_era: (current_era.unwrap() + bonding_duration.unwrap()) as u32,
            },
        )
    }
}

/// Checks an unbond of `value` rTOKEN and splits it into the protocol's commission and the
/// part that is burned. `recipient_valid` is whether the recipient is well formed for the
/// symbol's chain family, `free` the unbonder's rTOKEN balance.
pub fn unbond_check(
    value: u128,
    rtoken_bond_switch: bool,
    pool_bonded: bool,
    recipient_valid: bool,
    current_era: Option<u32>,
    bonding_duration: Option<u32>,
    has_receiver: bool,
    has_relay_fees_receiver: bool,
    free: u128,
    commission: u32,
) -> (r: Result<UnbondQuote, SeriesError>)
    ensures
        r == unbond_check_result(
            value,
            rtoken_bond_switch,
            pool_bonded,
            recipient_valid,
            current_era,
            bonding_duration,
            has_receiver,
            has_relay_fees_receiver,
            free,
            commission,
        ),
{
    if value == 0 {
        return Err(SeriesError::LiquidityUnbondZero);
    }
    if !rtoken_bond_switch {
        return Err(SeriesError::BondSwitchClosed);
    }
    if !pool_bonded {
        return Err(SeriesError::PoolNotFound);
    }
    if !recipient_valid {
        return Err(SeriesError::InvalidPubkey);
    }
    let era = match current_era {
        Some(e) => e,
        None => {
            return Err(SeriesError::NoCurrentEra);
        },
    };
    let duration = match bonding_duration {
        Some(d) => d,
        None => {
            return Err(SeriesError::BondingDurationNotSet);
        },
    };
    let unlock_era = match era.checked_add(duration) {
        Some(u) => u,
        None => {
            return Err(SeriesError::OverFlow);
        },
    };
    if !has_receiver {
        return Err(SeriesError::NoReceiver);
    }
    if !has_relay_fees_receiver {
        return Err(SeriesError::NoRelayFeesReceiver);
    }
    if free < value {
        return Err(SeriesError::Insufficient);
    }
    let fee = protocol_unbond_fee(commission, value);
    if fee >= value {
        return Err(SeriesError::Insufficient);
    }
    Ok(UnbondQuote { fee, left_value: value - fee, current_era: era, unlock_era })
}

/// Whether a chunk still counts: it unlocks in `era` or later.
pub open spec fn unlocks_from(era: u32) -> spec_fn(UserUnlockChunk) -> bool {
    |c: UserUnlockChunk| c.unlock_era >= era
}

/// An account's chunks after pruning. Below the cap nothing changes. At the cap the
/// chunks that unlock in `current_era` or later are kept; where fewer than the minimum
/// of them remain, the oldest `MAX − MIN + 1` chunks are dropped instead.
pub open spec fn pruned_chunks(chunks: Seq<UserUnlockChunk>, current_era: u32) -> Seq<
    UserUnlockChunk,
> {
    if chunks.len() >= MAX_UNLOCKING_CHUNKS {
        let kept = chunks.filter(unlocks_from(current_era));
        if kept.len() < MIN_UNLOCKING_CHUNKS {
            chunks.subrange(
                (MAX_UNLOCKING_CHUNKS - MIN_UNLOCKING_CHUNKS + 1) as int,
                chunks.len() as int,
            )
        } else {
            kept
        }
    } else {
        chunks
    }
}

/// The chunks of `chunks` that unlock in `era` or later, in order.
fn keep_unlocking_from(chunks: Vec<UserUnlockChunk>, era: u32) -> (r: Vec<UserUnlockChunk>)
    ensures
        r@ == chunks@.filter(unlocks_from(era)),
{
    let ghost all = chunks@;
    let mut rest = chunks;
    let mut kept: Vec<UserUnlockChunk> = Vec::new();
    let ghost mut k: int = 0;
    while rest.len() > 0
        invariant
            0 <= k <= all.len(),
            rest@ == all.subrange(k, all.len() as int),
            kept@ == all.subrange(0, k).filter(unlocks_from(era)),
        decreases rest@.len(),
    {
        let c = rest.remove(0);
        proof {
            assert(all.subrange(0, k + 1).drop_last() =~= all.subrange(0, k));
            assert(all.subrange(0, k + 1).last() == c);
            reveal(Seq::filter);
        }
        if c.unlock_era >= era {
            kept.push(c);
        }
        proof {
            k = k + 1;
            assert(rest@ =~= all.subrange(k, all.len() as int));
        }
    }
    assert(all.subrange(0, all.len() as int) =~= all);
    kept
}

/// How many chunks of `chunks` unlock in `era` or later.
fn count_unlocking_from(chunks: &Vec<UserUnlockChunk>, era: u32) -> (r: usize)
    ensures
        r == chunks@.filter(unlocks_from(era)).len(),
{
    let mut n: usize = 0;
    let mut i: usize = 0;
    while i < chunks.len()
        invariant
            i <= chunks@.len(),
            n <= i,
            n == chunks@.subrange(0, i as int).filter(unlocks_from(era)).len(),
        decreases chunks@.len() - i,
    {
        proof {
            assert(chunks@.subrange(0, i + 1).drop_last() =~= chunks@.subrange(0, i as int));
            assert(chunks@.subrange(0, i + 1).last() == chunks@[i as int]);
            reveal(Seq::filter);
        }
        if chunks[i].unlock_era >= era {
            n = n + 1;
        }
        i = i + 1;
    }
    assert(chunks@.subrange(0, chunks@.len() as int) =~= chunks@);
    n
}

/// Prunes an account's chunks before a new one is added; see `pruned_chunks`.
pub fn prune_unlock_chunks(chunks: Vec<UserUnlockChunk>, current_era: u32) -> (r: Vec<
    UserUnlockChunk,
>)
    ensures
        r@ == pruned_chunks(chunks@, current_era),
{
    if chunks.len() >= MAX_UNLOCKING_CHUNKS {
        if count_unlocking_from(&chunks, current_era) < MIN_UNLOCKING_CHUNKS {
            let ghost all = chunks@;
            let mut head = chunks;
            let tail = head.split_off(MAX_UNLOCKING_CHUNKS - MIN_UNLOCKING_CHUNKS + 1);
            tail
        } else {
            keep_unlocking_from(chunks, current_era)
        }
    } else {
        chunks
    }
}

/// The first check an unbond's bookkeeping fails, if any: the pipeline's unbonding
/// amount must not overflow, its active amount must cover the unbond, the pruned chunks
/// must leave room, and the era's queue must be within its limit (`0` for none; the
/// length before the new entry is compared with `≤`).
pub open spec fn unbond_apply_error(
    balance: u128,
    pipe: BondPipeline,
    chunks: Seq<UserUnlockChunk>,
    queue_len: nat,
    era_unbond_limit: u16,
    current_era: u32,
) -> Option<SeriesError> {
    if pipe.unbond + balance > u128::MAX {
        Some(SeriesError::OverFlow)
    } else if pipe.active < balance {
        Some(SeriesError::Insufficient)
    } else if pruned_chunks(chunks, current_era).len() >= MAX_UNLOCKING_CHUNKS {
        Some(SeriesError::NoMoreUnbondingChunks)
    } else if era_unbond_limit != 0 && queue_len > era_unbond_limit {
        Some(SeriesError::PoolLimitReached)
    } else {
        None
    }
}

/// Records an unbond whose burned rTOKEN is worth `balance` at the current rate: the
/// pipeline moves `balance` from active to unbonding, the account's pruned chunks get a
/// new chunk, and the pool's queue for the unlock era a new entry. Returns the account's
/// new chunks; on an error nothing changes.
pub fn unbond_apply(
    balance: u128,
    pipe: &mut BondPipeline,
    chunks: Vec<UserUnlockChunk>,
    pool_unbonds: &mut Vec<Unbonding>,
    era_unbond_limit: u16,
    quote: UnbondQuote,
    who: AccountId,
    pool: Vec<u8>,
    recipient: Vec<u8>,
) -> (r: Result<Vec<UserUnlockChunk>, SeriesError>)
    ensures
        ({
            let err = unbond_apply_error(
                balance,
                *old(pipe),
                chunks@,
                old(pool_unbonds)@.len(),
                era_unbond_limit,
                quote.current_era,
            );
            match r {
                Err(e) => err == Some(e) && *final(pipe) == *old(pipe) && final(pool_unbonds)@
                    == old(pool_unbonds)@,
                Ok(new_chunks) => {
                    let pruned = pruned_chunks(chunks@, quote.current_era);
                    let chunk = new_chunks@.last();
                    let entry = final(pool_unbonds)@.last();
                    &&& err.is_none()
                    &&& final(pipe).unbond == old(pipe).unbond + balance
                    &&& final(pipe).active == old(pipe).active - balance
                    &&& final(pipe).bond == old(pipe).bond
                    &&& new_chunks@.len() == pruned.len() + 1
                    &&& new_chunks@.len() <= MAX_UNLOCKING_CHUNKS
                    &&& new_chunks@.drop_last() == pruned
                    &&& chunk.pool@ == pool@ && chunk.unlock_era == quote.unlock_era
                        && chunk.value == balance && chunk.recipient@ == recipient@
                    &&& final(pool_unbonds)@.len() == old(pool_unbonds)@.len() + 1
                    &&& final(pool_unbonds)@.drop_last() == old(pool_unbonds)@
                    &&& entry.who == who && entry.value == balance && entry.recipient@
                        == recipient@
                },
            }
        }),
{
    let unbond = match pipe.unbond.checked_add(balance) {
        Some(u) => u,
        None => {
            return Err(SeriesError::OverFlow);
        },
    };
    if pipe.active < balance {
        return Err(SeriesError::Insufficient);
    }
    let mut ac_unbonds = prune_unlock_chunks(chunks, quote.current_era);
    if ac_unbonds.len() >= MAX_UNLOCKING_CHUNKS {
        return Err(SeriesError::NoMoreUnbondingChunks);
    }
    if era_unbond_limit != 0 && pool_unbonds.len() > era_unbond_limit as usize {
        return Err(SeriesError::PoolLimitReached);
    }
    let entry_recipient = recipient.clone();
    assert(entry_recipient@ == recipient@);
    pipe.unbond = unbond;
    pipe.active = pipe.active - balance;
    let ghost pruned = ac_unbonds@;
    ac_unbonds.push(UserUnlockChunk { pool, unlock_era: quote.unlock_era, value: balance, recipient });
    pool_unbonds.push(Unbonding { who, value: balance, recipient: entry_recipient });
    assert(ac_unbonds@.drop_last() =~= pruned);
    assert(pool_unbonds@.drop_last() =~= old(pool_unbonds)@);
    Ok(ac_unbonds)
}

/// Pruning never lets an account hold more than the cap of chunks, and where it leaves
/// fewer than the cap, one more chunk still fits.
pub proof fn lemma_pruned_chunks_bounded(chunks: Seq<UserUnlockChunk>, current_era: u32)
    requires
        chunks.len() <= MAX_UNLOCKING_CHUNKS,
    ensures
        pruned_chunks(chunks, current_era).len() <= MAX_UNLOCKING_CHUNKS,
        pruned_chunks(chunks, current_era).len() < MAX_UNLOCKING_CHUNKS ==> pruned_chunks(
            chunks,
            current_era,
        ).len() + 1 <= MAX_UNLOCKING_CHUNKS,
{
    chunks.lemma_filter_len(unlocks_from(current_era));
}

} // verus!
