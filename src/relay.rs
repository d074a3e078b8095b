//! What relayers and the root origin maintain: signature sets for source-chain
//! transactions and each pool's nominated validators.
use vstd::prelude::*;
use crate::primitives::{ChainType, RSymbol, chain_type_of};
use crate::series::{AccountId, SeriesError};

verus! {

/// The byte strings that a vector of byte vectors holds.
pub open spec fn byte_strings(v: Seq<Vec<u8>>) -> Seq<Seq<u8>> {
    v.map_values(|x: Vec<u8>| x@)
}

/// Whether two byte strings are equal.
fn bytes_eq(a: &Vec<u8>, b: &Vec<u8>) -> (r: bool)
    ensures
        r == (a@ == b@),
{
    if a.len() != b.len() {
        return false;
    }
    let mut i: usize = 0;
    while i < a.len()
        invariant
            i <= a@.len(),
            a@.len() == b@.len(),
            forall|j: int| 0 <= j < i ==> a@[j] == b@[j],
        decreases a@.len() - i,
    {
        if a[i] != b[i] {
            return false;
        }
        i = i + 1;
    }
    assert(a@ =~= b@);
    true
}

/// The index of the first entry of `items` equal to `x`, if any.
fn position_of(items: &Vec<Vec<u8>>, x: &Vec<u8>) -> (r: Option<usize>)
    ensures
        match r {
            None => forall|j: int| 0 <= j < items@.len() ==> (#[trigger] items@[j])@ != x@,
            Some(i) => i < items@.len() && items@[i as int]@ == x@ && forall|j: int|
                0 <= j < i ==> (#[trigger] items@[j])@ != x@,
        },
{
    let mut i: usize = 0;
    while i < items.len()
        invariant
            i <= items@.len(),
            forall|j: int| 0 <= j < i ==> (#[trigger] items@[j])@ != x@,
        decreases items@.len() - i,
    {
        if bytes_eq(&items[i], x) {
            return Some(i);
        }
        i = i + 1;
    }
    None
}

/// The checks of a signature submission, in order: signatures are collected only for
/// chains outside the substrate family, from relayers, for bonded pools, for eras that
/// have begun, once per relayer and once per signature.
pub open spec fn submit_signatures_error(
    symbol: RSymbol,
    era: u32,
    current_era: Option<u32>,
    is_relayer: bool,
    pool_bonded: bool,
    already_submitted: bool,
    signatures: Seq<Seq<u8>>,
    signature: Seq<u8>,
) -> Option<SeriesError> {
    if chain_type_of(symbol) == ChainType::Substrate {
        Some(SeriesError::InvalidRSymbol)
    } else if !is_relayer {
        Some(SeriesError::MustBeRelayer)
    } else if !pool_bonded {
        Some(SeriesError::PoolNotFound)
    } else if current_era.is_none() {
        Some(SeriesError::NoCurrentEra)
    } else if era > current_era.unwrap() {
        Some(SeriesError::InvalidEra)
    } else if already_submitted || signatures.contains(signature) {
        Some(SeriesError::SignatureRepeated)
    } else {
        None
    }
}

/// Adds a relayer's `signature` to the set collected for one proposal. `already_submitted`
/// is whether this relayer already signed it, `threshold` the pool's multisig threshold.
/// Returns whether the set has just reached the threshold.
pub fn submit_signatures(
    symbol: RSymbol,
    era: u32,
    current_era: Option<u32>,
    is_relayer: bool,
    pool_bonded: bool,
    already_submitted: bool,
    signatures: &mut Vec<Vec<u8>>,
    signature: Vec<u8>,
    threshold: Option<u16>,
) -> (r: Result<bool, SeriesError>)
    ensures
        ({
            let err = submit_signatures_error(
                symbol,
                era,
                current_era,
                is_relayer,
                pool_bonded,
                already_submitted,
                byte_strings(old(signatures)@),
                signature@,
            );
            let before = byte_strings(old(signatures)@);
            let after = byte_strings(final(signatures)@);
            let needed = match threshold {
                Some(t) => t as int,
                None => 0,
            };
            match r {
                Err(e) => err == Some(e) && after == before,
                Ok(enough) => {
                    &&& err.is_none()
                    &&& after == before.push(signature@)
                    &&& enough == (after.len() == needed)
                },
            }
        }),
{
    if symbol.chain_type() == ChainType::Substrate {
        return Err(SeriesError::InvalidRSymbol);
    }
    if !is_relayer {
        return Err(SeriesError::MustBeRelayer);
    }
    if !pool_bonded {
        return Err(SeriesError::PoolNotFound);
    }
    let current = match current_era {
        Some(e) => e,
        None => {
            return Err(SeriesError::NoCurrentEra);
        },
    };
    if era > current {
        return Err(SeriesError::InvalidEra);
    }
    if already_submitted {
        return Err(SeriesError::SignatureRepeated);
    }
    let found = position_of(signatures, &signature);
    proof {
        let dv = byte_strings(old(signatures)@);
        if found.is_some() {
            assert(dv[found.unwrap() as int] == signature@);
        } else {
            assert forall|j: int| 0 <= j < dv.len() implies dv[j] != signature@ by {
                assert(signatures@[j]@ != signature@);
            }
        }
    }
    if found.is_some() {
        return Err(SeriesError::SignatureRepeated);
    }
    signatures.push(signature);
    assert(byte_strings(signatures@) =~= byte_strings(old(signatures)@).push(signature@));
    let limit: usize = match threshold {
        Some(t) => t as usize,
        None => 0,
    };
    Ok(signatures.len() == limit)
}

/// Sets a pool's first nominations; they can be set only once.
pub fn init_nominations(pool_bonded: bool, nominated: &Option<Vec<Vec<u8>>>) -> (r: Result<
    (),
    SeriesError,
>)
    ensures
        !pool_bonded ==> r == Err::<(), SeriesError>(SeriesError::PoolNotBonded),
        pool_bonded && nominated.is_some() ==> r == Err::<(), SeriesError>(
            SeriesError::NominationsInitialized,
        ),
        pool_bonded && nominated.is_none() ==> r == Ok::<(), SeriesError>(()),
{
    if !pool_bonded {
        return Err(SeriesError::PoolNotBonded);
    }
    if nominated.is_some() {
        return Err(SeriesError::NominationsInitialized);
    }
    Ok(())
}

/// Replaces a pool's nominations. Returns the era under which the previous, non-empty
/// nominations are to be kept: the chain's current era, else `era`; `None` when there is
/// nothing to keep.
pub fn update_nominations(
    pool_bonded: bool,
    last_voter: Option<AccountId>,
    old_validators: &Option<Vec<Vec<u8>>>,
    chain_era: Option<u32>,
    era: u32,
) -> (r: Result<Option<u32>, SeriesError>)
    ensures
        !pool_bonded ==> r == Err::<Option<u32>, SeriesError>(SeriesError::PoolNotBonded),
        pool_bonded && last_voter.is_none() ==> r == Err::<Option<u32>, SeriesError>(
            SeriesError::LastVoterNobody,
        ),
        pool_bonded && last_voter.is_some() ==> r == Ok::<Option<u32>, SeriesError>(
            if old_validators.is_some() && old_validators.unwrap()@.len() > 0 {
                Some(
                    match chain_era {
                        Some(e) => e,
                        None => era,
                    },
                )
            } else {
                None
            },
        ),
{
    if !pool_bonded {
        return Err(SeriesError::PoolNotBonded);
    }
    if last_voter.is_none() {
        return Err(SeriesError::LastVoterNobody);
    }
    match old_validators {
        Some(v) => {
            if v.len() > 0 {
                Ok(
                    Some(
                        match chain_era {
                            Some(e) => e,
                            None => era,
                        },
                    ),
                )
            } else {
                Ok(None)
            }
        },
        None => Ok(None),
    }
}

/// Replaces `old_validator` in a pool's nominations by `new_validator`: the first entry
/// equal to `old_validator`, if there is one, is removed, and `new_validator` is
/// appended either way.
pub fn update_validator(
    pool_bonded: bool,
    validators: &mut Vec<Vec<u8>>,
    old_validator: &Vec<u8>,
    new_validator: Vec<u8>,
) -> (r: Result<(), SeriesError>)
    ensures
        !pool_bonded ==> r == Err::<(), SeriesError>(SeriesError::PoolNotBonded)
            && byte_strings(final(validators)@) == byte_strings(old(validators)@),
        pool_bonded ==> r == Ok::<(), SeriesError>(()) && {
            let before = byte_strings(old(validators)@);
            let after = byte_strings(final(validators)@);
            ||| (forall|j: int| 0 <= j < before.len() ==> before[j] != old_validator@) && after
                == before.push(new_validator@)
            ||| exists|i: int|
                0 <= i < before.len() && before[i] == old_validator@ && (forall|j: int|
                    0 <= j < i ==> before[j] != old_validator@) && after == before.remove(i).push(
                    new_validator@,
                )
        },
{
    if !pool_bonded {
        return Err(SeriesError::PoolNotBonded);
    }
    let ghost before = byte_strings(validators@);
    let found = position_of(validators, old_validator);
    match found {
        Some(i) => {
            validators.remove(i);
            validators.push(new_validator);
            proof {
                assert(byte_strings(validators@) =~= before.remove(i as int).push(new_validator@));
                assert forall|j: int| 0 <= j < i implies before[j] != old_validator@ by {
                    assert(old(validators)@[j]@ != old_validator@);
                }
                assert(before[i as int] == old_validator@);
                assert(0 <= i < before.len() && before[i as int] == old_validator@ && (forall|j: int|
                    0 <= j < i ==> before[j] != old_validator@) && byte_strings(validators@)
                    == before.remove(i as int).push(new_validator@));
            }
        },
        None => {
            validators.push(new_validator);
            proof {
                assert(byte_strings(validators@) =~= before.push(new_validator@));
                assert forall|j: int| 0 <= j < before.len() implies before[j]
                    != old_validator@ by {
                    assert(old(validators)@[j]@ != old_validator@);
                }
            }
        },
    }
    Ok(())
}

} // verus!
