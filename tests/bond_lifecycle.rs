use parity_scale_codec::Encode;
use rtoken_core::config::SeriesConfig;
use rtoken_core::primitives::{ChainType, RSymbol};
use rtoken_core::relay::{init_nominations, submit_signatures, update_nominations, update_validator};
use rtoken_core::series::{
    bond_fee_transfers, bond_id, bondable, encode_bond_record, execute_bond_record,
    is_txhash_available, is_txhash_executable, liquidity_bond, protocol_unbond_fee,
    refund_swap_fee, signature_message, to_ascii_hex, BondPipeline,
    BondPlan, BondReason, BondRecord, BondState, BondSwap, BridgeQuote, SeriesError,
    SigVerifyResult, Transfer,
};
use rtoken_core::unbond::{
    prune_unlock_chunks, unbond_apply, unbond_check, UnbondQuote, Unbonding, UserUnlockChunk,
};

const BOB: [u8; 32] = [2u8; 32];
const RELAY: [u8; 32] = [9u8; 32];
const BRIDGER: [u8; 32] = [7u8; 32];
const SWAP_RECEIVER: [u8; 32] = [6u8; 32];

fn record(amount: u128) -> BondRecord {
    BondRecord::new(BOB, RSymbol::RDOT, vec![1, 2], vec![3], vec![4, 4], vec![5], amount)
}

fn submit(rec: &BondRecord, state: Option<BondState>, quote: Option<BridgeQuote>) -> Result<BondPlan, SeriesError> {
    liquidity_bond(rec, true, true, state, true, SigVerifyResult::Pass, Some(RELAY), false, 0, 50, quote, vec![8, 8], 3)
}

fn chunk(era: u32) -> UserUnlockChunk {
    UserUnlockChunk { pool: vec![1], unlock_era: era, value: era as u128, recipient: vec![2] }
}

#[test]
fn txhash_states() {
    assert!(is_txhash_available(None));
    assert!(is_txhash_available(Some(BondState::Fail)));
    assert!(!is_txhash_available(Some(BondState::Dealing)));
    assert!(!is_txhash_available(Some(BondState::Success)));
    assert!(!is_txhash_executable(None));
    assert!(is_txhash_executable(Some(BondState::Dealing)));
    assert!(is_txhash_executable(Some(BondState::Fail)));
    assert!(!is_txhash_executable(Some(BondState::Success)));
}

#[test]
fn bondable_checks() {
    let ok = SigVerifyResult::Pass;
    assert_eq!(bondable(false, true, 1, None, true, ok), Err(SeriesError::BondSwitchClosed));
    assert_eq!(bondable(true, false, 1, None, true, ok), Err(SeriesError::BondSwitchClosed));
    assert_eq!(bondable(true, true, 0, None, true, ok), Err(SeriesError::LiquidityBondZero));
    assert_eq!(bondable(true, true, 1, Some(BondState::Dealing), true, ok), Err(SeriesError::TxhashUnavailable));
    assert_eq!(bondable(true, true, 1, None, false, ok), Err(SeriesError::PoolNotBonded));
    assert_eq!(bondable(true, true, 1, None, true, SigVerifyResult::InvalidPubkey), Err(SeriesError::InvalidPubkey));
    assert_eq!(bondable(true, true, 1, None, true, SigVerifyResult::Fail), Err(SeriesError::InvalidSignature));
    assert_eq!(bondable(true, true, 1, Some(BondState::Fail), true, ok), Ok(()));
}

#[test]
fn signature_messages() {
    assert_eq!(to_ascii_hex(&[0xab, 0x01, 0x9f]), b"ab019f".to_vec());
    assert_eq!(to_ascii_hex(&[]), Vec::<u8>::new());
    assert_eq!(signature_message(&BOB, RSymbol::RDOT), BOB.to_vec());
    assert_eq!(signature_message(&BOB, RSymbol::RETH), b"02".repeat(32));
    assert_eq!(RSymbol::RMATIC.chain_type(), ChainType::Ethereum);
    assert_eq!(RSymbol::RKSM.chain_type(), ChainType::Substrate);
}

#[test]
fn unbond_commission_rounding() {
    assert_eq!(protocol_unbond_fee(2_000_000, 1_000_000), 2000);
    // exactly one half rounds down, just above rounds up
    assert_eq!(protocol_unbond_fee(2_000_000, 250), 0);
    assert_eq!(protocol_unbond_fee(2_000_000, 251), 1);
    assert_eq!(protocol_unbond_fee(1_000_000_000, 12345), 12345);
    assert_eq!(protocol_unbond_fee(2_000_000_000, 12345), 12345);
}

#[test]
fn bond_record_encoding() {
    let rec = record(1000);
    let mut expected = vec![2u8; 32];
    expected.push(1); // RDOT
    expected.extend_from_slice(&[8, 1, 2]);
    expected.extend_from_slice(&[4, 3]);
    expected.extend_from_slice(&[8, 4, 4]);
    expected.extend_from_slice(&[4, 5]);
    expected.extend_from_slice(&1000u128.to_le_bytes());
    assert_eq!(encode_bond_record(&rec), expected);
    // a longer field takes a two-byte length
    let long = BondRecord::new(BOB, RSymbol::RFIS, vec![0; 64], vec![], vec![], vec![], 1);
    let encoded = encode_bond_record(&long);
    assert_eq!(&encoded[32..36], &[0, 0x01, 0x01, 0]);
    assert_eq!(vec![0u8; 64].encode()[..2], [0x01, 0x01]);
}

#[test]
fn bond_identity() {
    let rec = record(1000);
    let id = bond_id(&rec);
    assert_eq!(id, <sp_runtime::traits::BlakeTwo256 as sp_runtime::traits::Hash>::hash(&encode_bond_record(&rec)).0);
    assert_ne!(id, bond_id(&record(1001)));
    assert_eq!(id, bond_id(&record(1000)));
}

#[test]
fn bond_happy_path() {
    let rec = record(1000);
    let plan = submit(&rec, None, None).unwrap();
    assert_eq!(plan.bond_id, bond_id(&rec));
    assert_eq!(plan.new_count, 1);
    assert_eq!(plan.transfers, vec![Transfer { from: BOB, to: RELAY, amount: 50 }]);
    assert!(plan.bond_swap.is_none());

    let mut swap = None;
    let mut pipe = BondPipeline { bond: 10, unbond: 0, active: 10 };
    let out = execute_bond_record(&Some(rec), BondReason::Pass, Some(BondState::Dealing), &mut swap, None, 1, &mut pipe, 2000).unwrap();
    assert_eq!(out.state, BondState::Success);
    assert_eq!(out.mint_to, Some(BOB));
    assert_eq!(out.minted, 2000);
    assert_eq!(out.fee_transfer, None);
    assert_eq!(pipe, BondPipeline { bond: 1010, unbond: 0, active: 1010 });
}

#[test]
fn bond_submission_errors() {
    let rec = record(1000);
    let r = liquidity_bond(&rec, true, true, None, true, SigVerifyResult::Pass, None, false, 0, 50, None, vec![], 0);
    assert!(matches!(r, Err(SeriesError::NoRelayFeesReceiver)));
    let r = liquidity_bond(&rec, true, true, None, true, SigVerifyResult::Pass, Some(RELAY), true, 0, 50, None, vec![], 0);
    assert!(matches!(r, Err(SeriesError::BondRepeated)));
    let r = liquidity_bond(&rec, true, true, None, true, SigVerifyResult::Pass, Some(RELAY), false, u64::MAX, 50, None, vec![], 0);
    assert!(matches!(r, Err(SeriesError::OverFlow)));
    let r = liquidity_bond(&rec, true, true, Some(BondState::Success), true, SigVerifyResult::Pass, Some(RELAY), false, 0, 50, None, vec![], 0);
    assert!(matches!(r, Err(SeriesError::TxhashUnavailable)));
}

#[test]
fn bond_failure_and_retry() {
    let rec = record(1000);
    let first = submit(&rec, None, None).unwrap();
    let mut swap = None;
    let mut pipe = BondPipeline { bond: 0, unbond: 0, active: 0 };
    let out = execute_bond_record(&Some(rec), BondReason::AmountUnmatch, Some(BondState::Dealing), &mut swap, None, 1, &mut pipe, 2000).unwrap();
    assert_eq!(out.state, BondState::Fail);
    assert_eq!(out.mint_to, None);
    assert_eq!(pipe, BondPipeline { bond: 0, unbond: 0, active: 0 });
    // the same transaction hash may be bonded again, as a new record
    let retry = record(999);
    let second = submit(&retry, Some(BondState::Fail), None).unwrap();
    assert_ne!(first.bond_id, second.bond_id);
}

#[test]
fn execute_errors() {
    let mut swap = None;
    let mut pipe = BondPipeline { bond: u128::MAX, unbond: 0, active: 0 };
    let r = execute_bond_record(&None, BondReason::Pass, Some(BondState::Dealing), &mut swap, None, 1, &mut pipe, 1);
    assert!(matches!(r, Err(SeriesError::BondNotFound)));
    let r = execute_bond_record(&Some(record(1)), BondReason::Pass, Some(BondState::Success), &mut swap, None, 1, &mut pipe, 1);
    assert!(matches!(r, Err(SeriesError::TxhashUnexecutable)));
    let r = execute_bond_record(&Some(record(1)), BondReason::Pass, Some(BondState::Dealing), &mut swap, None, 1, &mut pipe, 1);
    assert!(matches!(r, Err(SeriesError::OverFlow)));
    assert_eq!(pipe.bond, u128::MAX);
}

#[test]
fn fee_routing() {
    let q = |fee| Some(BridgeQuote { swap_fee: fee, swap_receiver: SWAP_RECEIVER, bridger: BRIDGER });
    assert_eq!(bond_fee_transfers(BOB, RELAY, 0, None), vec![]);
    assert_eq!(bond_fee_transfers(BOB, RELAY, 50, q(100)), vec![
        Transfer { from: BOB, to: BRIDGER, amount: 150 },
        Transfer { from: BRIDGER, to: RELAY, amount: 50 },
    ]);
    assert_eq!(bond_fee_transfers(BOB, RELAY, 0, q(100)), vec![Transfer { from: BOB, to: BRIDGER, amount: 100 }]);
    assert_eq!(bond_fee_transfers(BOB, RELAY, 50, q(0)), vec![Transfer { from: BOB, to: RELAY, amount: 50 }]);
    assert_eq!(bond_fee_transfers(BOB, RELAY, 0, q(0)), vec![]);
}

#[test]
fn swap_bond_refund() {
    let rec = record(1000);
    let quote = BridgeQuote { swap_fee: 100, swap_receiver: SWAP_RECEIVER, bridger: BRIDGER };
    let plan = submit(&rec, None, Some(quote)).unwrap();
    assert_eq!(plan.transfers.len(), 2);
    let mut swap: Option<BondSwap> = plan.bond_swap;
    {
        let bs = swap.as_ref().unwrap();
        assert_eq!((bs.expire, bs.bond_state, bs.refunded, bs.dest_id), (0, BondState::Dealing, false, 3));
        assert_eq!(bs.recipient, vec![8, 8]);
    }
    let mut pipe = BondPipeline { bond: 0, unbond: 0, active: 0 };
    // no refund delay set
    let r = execute_bond_record(&Some(record(1000)), BondReason::PoolUnmatch, Some(BondState::Dealing), &mut swap, None, 5, &mut pipe, 0);
    assert!(matches!(r, Err(SeriesError::ExpireNotSet)));
    let out = execute_bond_record(&Some(rec), BondReason::PoolUnmatch, Some(BondState::Dealing), &mut swap, Some(10), 5, &mut pipe, 0).unwrap();
    assert_eq!(out.state, BondState::Fail);
    {
        let bs = swap.as_ref().unwrap();
        assert_eq!((bs.expire, bs.bond_state), (15, BondState::Fail));
    }
    assert!(matches!(refund_swap_fee(&mut swap, 14), Err(SeriesError::NotRefundable)));
    assert_eq!(refund_swap_fee(&mut swap, 15), Ok(Transfer { from: BRIDGER, to: BOB, amount: 100 }));
    assert!(swap.as_ref().unwrap().refunded);
    assert!(matches!(refund_swap_fee(&mut swap, 16), Err(SeriesError::NotRefundable)));
    let mut none: Option<BondSwap> = None;
    assert!(matches!(refund_swap_fee(&mut none, 16), Err(SeriesError::SwapNotExist)));
}

#[test]
fn swap_bond_success_mints_to_bridger() {
    let rec = record(1000);
    let quote = BridgeQuote { swap_fee: 100, swap_receiver: SWAP_RECEIVER, bridger: BRIDGER };
    let mut swap = submit(&rec, None, Some(quote)).unwrap().bond_swap;
    let mut pipe = BondPipeline { bond: 0, unbond: 0, active: 0 };
    let out = execute_bond_record(&Some(rec), BondReason::Pass, Some(BondState::Dealing), &mut swap, None, 5, &mut pipe, 2000).unwrap();
    assert_eq!(out.mint_to, Some(BRIDGER));
    assert_eq!(out.fee_transfer, Some(Transfer { from: BRIDGER, to: SWAP_RECEIVER, amount: 100 }));
    assert_eq!(swap.as_ref().unwrap().bond_state, BondState::Success);
    // a swap that succeeded is not refundable
    assert!(matches!(refund_swap_fee(&mut swap, 100), Err(SeriesError::NotRefundable)));
}

#[test]
fn unbond_with_commission() {
    let quote = unbond_check(1_000_000, true, true, true, Some(10), Some(28), true, true, 1_000_000, 2_000_000).unwrap();
    assert_eq!(quote, UnbondQuote { fee: 2000, left_value: 998_000, current_era: 10, unlock_era: 38 });
    let mut pipe = BondPipeline { bond: 5_000_000, unbond: 0, active: 5_000_000 };
    let mut queue: Vec<Unbonding> = Vec::new();
    let chunks = unbond_apply(998_000, &mut pipe, vec![], &mut queue, 0, quote, BOB, vec![1], vec![2]).unwrap();
    assert_eq!(pipe, BondPipeline { bond: 5_000_000, unbond: 998_000, active: 4_002_000 });
    assert_eq!(chunks.len(), 1);
    assert_eq!((chunks[0].unlock_era, chunks[0].value), (38, 998_000));
    assert_eq!(queue.len(), 1);
    assert_eq!((queue[0].who, queue[0].value), (BOB, 998_000));
}

#[test]
fn unbond_check_errors() {
    let c = 2_000_000;
    assert_eq!(unbond_check(0, true, true, true, Some(1), Some(1), true, true, 10, c), Err(SeriesError::LiquidityUnbondZero));
    assert_eq!(unbond_check(5, false, true, true, Some(1), Some(1), true, true, 10, c), Err(SeriesError::BondSwitchClosed));
    assert_eq!(unbond_check(5, true, false, true, Some(1), Some(1), true, true, 10, c), Err(SeriesError::PoolNotFound));
    assert_eq!(unbond_check(5, true, true, false, Some(1), Some(1), true, true, 10, c), Err(SeriesError::InvalidPubkey));
    assert_eq!(unbond_check(5, true, true, true, None, Some(1), true, true, 10, c), Err(SeriesError::NoCurrentEra));
    assert_eq!(unbond_check(5, true, true, true, Some(1), None, true, true, 10, c), Err(SeriesError::BondingDurationNotSet));
    assert_eq!(unbond_check(5, true, true, true, Some(u32::MAX), Some(1), true, true, 10, c), Err(SeriesError::OverFlow));
    assert_eq!(unbond_check(5, true, true, true, Some(1), Some(1), false, true, 10, c), Err(SeriesError::NoReceiver));
    assert_eq!(unbond_check(5, true, true, true, Some(1), Some(1), true, false, 10, c), Err(SeriesError::NoRelayFeesReceiver));
    assert_eq!(unbond_check(11, true, true, true, Some(1), Some(1), true, true, 10, c), Err(SeriesError::Insufficient));
    assert_eq!(unbond_check(5, true, true, true, Some(1), Some(1), true, true, 10, 1_000_000_000), Err(SeriesError::Insufficient));
}

#[test]
fn unbond_apply_errors() {
    let quote = UnbondQuote { fee: 0, left_value: 10, current_era: 5, unlock_era: 9 };
    let mut queue: Vec<Unbonding> = Vec::new();
    let mut pipe = BondPipeline { bond: 0, unbond: u128::MAX, active: 100 };
    assert!(matches!(unbond_apply(1, &mut pipe, vec![], &mut queue, 0, quote, BOB, vec![], vec![]), Err(SeriesError::OverFlow)));
    let mut pipe = BondPipeline { bond: 0, unbond: 0, active: 5 };
    assert!(matches!(unbond_apply(6, &mut pipe, vec![], &mut queue, 0, quote, BOB, vec![], vec![]), Err(SeriesError::Insufficient)));
    let locked: Vec<UserUnlockChunk> = (0..32).map(|_| chunk(9)).collect();
    assert!(matches!(unbond_apply(1, &mut pipe, locked, &mut queue, 0, quote, BOB, vec![], vec![]), Err(SeriesError::NoMoreUnbondingChunks)));
    assert_eq!(pipe, BondPipeline { bond: 0, unbond: 0, active: 5 });
}

#[test]
fn era_unbond_limit_admits_one_over() {
    let quote = UnbondQuote { fee: 0, left_value: 10, current_era: 5, unlock_era: 9 };
    let mut pipe = BondPipeline { bond: 0, unbond: 0, active: 100 };
    let mut queue: Vec<Unbonding> = vec![Unbonding { who: BOB, value: 1, recipient: vec![] }];
    assert!(unbond_apply(1, &mut pipe, vec![], &mut queue, 1, quote, BOB, vec![], vec![]).is_ok());
    assert_eq!(queue.len(), 2);
    assert!(matches!(unbond_apply(1, &mut pipe, vec![], &mut queue, 1, quote, BOB, vec![], vec![]), Err(SeriesError::PoolLimitReached)));
    assert_eq!(queue.len(), 2);
}

#[test]
fn chunk_pruning() {
    // below the cap nothing changes
    let few: Vec<UserUnlockChunk> = (0..31).map(chunk).collect();
    assert_eq!(prune_unlock_chunks(few, 100).len(), 31);
    // at the cap with 12 chunks still locking: the oldest 17 go
    let all: Vec<UserUnlockChunk> = (0..32).map(chunk).collect();
    let pruned = prune_unlock_chunks(all, 20);
    assert_eq!(pruned.len(), 15);
    assert_eq!(pruned[0].unlock_era, 17);
    // at the cap with 20 chunks still locking: those are kept
    let all: Vec<UserUnlockChunk> = (0..32).map(chunk).collect();
    let pruned = prune_unlock_chunks(all, 12);
    assert_eq!(pruned.len(), 20);
    assert!(pruned.iter().all(|c| c.unlock_era >= 12));
    assert_eq!(pruned[0].unlock_era, 12);
}

#[test]
fn chunks_never_exceed_cap() {
    let quote = UnbondQuote { fee: 0, left_value: 10, current_era: 0, unlock_era: 40 };
    let mut pipe = BondPipeline { bond: 0, unbond: 0, active: 1_000_000 };
    let mut queue: Vec<Unbonding> = Vec::new();
    let mut chunks: Vec<UserUnlockChunk> = Vec::new();
    for _ in 0..31 {
        chunks = unbond_apply(1, &mut pipe, chunks, &mut queue, 0, quote, BOB, vec![], vec![]).unwrap();
    }
    assert_eq!(chunks.len(), 31);
    chunks = unbond_apply(1, &mut pipe, chunks, &mut queue, 0, quote, BOB, vec![], vec![]).unwrap();
    assert_eq!(chunks.len(), 32);
    // every chunk is still locked, so no room is made
    assert!(matches!(unbond_apply(1, &mut pipe, chunks, &mut queue, 0, quote, BOB, vec![], vec![]), Err(SeriesError::NoMoreUnbondingChunks)));
}

#[test]
fn signature_collection() {
    let mut sigs: Vec<Vec<u8>> = Vec::new();
    assert_eq!(submit_signatures(RSymbol::RDOT, 1, Some(1), true, true, false, &mut sigs, vec![1], Some(2)), Err(SeriesError::InvalidRSymbol));
    assert_eq!(submit_signatures(RSymbol::RETH, 1, Some(1), false, true, false, &mut sigs, vec![1], Some(2)), Err(SeriesError::MustBeRelayer));
    assert_eq!(submit_signatures(RSymbol::RETH, 1, Some(1), true, false, false, &mut sigs, vec![1], Some(2)), Err(SeriesError::PoolNotFound));
    assert_eq!(submit_signatures(RSymbol::RETH, 1, None, true, true, false, &mut sigs, vec![1], Some(2)), Err(SeriesError::NoCurrentEra));
    assert_eq!(submit_signatures(RSymbol::RETH, 2, Some(1), true, true, false, &mut sigs, vec![1], Some(2)), Err(SeriesError::InvalidEra));
    assert_eq!(submit_signatures(RSymbol::RETH, 1, Some(1), true, true, true, &mut sigs, vec![1], Some(2)), Err(SeriesError::SignatureRepeated));
    assert_eq!(submit_signatures(RSymbol::RETH, 1, Some(1), true, true, false, &mut sigs, vec![1], Some(2)), Ok(false));
    assert_eq!(submit_signatures(RSymbol::RETH, 1, Some(1), true, true, false, &mut sigs, vec![1], Some(2)), Err(SeriesError::SignatureRepeated));
    assert_eq!(submit_signatures(RSymbol::RATOM, 0, Some(1), true, true, false, &mut sigs, vec![2], Some(2)), Ok(true));
    // past the threshold the set no longer reports being enough
    assert_eq!(submit_signatures(RSymbol::RETH, 1, Some(1), true, true, false, &mut sigs, vec![3], Some(2)), Ok(false));
    assert_eq!(sigs, vec![vec![1], vec![2], vec![3]]);
}

#[test]
fn nominations() {
    assert_eq!(init_nominations(false, &None), Err(SeriesError::PoolNotBonded));
    assert_eq!(init_nominations(true, &Some(vec![])), Err(SeriesError::NominationsInitialized));
    assert_eq!(init_nominations(true, &None), Ok(()));
    assert_eq!(update_nominations(true, None, &None, None, 3), Err(SeriesError::LastVoterNobody));
    assert_eq!(update_nominations(false, Some(BOB), &None, None, 3), Err(SeriesError::PoolNotBonded));
    assert_eq!(update_nominations(true, Some(BOB), &Some(vec![vec![1]]), Some(7), 3), Ok(Some(7)));
    assert_eq!(update_nominations(true, Some(BOB), &Some(vec![vec![1]]), None, 3), Ok(Some(3)));
    assert_eq!(update_nominations(true, Some(BOB), &Some(vec![]), Some(7), 3), Ok(None));

    let mut validators = vec![vec![1], vec![2], vec![1]];
    assert_eq!(update_validator(true, &mut validators, &vec![1], vec![9]), Ok(()));
    assert_eq!(validators, vec![vec![2], vec![1], vec![9]]);
    assert_eq!(update_validator(true, &mut validators, &vec![5], vec![6]), Ok(()));
    assert_eq!(validators, vec![vec![2], vec![1], vec![9], vec![6]]);
    assert_eq!(update_validator(false, &mut validators, &vec![2], vec![6]), Err(SeriesError::PoolNotBonded));
}

#[test]
fn configuration() {
    let mut c = SeriesConfig::new();
    assert!(c.bond_switch());
    let dot = c.symbol_config(RSymbol::RDOT);
    assert!(dot.rtoken_bond_switch);
    assert_eq!((dot.bond_fees, dot.unbond_fees, dot.pool_balance_limit), (1_500_000_000_000, 3_000_000_000_000, 0));
    assert_eq!(dot.bond_swap_refund_expire, None);
    assert_eq!(c.unbond_commission(), 2_000_000);
    assert_eq!(c.relay_fees_receiver(), None);

    c.toggle_bond_switch();
    assert!(!c.bond_switch());
    c.toggle_rtoken_bond_switch(RSymbol::RDOT);
    assert!(!c.symbol_config(RSymbol::RDOT).rtoken_bond_switch);
    assert!(c.symbol_config(RSymbol::RKSM).rtoken_bond_switch);

    assert_eq!(c.set_bond_fees(&BOB, RSymbol::RDOT, 7), Err(SeriesError::InvalidProxyAccount));
    c.set_proxy_accounts(BOB);
    c.set_proxy_accounts(BOB);
    assert!(c.is_proxy(&BOB));
    assert!(!c.is_proxy(&RELAY));
    assert_eq!(c.set_bond_fees(&BOB, RSymbol::RDOT, 7), Ok(()));
    assert_eq!(c.set_unbond_fees(&BOB, RSymbol::RDOT, 8), Ok(()));
    assert_eq!((c.symbol_config(RSymbol::RDOT).bond_fees, c.symbol_config(RSymbol::RDOT).unbond_fees), (7, 8));
    assert_eq!(c.symbol_config(RSymbol::RKSM).bond_fees, 1_500_000_000_000);
    c.remove_proxy_accounts(&BOB);
    assert!(!c.is_proxy(&BOB));
    assert_eq!(c.set_unbond_fees(&BOB, RSymbol::RDOT, 9), Err(SeriesError::InvalidProxyAccount));

    assert_eq!(c.set_balance_limit(RSymbol::RDOT, 5), 0);
    assert_eq!(c.set_balance_limit(RSymbol::RDOT, 6), 5);
    c.swap_refund_expire(RSymbol::RDOT, 10);
    assert_eq!(c.symbol_config(RSymbol::RDOT).bond_swap_refund_expire, Some(10));
    assert_eq!(c.set_unbond_commission(999_999_999), Ok(2_000_000));
    assert_eq!(c.set_unbond_commission(1_000_000_000), Err(SeriesError::OverFlow));
    assert_eq!(c.unbond_commission(), 999_999_999);
    c.set_relay_fees_receiver(RELAY);
    assert_eq!(c.relay_fees_receiver(), Some(RELAY));
}

#[test]
fn accepted_bond_without_overflow_succeeds() {
    // just below the limit on both counters
    let mut swap = None;
    let mut pipe = BondPipeline { bond: u128::MAX - 5, unbond: 3, active: u128::MAX - 5 };
    let out = execute_bond_record(&Some(record(5)), BondReason::Pass, Some(BondState::Fail), &mut swap, None, 1, &mut pipe, 7).unwrap();
    assert_eq!(out.state, BondState::Success);
    assert_eq!(pipe, BondPipeline { bond: u128::MAX, unbond: 3, active: u128::MAX });
    // one over on the active counter alone
    let mut pipe = BondPipeline { bond: 0, unbond: 0, active: u128::MAX - 4 };
    let r = execute_bond_record(&Some(record(5)), BondReason::Pass, Some(BondState::Dealing), &mut swap, None, 1, &mut pipe, 7);
    assert!(matches!(r, Err(SeriesError::OverFlow)));
    assert_eq!(pipe, BondPipeline { bond: 0, unbond: 0, active: u128::MAX - 4 });
}
