//! The bond lifecycle: bond submission, execution and swap-fee refunds.
//!
//! Each operation is a function of the stored values it reads and of what the chain's
//! other modules reported; it returns the values to store and the transfers to make.
use vstd::prelude::*;
use crate::primitives::{ChainType, RSymbol, chain_type_of, symbol_index};

verus! {

/// A 32-byte account identifier.
pub type AccountId = [u8; 32];

/// Parts per billion of a whole.
pub const PERBILL_ACCURACY: u32 = 1_000_000_000;

/// Where a bond's source-chain transaction stands.
#[derive(Clone, Copy, Debug, PartialEq, Eq, Hash, Structural)]
pub enum BondState {
    Dealing,
    Fail,
    Success,
}

/// Why a relayer accepted or rejected a bond.
#[derive(Clone, Copy, Debug, PartialEq, Eq, Structural)]
pub enum BondReason {
    Pass,
    BlockhashUnmatch,
    TxhashUnmatch,
    PubkeyUnmatch,
    PoolUnmatch,
    AmountUnmatch,
}

/// What a chain family's signature check said of a bond's attestation.
#[derive(Clone, Copy, Debug, PartialEq, Eq, Structural)]
pub enum SigVerifyResult {
    InvalidPubkey,
    Fail,
    Pass,
}

/// The kind of source-chain transaction a signature set is collected for.
#[derive(Clone, Copy, Debug, PartialEq, Eq, Hash, Structural)]
pub enum OriginalTxType {
    Transfer,
    Bond,
    Unbond,
    WithdrawUnbond,
    ClaimRewards,
}

/// Why a bond-lifecycle operation was rejected.
#[derive(Clone, Copy, Debug, PartialEq, Eq, Structural)]
pub enum SeriesError {
    BondSwitchClosed,
    InvalidProxyAccount,
    PoolNotFound,
    PoolNotBonded,
    NoRelayFeesReceiver,
    NoReceiver,
    LiquidityBondZero,
    TxhashUnavailable,
    TxhashUnexecutable,
    BondRepeated,
    InvalidRSymbol,
    InvalidPubkey,
    InvalidSignature,
    OverFlow,
    PoolLimitReached,
    BondNotFound,
    LiquidityUnbondZero,
    NoMoreUnbondingChunks,
    NoCurrentEra,
    InvalidEra,
    Insufficient,
    BondingDurationNotSet,
    SignatureRepeated,
    NominationsInitialized,
    LastVoterNobody,
    MustBeRelayer,
    ExpireNotSet,
    SwapNotExist,
    NotRefundable,
}

/// A transaction hash can be bonded when it was never seen or its last bond failed.
pub open spec fn txhash_available(state: Option<BondState>) -> bool {
    state.is_none() || state == Some(BondState::Fail)
}

/// A bond can be executed while it is being dealt with, or again after it failed.
pub open spec fn txhash_executable(state: Option<BondState>) -> bool {
    state == Some(BondState::Dealing) || state == Some(BondState::Fail)
}

/// Whether a transaction hash whose stored state is `state` can be bonded.
pub fn is_txhash_available(state: Option<BondState>) -> (r: bool)
    ensures
        r == txhash_available(state),
{
    match state {
        None => true,
        Some(s) => s == BondState::Fail,
    }
}

/// Whether a bond whose transaction hash has stored state `state` can be executed.
pub fn is_txhash_executable(state: Option<BondState>) -> (r: bool)
    ensures
        r == txhash_executable(state),
{
    match state {
        None => false,
        Some(s) => s == BondState::Dealing || s == BondState::Fail,
    }
}

/// The checks a bond submission must pass, in the order they are made.
pub open spec fn bondable_result(
    bond_switch: bool,
    rtoken_bond_switch: bool,
    amount: u128,
    state: Option<BondState>,
    pool_bonded: bool,
    sig_result: SigVerifyResult,
) -> Result<(), SeriesError> {
    if !bond_switch || !rtoken_bond_switch {
        Err(SeriesError::BondSwitchClosed)
    } else if amount == 0 {
        Err(SeriesError::LiquidityBondZero)
    } else if !txhash_available(state) {
        Err(SeriesError::TxhashUnavailable)
    } else if !pool_bonded {
        Err(SeriesError::PoolNotBonded)
    } else if sig_result == SigVerifyResult::InvalidPubkey {
        Err(SeriesError::InvalidPubkey)
    } else if sig_result == SigVerifyResult::Fail {
        Err(SeriesError::InvalidSignature)
    } else {
        Ok(())
    }
}

/// Checks a bond submission: both switches on, a non-zero amount, an available
/// transaction hash (stored state `state`), a bonded pool, and an attestation that
/// `sig_result` accepted. The attestation is checked against
/// `signature_message(who, symbol)`.
pub fn bondable(
    bond_switch: bool,
    rtoken_bond_switch: bool,
    amount: u128,
    state: Option<BondState>,
    pool_bonded: bool,
    sig_result: SigVerifyResult,
) -> (r: Result<(), SeriesError>)
    ensures
        r == bondable_result(bond_switch, rtoken_bond_switch, amount, state, pool_bonded, sig_result),
{
    if !bond_switch {
        return Err(SeriesError::BondSwitchClosed);
    }
    if !rtoken_bond_switch {
        return Err(SeriesError::BondSwitchClosed);
    }
    if amount == 0 {
        return Err(SeriesError::LiquidityBondZero);
    }
    if !is_txhash_available(state) {
        return Err(SeriesError::TxhashUnavailable);
    }
    if !pool_bonded {
        return Err(SeriesError::PoolNotBonded);
    }
    match sig_result {
        SigVerifyResult::InvalidPubkey => Err(SeriesError::InvalidPubkey),
        SigVerifyResult::Fail => Err(SeriesError::InvalidSignature),
        SigVerifyResult::Pass => Ok(()),
    }
}

/// The lower-case ASCII hex digit of a nibble.
pub open spec fn hex_digit(n: u8) -> u8 {
    if n < 10 {
        (0x30 + n) as u8
    } else {
        (0x61 + n - 10) as u8
    }
}

/// Two lower-case ASCII hex digits per byte, high nibble first.
pub open spec fn ascii_hex(data: Seq<u8>) -> Seq<u8> {
    Seq::new(2 * data.len(), |i: int| if i % 2 == 0 { hex_digit(data[i / 2] / 16) } else {
        hex_digit(data[i / 2] % 16)
    })
}

/// The message an attestation signs: for ethereum-family symbols the ASCII hex of the
/// account, for the others the account's bytes.
pub open spec fn signature_message_of(who: Seq<u8>, symbol: RSymbol) -> Seq<u8> {
    if chain_type_of(symbol) == ChainType::Ethereum {
        ascii_hex(who)
    } else {
        who
    }
}

/// Lower-case ASCII hex of `data`, two digits per byte.
pub fn to_ascii_hex(data: &[u8]) -> (r: Vec<u8>)
    requires
        data@.len() * 2 <= usize::MAX,
    ensures
        r@ == ascii_hex(data@),
{
    let mut r: Vec<u8> = Vec::with_capacity(data.len() * 2);
    let mut i: usize = 0;
    while i < data.len()
        invariant
            i <= data@.len(),
            data@.len() * 2 <= usize::MAX,
            r@.len() == 2 * i,
            forall|j: int| 0 <= j < 2 * i ==> r@[j] == ascii_hex(data@)[j],
        decreases data@.len() - i,
    {
        let b = data[i];
        let hi = b / 16;
        let lo = b % 16;
        r.push(if hi < 10 { 0x30 + hi } else { 0x61 + hi - 10 });
        r.push(if lo < 10 { 0x30 + lo } else { 0x61 + lo - 10 });
        proof {
            assert((2 * i as int) / 2 == i as int);
            assert((2 * i as int + 1) / 2 == i as int);
            assert((2 * i as int) % 2 == 0);
            assert((2 * i as int + 1) % 2 == 1);
        }
        i = i + 1;
    }
    assert(r@ =~= ascii_hex(data@));
    r
}

/// The message that a bonder's attestation must sign.
pub fn signature_message(who: &AccountId, symbol: RSymbol) -> (r: Vec<u8>)
    ensures
        r@ == signature_message_of(who@, symbol),
{
    if symbol.chain_type() == ChainType::Ethereum {
        to_ascii_hex(who)
    } else {
        let mut r: Vec<u8> = Vec::new();
        let mut i: usize = 0;
        while i < 32
            invariant
                i <= 32,
                r@ == who@.subrange(0, i as int),
            decreases 32 - i,
        {
            r.push(who[i]);
            assert(who@.subrange(0, i + 1) =~= who@.subrange(0, i as int).push(who@[i as int]));
            i = i + 1;
        }
        assert(who@.subrange(0, 32) =~= who@);
        r
    }
}

/// The commission `value · parts / 10⁹`, rounded to the nearest integer, halves down.
pub open spec fn perbill_product(parts: u32, value: u128) -> int {
    let p = if parts > PERBILL_ACCURACY {
        PERBILL_ACCURACY as int
    } else {
        parts as int
    };
    let exact = value * p;
    exact / 1_000_000_000 + if exact % 1_000_000_000 > 500_000_000 {
        1int
    } else {
        0int
    }
}

/// Relies on `Perbill::from_parts`, which caps the parts at 10⁹, and on `Perbill * u128`,
/// which rounds `value · parts / 10⁹` to the nearest integer, halves down.
#[verifier::external_body]
fn perbill_mul(parts: u32, value: u128) -> (r: u128)
    ensures
        r as int == perbill_product(parts, value),
{
    sp_runtime::Perbill::from_parts(parts) * value
}

/// The protocol's share of an unbond of `value` at a commission of `commission` parts
/// per billion.
pub fn protocol_unbond_fee(commission: u32, value: u128) -> (r: u128)
    ensures
        r as int == perbill_product(commission, value),
{
    perbill_mul(commission, value)
}

/// A bond as submitted: who bonded how much, from which source-chain transaction.
#[derive(Clone, Debug)]
pub struct BondRecord {
    pub bonder: AccountId,
    pub symbol: RSymbol,
    pub pubkey: Vec<u8>,
    pub pool: Vec<u8>,
    pub blockhash: Vec<u8>,
    pub txhash: Vec<u8>,
    pub amount: u128,
}

impl BondRecord {
    pub fn new(
        bonder: AccountId,
        symbol: RSymbol,
        pubkey: Vec<u8>,
        pool: Vec<u8>,
        blockhash: Vec<u8>,
        txhash: Vec<u8>,
        amount: u128,
    ) -> (r: BondRecord)
        ensures
            r.bonder == bonder,
            r.symbol == symbol,
            r.pubkey@ == pubkey@,
            r.pool@ == pool@,
            r.blockhash@ == blockhash@,
            r.txhash@ == txhash@,
            r.amount == amount,
    {
        BondRecord { bonder, symbol, pubkey, pool, blockhash, txhash, amount }
    }

    /// The record's byte fields are short enough for their SCALE length prefix.
    pub open spec fn encodable(&self) -> bool {
        self.pubkey@.len() <= u32::MAX && self.pool@.len() <= u32::MAX && self.blockhash@.len()
            <= u32::MAX && self.txhash@.len() <= u32::MAX
    }
}

/// `n` as `k` little-endian bytes.
pub open spec fn le_bytes(n: nat, k: nat) -> Seq<u8>
    decreases k,
{
    if k == 0 {
        Seq::empty()
    } else {
        seq![(n % 256) as u8].add(le_bytes(n / 256, (k - 1) as nat))
    }
}

/// The SCALE compact encoding of a length below 2³².
pub open spec fn compact_prefix(n: nat) -> Seq<u8> {
    if n < 64 {
        seq![(n * 4) as u8]
    } else if n < 16384 {
        le_bytes(n * 4 + 1, 2)
    } else if n < 1073741824 {
        le_bytes(n * 4 + 2, 4)
    } else {
        seq![3u8].add(le_bytes(n, 4))
    }
}

/// The SCALE encoding of a byte vector: its compact length, then the bytes.
pub open spec fn scale_bytes(b: Seq<u8>) -> Seq<u8> {
    compact_prefix(b.len()).add(b)
}

/// The SCALE encoding of a bond record: its fields in order; the account as its 32 bytes,
/// the symbol as its variant index, the amount as 16 little-endian bytes.
pub open spec fn bond_record_encoding(r: BondRecord) -> Seq<u8> {
    r.bonder@.add(seq![symbol_index(r.symbol)]).add(scale_bytes(r.pubkey@)).add(
        scale_bytes(r.pool@),
    ).add(scale_bytes(r.blockhash@)).add(scale_bytes(r.txhash@)).add(le_bytes(r.amount as nat, 16))
}

/// The BLAKE2b-256 digest of some bytes.
pub uninterp spec fn blake2_256_of(data: Seq<u8>) -> Seq<u8>;

/// Relies on `parity_scale_codec::Encode` for `Vec<u8>`: a compact length, then the bytes.
/// It panics on a length above `u32::MAX`.
#[verifier::external_body]
fn encode_bytes(b: &Vec<u8>) -> (r: Vec<u8>)
    requires
        b@.len() <= u32::MAX,
    ensures
        r@ == scale_bytes(b@),
{
    parity_scale_codec::Encode::encode(b)
}

/// Relies on `parity_scale_codec::Encode` for `u128`: 16 little-endian bytes.
#[verifier::external_body]
fn encode_u128(x: u128) -> (r: Vec<u8>)
    ensures
        r@ == le_bytes(x as nat, 16),
{
    parity_scale_codec::Encode::encode(&x)
}

/// Relies on `BlakeTwo256::hash` of sp_runtime: the BLAKE2b-256 digest of the bytes.
#[verifier::external_body]
fn blake2_256(data: &Vec<u8>) -> (r: [u8; 32])
    ensures
        r@ == blake2_256_of(data@),
{
    <sp_runtime::traits::BlakeTwo256 as sp_runtime::traits::Hash>::hash(data).0
}

/// Appends `src` to `dst`.
fn push_all(dst: &mut Vec<u8>, src: &[u8])
    ensures
        final(dst)@ == old(dst)@.add(src@),
{
    let mut i: usize = 0;
    while i < src.len()
        invariant
            i <= src@.len(),
            dst@ == old(dst)@.add(src@.subrange(0, i as int)),
        decreases src@.len() - i,
    {
        dst.push(src[i]);
        assert(src@.subrange(0, i + 1) =~= src@.subrange(0, i as int).push(src@[i as int]));
        i = i + 1;
    }
    assert(src@.subrange(0, src@.len() as int) =~= src@);
}

/// The SCALE encoding of a bond record.
pub fn encode_bond_record(record: &BondRecord) -> (r: Vec<u8>)
    requires
        record.encodable(),
    ensures
        r@ == bond_record_encoding(*record),
{
    let mut r: Vec<u8> = Vec::new();
    push_all(&mut r, &record.bonder);
    r.push(record.symbol.index());
    let pubkey = encode_bytes(&record.pubkey);
    push_all(&mut r, pubkey.as_slice());
    let pool = encode_bytes(&record.pool);
    push_all(&mut r, pool.as_slice());
    let blockhash = encode_bytes(&record.blockhash);
    push_all(&mut r, blockhash.as_slice());
    let txhash = encode_bytes(&record.txhash);
    push_all(&mut r, txhash.as_slice());
    let amount = encode_u128(record.amount);
    push_all(&mut r, amount.as_slice());
    assert(r@ =~= bond_record_encoding(*record));
    r
}

/// A bond's identity: the BLAKE2b-256 digest of its record's encoding.
pub fn bond_id(record: &BondRecord) -> (r: [u8; 32])
    requires
        record.encodable(),
    ensures
        r@ == blake2_256_of(bond_record_encoding(*record)),
{
    let encoded = encode_bond_record(record);
    blake2_256(&encoded)
}

/// A payment the host is to make in native currency.
#[derive(Clone, Copy, Debug, PartialEq, Eq)]
pub struct Transfer {
    pub from: AccountId,
    pub to: AccountId,
    pub amount: u128,
}

/// What the bridge quoted for forwarding a bond's rTOKEN to another chain.
#[derive(Clone, Copy, Debug, PartialEq, Eq)]
pub struct BridgeQuote {
    pub swap_fee: u128,
    pub swap_receiver: AccountId,
    pub bridger: AccountId,
}

/// A cross-chain bond's forwarding: who pays whom, and whether its fee was refunded.
#[derive(Clone, Debug)]
pub struct BondSwap {
    pub bonder: AccountId,
    pub swap_fee: u128,
    pub swap_receiver: AccountId,
    pub bridger: AccountId,
    pub recipient: Vec<u8>,
    pub dest_id: u8,
    pub expire: u32,
    pub bond_state: BondState,
    pub refunded: bool,
}

impl BondSwap {
    /// The swap fee can be refunded once the bond failed and its expiry block came.
    pub open spec fn refundable_at(&self, now: u32) -> bool {
        !self.refunded && self.bond_state == BondState::Fail && now >= self.expire && self.expire
            > 0
    }

    pub fn refundable(&self, now: u32) -> (r: bool)
        ensures
            r == self.refundable_at(now),
    {
        !self.refunded && self.bond_state == BondState::Fail && now >= self.expire && self.expire
            > 0
    }
}

/// The fee payments of a bond submission. Without a bridge quote the bond fee goes to
/// the relay-fees receiver. With one, the bonder pays the bridger both fees and the
/// bridger passes the bond fee on; a single non-zero fee goes straight to its payee.
pub open spec fn bond_fee_payments(
    who: AccountId,
    bond_receiver: AccountId,
    bond_fee: u128,
    quote: Option<BridgeQuote>,
) -> Seq<Transfer> {
    match quote {
        None => if bond_fee > 0 {
            seq![Transfer { from: who, to: bond_receiver, amount: bond_fee }]
        } else {
            Seq::empty()
        },
        Some(q) => if q.swap_fee > 0 && bond_fee > 0 {
            seq![
                Transfer { from: who, to: q.bridger, amount: q.swap_fee.saturating_add(bond_fee) },
                Transfer { from: q.bridger, to: bond_receiver, amount: bond_fee },
            ]
        } else if q.swap_fee > 0 {
            seq![Transfer { from: who, to: q.bridger, amount: q.swap_fee }]
        } else if bond_fee > 0 {
            seq![Transfer { from: who, to: bond_receiver, amount: bond_fee }]
        } else {
            Seq::empty()
        },
    }
}

/// The fee payments of a bond submission; see `bond_fee_payments`.
pub fn bond_fee_transfers(
    who: AccountId,
    bond_receiver: AccountId,
    bond_fee: u128,
    quote: Option<BridgeQuote>,
) -> (r: Vec<Transfer>)
    ensures
        r@ == bond_fee_payments(who, bond_receiver, bond_fee, quote),
{
    let mut r: Vec<Transfer> = Vec::new();
    match quote {
        None => {
            if bond_fee > 0 {
                r.push(Transfer { from: who, to: bond_receiver, amount: bond_fee });
            }
        },
        Some(q) => {
            if q.swap_fee > 0 && bond_fee > 0 {
                r.push(
                    Transfer { from: who, to: q.bridger, amount: q.swap_fee.saturating_add(bond_fee) },
                );
                r.push(Transfer { from: q.bridger, to: bond_receiver, amount: bond_fee });
            } else if q.swap_fee > 0 {
                r.push(Transfer { from: who, to: q.bridger, amount: q.swap_fee });
            } else if bond_fee > 0 {
                r.push(Transfer { from: who, to: bond_receiver, amount: bond_fee });
            }
        },
    }
    assert(r@ =~= bond_fee_payments(who, bond_receiver, bond_fee, quote));
    r
}

/// What an accepted bond submission leaves behind: the bond's identity, the bonder's new
/// bond count, the fee payments and, for a cross-chain bond, its forwarding. The
/// transaction hash's state becomes `Dealing`, the record is stored under `bond_id` and
/// indexed under the bonder's previous count.
pub struct BondPlan {
    pub bond_id: [u8; 32],
    pub new_count: u64,
    pub transfers: Vec<Transfer>,
    pub bond_swap: Option<BondSwap>,
}

/// The checks of a bond submission after `bondable`, in order.
pub open spec fn submit_result(
    bondable: Result<(), SeriesError>,
    relay_fees_receiver: Option<AccountId>,
    record_exists: bool,
    old_count: u64,
) -> Result<(), SeriesError> {
    if bondable.is_err() {
        bondable
    } else if relay_fees_receiver.is_none() {
        Err(SeriesError::NoRelayFeesReceiver)
    } else if record_exists {
        Err(SeriesError::BondRepeated)
    } else if old_count == u64::MAX {
        Err(SeriesError::OverFlow)
    } else {
        Ok(())
    }
}

/// Submits a bond. `state` is the stored state of the record's transaction hash,
/// `pool_bonded` whether its pool is bonded, `sig_result` what the signature check said of
/// `signature_message(bonder, symbol)`, `record_exists` whether a record is stored under
/// `bond_id(record)`, `old_count` the bonder's bond count. `quote` is the bridge's quote
/// when the rTOKEN is to be forwarded to `recipient` on chain `dest_id`.
pub fn liquidity_bond(
    record: &BondRecord,
    bond_switch: bool,
    rtoken_bond_switch: bool,
    state: Option<BondState>,
    pool_bonded: bool,
    sig_result: SigVerifyResult,
    relay_fees_receiver: Option<AccountId>,
    record_exists: bool,
    old_count: u64,
    bond_fee: u128,
    quote: Option<BridgeQuote>,
    recipient: Vec<u8>,
    dest_id: u8,
) -> (r: Result<BondPlan, SeriesError>)
    requires
        record.encodable(),
    ensures
        ({
            let checked = submit_result(
                bondable_result(
                    bond_switch,
                    rtoken_bond_switch,
                    record.amount,
                    state,
                    pool_bonded,
                    sig_result,
                ),
                relay_fees_receiver,
                record_exists,
                old_count,
            );
            match r {
                Err(e) => checked == Err::<(), SeriesError>(e),
                Ok(plan) => {
                    &&& checked.is_ok()
                    &&& plan.bond_id@ == blake2_256_of(bond_record_encoding(*record))
                    &&& plan.new_count == old_count + 1
                    &&& plan.transfers@ == bond_fee_payments(
                        record.bonder,
                        relay_fees_receiver.unwrap(),
                        bond_fee,
                        quote,
                    )
                    &&& match quote {
                        None => plan.bond_swap.is_none(),
                        Some(q) => plan.bond_swap.is_some() && ({
                            let bs = plan.bond_swap.unwrap();
                            &&& bs.bonder == record.bonder
                            &&& bs.swap_fee == q.swap_fee
                            &&& bs.swap_receiver == q.swap_receiver
                            &&& bs.bridger == q.bridger
                            &&& bs.recipient@ == recipient@
                            &&& bs.dest_id == dest_id
                            &&& bs.expire == 0
                            &&& bs.bond_state == BondState::Dealing
                            &&& !bs.refunded
                        }),
                    }
                },
            }
        }),
{
    bondable(bond_switch, rtoken_bond_switch, record.amount, state, pool_bonded, sig_result)?;
    let receiver = match relay_fees_receiver {
        Some(a) => a,
        None => {
            return Err(SeriesError::NoRelayFeesReceiver);
        },
    };
    if record_exists {
        return Err(SeriesError::BondRepeated);
    }
    if old_count == u64::MAX {
        return Err(SeriesError::OverFlow);
    }
    let id = bond_id(record);
    let transfers = bond_fee_transfers(record.bonder, receiver, bond_fee, quote);
    let bond_swap = match quote {
        None => None,
        Some(q) => Some(
            BondSwap {
                bonder: record.bonder,
                swap_fee: q.swap_fee,
                swap_receiver: q.swap_receiver,
                bridger: q.bridger,
                recipient,
                dest_id,
                expire: 0,
                bond_state: BondState::Dealing,
                refunded: false,
            },
        ),
    };
    Ok(BondPlan { bond_id: id, new_count: old_count + 1, transfers, bond_swap })
}

/// A pool's staking pipeline: bonded, unbonding and active amounts.
#[derive(Clone, Copy, Debug, PartialEq, Eq, Structural)]
pub struct BondPipeline {
    pub bond: u128,
    pub unbond: u128,
    pub active: u128,
}

/// What executing a bond does beyond its stored state: on acceptance, the rTOKEN minted
/// and to whom, and the swap fee the bridger pays on.
pub struct ExecutePlan {
    pub state: BondState,
    pub mint_to: Option<AccountId>,
    pub minted: u128,
    pub fee_transfer: Option<Transfer>,
}

/// Executes the bond `record` with the relayers' verdict `reason`. `state` is the stored
/// state of its transaction hash, `swap` its forwarding if any, `refund_expire` the
/// symbol's refund delay in blocks, `now` the block number, `pipe` its pool's pipeline and
/// `rbalance` the rTOKEN that the rate gives for the bond's amount.
pub fn execute_bond_record(
    record: &Option<BondRecord>,
    reason: BondReason,
    state: Option<BondState>,
    swap: &mut Option<BondSwap>,
    refund_expire: Option<u32>,
    now: u32,
    pipe: &mut BondPipeline,
    rbalance: u128,
) -> (r: Result<ExecutePlan, SeriesError>)
    ensures
        record.is_none() ==> r == Err::<ExecutePlan, SeriesError>(SeriesError::BondNotFound),
        record.is_some() && !txhash_executable(state) ==> r == Err::<ExecutePlan, SeriesError>(
            SeriesError::TxhashUnexecutable,
        ),
        final(swap).is_some() == old(swap).is_some(),
        r.is_err() ==> *final(pipe) == *old(pipe),
        r.is_err() && old(swap).is_some() ==> {
            &&& final(swap).unwrap().bond_state == old(swap).unwrap().bond_state
            &&& final(swap).unwrap().expire == old(swap).unwrap().expire
        },
        r.is_ok() ==> record.is_some() && txhash_executable(state),
        old(swap).is_some() ==> {
            &&& final(swap).unwrap().refunded == old(swap).unwrap().refunded
            &&& final(swap).unwrap().swap_fee == old(swap).unwrap().swap_fee
            &&& final(swap).unwrap().bridger == old(swap).unwrap().bridger
            &&& final(swap).unwrap().bonder == old(swap).unwrap().bonder
        },
        // a rejection
        record.is_some() && txhash_executable(state) && reason != BondReason::Pass ==> {
            let swap_waits = old(swap).is_some() && !old(swap).unwrap().refunded;
            &&& swap_waits && refund_expire.is_none() ==> r == Err::<ExecutePlan, SeriesError>(
                SeriesError::ExpireNotSet,
            )
            &&& swap_waits && refund_expire.is_some() && now + refund_expire.unwrap() > u32::MAX
                ==> r == Err::<ExecutePlan, SeriesError>(SeriesError::OverFlow)
            &&& r.is_ok() ==> {
                &&& r.unwrap().state == BondState::Fail
                &&& r.unwrap().mint_to.is_none()
                &&& r.unwrap().fee_transfer.is_none()
                &&& *final(pipe) == *old(pipe)
                &&& swap_waits ==> final(swap).unwrap().bond_state == BondState::Fail
                    && final(swap).unwrap().expire == now + refund_expire.unwrap()
                &&& old(swap).is_some() && !swap_waits ==> {
                    &&& final(swap).unwrap().bond_state == old(swap).unwrap().bond_state
                    &&& final(swap).unwrap().expire == old(swap).unwrap().expire
                }
            }
            &&& r.is_err() ==> swap_waits && (refund_expire.is_none() || now
                + refund_expire.unwrap() > u32::MAX)
        },
        // an acceptance
        record.is_some() && txhash_executable(state) && reason == BondReason::Pass ==> {
            let amount = record.unwrap().amount;
            let overflows = old(pipe).bond + amount > u128::MAX || old(pipe).active + amount
                > u128::MAX;
            &&& overflows <==> r.is_err()
            &&& overflows ==> r == Err::<ExecutePlan, SeriesError>(SeriesError::OverFlow)
            &&& r.is_ok() ==> {
                &&& r.unwrap().state == BondState::Success
                &&& final(pipe).bond == old(pipe).bond + amount
                &&& final(pipe).active == old(pipe).active + amount
                &&& final(pipe).unbond == old(pipe).unbond
                &&& r.unwrap().minted == rbalance
                &&& old(swap).is_none() ==> r.unwrap().mint_to == Some(record.unwrap().bonder)
                    && r.unwrap().fee_transfer.is_none()
                &&& old(swap).is_some() ==> {
                    let bs = old(swap).unwrap();
                    &&& r.unwrap().mint_to == Some(bs.bridger)
                    &&& r.unwrap().fee_transfer == Some(
                        Transfer { from: bs.bridger, to: bs.swap_receiver, amount: bs.swap_fee },
                    )
                    &&& final(swap).unwrap().bond_state == BondState::Success
                    &&& final(swap).unwrap().expire == bs.expire
                }
            }
        },
{
    let rec = match record {
        Some(rec) => rec,
        None => {
            return Err(SeriesError::BondNotFound);
        },
    };
    if !is_txhash_executable(state) {
        return Err(SeriesError::TxhashUnexecutable);
    }
    if reason != BondReason::Pass {
        match swap {
            Some(bs) => {
                if !bs.refunded {
                    let delay = match refund_expire {
                        Some(d) => d,
                        None => {
                            return Err(SeriesError::ExpireNotSet);
                        },
                    };
                    let expire = match delay.checked_add(now) {
                        Some(e) => e,
                        None => {
                            return Err(SeriesError::OverFlow);
                        },
                    };
                    bs.expire = expire;
                    bs.bond_state = BondState::Fail;
                }
            },
            None => {},
        }
        return Ok(ExecutePlan { state: BondState::Fail, mint_to: None, minted: 0, fee_transfer: None });
    }
    let bond = match pipe.bond.checked_add(rec.amount) {
        Some(b) => b,
        None => {
            return Err(SeriesError::OverFlow);
        },
    };
    let active = match pipe.active.checked_add(rec.amount) {
        Some(a) => a,
        None => {
            return Err(SeriesError::OverFlow);
        },
    };
    pipe.bond = bond;
    pipe.active = active;
    match swap {
        Some(bs) => {
            bs.bond_state = BondState::Success;
            Ok(
                ExecutePlan {
                    state: BondState::Success,
                    mint_to: Some(bs.bridger),
                    minted: rbalance,
                    fee_transfer: Some(
                        Transfer { from: bs.bridger, to: bs.swap_receiver, amount: bs.swap_fee },
                    ),
                },
            )
        },
        None => Ok(
            ExecutePlan {
                state: BondState::Success,
                mint_to: Some(rec.bonder),
                minted: rbalance,
                fee_transfer: None,
            },
        ),
    }
}

/// Refunds a failed cross-chain bond's swap fee: the bridger pays it back to the bonder.
pub fn refund_swap_fee(swap: &mut Option<BondSwap>, now: u32) -> (r: Result<Transfer, SeriesError>)
    ensures
        old(swap).is_none() ==> r == Err::<Transfer, SeriesError>(SeriesError::SwapNotExist)
            && final(swap).is_none(),
        old(swap).is_some() && !old(swap).unwrap().refundable_at(now) ==> r == Err::<
            Transfer,
            SeriesError,
        >(SeriesError::NotRefundable),
        old(swap).is_some() && old(swap).unwrap().refundable_at(now) ==> r == Ok::<
            Transfer,
            SeriesError,
        >(
            Transfer {
                from: old(swap).unwrap().bridger,
                to: old(swap).unwrap().bonder,
                amount: old(swap).unwrap().swap_fee,
            },
        ),
        old(swap).is_some() ==> final(swap).is_some() && ({
            let (o, f) = (old(swap).unwrap(), final(swap).unwrap());
            &&& f.refunded == (o.refunded || r.is_ok())
            &&& f.bond_state == o.bond_state
            &&& f.expire == o.expire
            &&& f.swap_fee == o.swap_fee
            &&& f.bridger == o.bridger
            &&& f.bonder == o.bonder
        }),
{
    match swap {
        None => Err(SeriesError::SwapNotExist),
        Some(bs) => {
            if !bs.refundable(now) {
                return Err(SeriesError::NotRefundable);
            }
            bs.refunded = true;
            Ok(Transfer { from: bs.bridger, to: bs.bonder, amount: bs.swap_fee })
        },
    }
}

/// Once a transaction hash's bond has succeeded, every later submission with that hash is
/// rejected, and its bond cannot be executed again.
pub proof fn lemma_success_is_terminal(
    bond_switch: bool,
    rtoken_bond_switch: bool,
    amount: u128,
    pool_bonded: bool,
    sig_result: SigVerifyResult,
    relay_fees_receiver: Option<AccountId>,
    record_exists: bool,
    old_count: u64,
)
    ensures
        submit_result(
            bondable_result(
                bond_switch,
                rtoken_bond_switch,
                amount,
                Some(BondState::Success),
                pool_bonded,
                sig_result,
            ),
            relay_fees_receiver,
            record_exists,
            old_count,
        ).is_err(),
        !txhash_executable(Some(BondState::Success)),
{
}

/// A refunded swap fee is never refundable again, whatever the block.
pub proof fn lemma_refund_once(swap: BondSwap, now: u32)
    requires
        swap.refunded,
    ensures
        !swap.refundable_at(now),
{
}

} // verus!
