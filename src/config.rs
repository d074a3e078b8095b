//! The bond lifecycle's configuration: switches, fees, limits, the commission, the relay
//! fees receiver and the proxy accounts allowed to set fees.
use vstd::prelude::*;
use crate::primitives::{RSymbol, symbol_index};
use crate::series::{AccountId, PERBILL_ACCURACY, SeriesError};

verus! {

/// The bond fee of a symbol until a proxy sets another.
pub const DEFAULT_BOND_FEES: u128 = 1_500_000_000_000;

/// The unbond fee of a symbol until a proxy sets another.
pub const DEFAULT_UNBOND_FEES: u128 = 3_000_000_000_000;

/// The unbond commission, in parts per billion, until root sets another.
pub const DEFAULT_UNBOND_COMMISSION: u32 = 2_000_000;

/// The settings kept per symbol.
#[derive(Clone, Copy, Debug, PartialEq, Eq, Structural)]
pub struct SymbolConfig {
    pub rtoken_bond_switch: bool,
    pub bond_fees: u128,
    pub unbond_fees: u128,
    pub pool_balance_limit: u128,
    pub bond_swap_refund_expire: Option<u32>,
}

pub open spec fn default_symbol_config() -> SymbolConfig {
    SymbolConfig {
        rtoken_bond_switch: true,
        bond_fees: DEFAULT_BOND_FEES,
        unbond_fees: DEFAULT_UNBOND_FEES,
        pool_balance_limit: 0,
        bond_swap_refund_expire: None,
    }
}

/// The bytes of each account.
pub open spec fn account_strings(v: Seq<AccountId>) -> Seq<Seq<u8>> {
    v.map_values(|a: AccountId| a@)
}

/// Whether two accounts are the same.
pub fn same_account(a: &AccountId, b: &AccountId) -> (r: bool)
    ensures
        r == (a@ == b@),
{
    let mut i: usize = 0;
    while i < 32
        invariant
            i <= 32,
            a@.len() == 32 && b@.len() == 32,
            forall|j: int| 0 <= j < i ==> a@[j] == b@[j],
        decreases 32 - i,
    {
        if a[i] != b[i] {
            return false;
        }
        i = i + 1;
    }
    assert(a@ =~= b@);
    true
}

/// The configuration of the bond lifecycle.
pub struct SeriesConfig {
    bond_switch: bool,
    symbols: Vec<SymbolConfig>,
    unbond_commission: u32,
    proxy_accounts: Vec<AccountId>,
    relay_fees_receiver: Option<AccountId>,
}

impl SeriesConfig {
    pub closed spec fn wf(&self) -> bool {
        self.symbols@.len() == 8
    }

    pub closed spec fn bond_switch_spec(&self) -> bool {
        self.bond_switch
    }

    pub closed spec fn symbol_spec(&self, symbol: RSymbol) -> SymbolConfig {
        self.symbols@[symbol_index(symbol) as int]
    }

    pub closed spec fn unbond_commission_spec(&self) -> u32 {
        self.unbond_commission
    }

    /// The proxy accounts, as byte strings.
    pub closed spec fn proxies(&self) -> Seq<Seq<u8>> {
        account_strings(self.proxy_accounts@)
    }

    pub closed spec fn relay_fees_receiver_spec(&self) -> Option<AccountId> {
        self.relay_fees_receiver
    }

    /// Bonding on, the default fees and commission, no proxies and no receiver.
    pub fn new() -> (r: SeriesConfig)
        ensures
            r.wf(),
            r.bond_switch_spec(),
            forall|s: RSymbol| #[trigger] r.symbol_spec(s) == default_symbol_config(),
            r.unbond_commission_spec() == DEFAULT_UNBOND_COMMISSION,
            r.proxies().len() == 0,
            r.relay_fees_receiver_spec().is_none(),
    {
        let mut symbols: Vec<SymbolConfig> = Vec::new();
        let mut i: usize = 0;
        while i < 8
            invariant
                i <= 8,
                symbols@.len() == i,
                forall|j: int| 0 <= j < i ==> #[trigger] symbols@[j] == default_symbol_config(),
            decreases 8 - i,
        {
            symbols.push(
                SymbolConfig {
                    rtoken_bond_switch: true,
                    bond_fees: DEFAULT_BOND_FEES,
                    unbond_fees: DEFAULT_UNBOND_FEES,
                    pool_balance_limit: 0,
                    bond_swap_refund_expire: None,
                },
            );
            i = i + 1;
        }
        let r = SeriesConfig {
            bond_switch: true,
            symbols,
            unbond_commission: DEFAULT_UNBOND_COMMISSION,
            proxy_accounts: Vec::new(),
            relay_fees_receiver: None,
        };
        assert(r.proxies() =~= Seq::<Seq<u8>>::empty());
        r
    }

    pub fn bond_switch(&self) -> (r: bool)
        ensures
            r == self.bond_switch_spec(),
    {
        self.bond_switch
    }

    /// The settings of `symbol`.
    pub fn symbol_config(&self, symbol: RSymbol) -> (r: SymbolConfig)
        requires
            self.wf(),
        ensures
            r == self.symbol_spec(symbol),
    {
        self.symbols[symbol.index() as usize]
    }

    pub fn unbond_commission(&self) -> (r: u32)
        ensures
            r == self.unbond_commission_spec(),
    {
        self.unbond_commission
    }

    pub fn relay_fees_receiver(&self) -> (r: Option<AccountId>)
        ensures
            r == self.relay_fees_receiver_spec(),
    {
        self.relay_fees_receiver
    }

    /// Whether `who` may set fees.
    pub fn is_proxy(&self, who: &AccountId) -> (r: bool)
        ensures
            r == self.proxies().contains(who@),
    {
        let mut i: usize = 0;
        while i < self.proxy_accounts.len()
            invariant
                i <= self.proxy_accounts@.len(),
                forall|j: int| 0 <= j < i ==> self.proxy_accounts@[j]@ != who@,
            decreases self.proxy_accounts@.len() - i,
        {
            if same_account(&self.proxy_accounts[i], who) {
                assert(self.proxies()[i as int] == who@);
                return true;
            }
            i = i + 1;
        }
        proof {
            if self.proxies().contains(who@) {
                let k = choose|k: int| 0 <= k < self.proxies().len() && self.proxies()[k] == who@;
                assert(self.proxy_accounts@[k]@ == who@);
            }
        }
        false
    }

    fn set_symbol(&mut self, symbol: RSymbol, c: SymbolConfig)
        requires
            old(self).wf(),
        ensures
            final(self).wf(),
            final(self).symbol_spec(symbol) == c,
            forall|s: RSymbol| s != symbol ==> #[trigger] final(self).symbol_spec(s) == old(self).symbol_spec(s),
            final(self).bond_switch_spec() == old(self).bond_switch_spec(),
            final(self).unbond_commission_spec() == old(self).unbond_commission_spec(),
            final(self).proxies() == old(self).proxies(),
            final(self).relay_fees_receiver_spec() == old(self).relay_fees_receiver_spec(),
    {
        self.symbols.set(symbol.index() as usize, c);
        proof {
            assert forall|s: RSymbol| s != symbol implies #[trigger] self.symbol_spec(s)
                == old(self).symbol_spec(s) by {
                assert(symbol_index(s) != symbol_index(symbol));
            }
        }
    }

    /// Turns bonding on or off for every symbol.
    pub fn toggle_bond_switch(&mut self)
        ensures
            final(self).bond_switch_spec() == !old(self).bond_switch_spec(),
            final(self).wf() == old(self).wf(),
            forall|s: RSymbol| #[trigger] final(self).symbol_spec(s) == old(self).symbol_spec(s),
    {
        self.bond_switch = !self.bond_switch;
    }

    /// Turns bonding and unbonding of `symbol` on or off.
    pub fn toggle_rtoken_bond_switch(&mut self, symbol: RSymbol)
        requires
            old(self).wf(),
        ensures
            final(self).wf(),
            final(self).symbol_spec(symbol) == (SymbolConfig {
                rtoken_bond_switch: !old(self).symbol_spec(symbol).rtoken_bond_switch,
                ..old(self).symbol_spec(symbol)
            }),
            forall|s: RSymbol| s != symbol ==> #[trigger] final(self).symbol_spec(s) == old(self).symbol_spec(s),
    {
        let mut c = self.symbol_config(symbol);
        c.rtoken_bond_switch = !c.rtoken_bond_switch;
        self.set_symbol(symbol, c);
    }

    pub fn set_relay_fees_receiver(&mut self, new_receiver: AccountId)
        ensures
            final(self).relay_fees_receiver_spec() == Some(new_receiver),
            final(self).wf() == old(self).wf(),
            forall|s: RSymbol| #[trigger] final(self).symbol_spec(s) == old(self).symbol_spec(s),
            final(self).proxies() == old(self).proxies(),
    {
        self.relay_fees_receiver = Some(new_receiver);
    }

    /// Allows `account` to set fees.
    pub fn set_proxy_accounts(&mut self, account: AccountId)
        ensures
            final(self).proxies().contains(account@),
            forall|a: Seq<u8>| old(self).proxies().contains(a) ==> final(self).proxies().contains(a),
            forall|a: Seq<u8>| final(self).proxies().contains(a) ==> old(self).proxies().contains(a)
                || a == account@,
            final(self).wf() == old(self).wf(),
            forall|s: RSymbol| #[trigger] final(self).symbol_spec(s) == old(self).symbol_spec(s),
    {
        if !self.is_proxy(&account) {
            self.proxy_accounts.push(account);
            proof {
                assert(self.proxies() =~= old(self).proxies().push(account@));
                assert(self.proxies()[self.proxies().len() - 1] == account@);
                assert forall|a: Seq<u8>| old(self).proxies().contains(a) implies self.proxies().contains(a) by {
                    let k = choose|k: int| 0 <= k < old(self).proxies().len() && old(self).proxies()[k] == a;
                    assert(self.proxies()[k] == a);
                }
                assert forall|a: Seq<u8>| self.proxies().contains(a) implies old(self).proxies().contains(a)
                    || a == account@ by {
                    let k = choose|k: int| 0 <= k < self.proxies().len() && self.proxies()[k] == a;
                    if k < old(self).proxies().len() {
                        assert(old(self).proxies()[k] == a);
                    }
                }
            }
        }
    }

    /// Withdraws `account`'s right to set fees.
    pub fn remove_proxy_accounts(&mut self, account: &AccountId)
        ensures
            !final(self).proxies().contains(account@),
            forall|a: Seq<u8>| a != account@ ==> (old(self).proxies().contains(a)
                <==> final(self).proxies().contains(a)),
            final(self).wf() == old(self).wf(),
            forall|s: RSymbol| #[trigger] final(self).symbol_spec(s) == old(self).symbol_spec(s),
    {
        let ghost before = self.proxies();
        let mut kept: Vec<AccountId> = Vec::new();
        let mut i: usize = 0;
        while i < self.proxy_accounts.len()
            invariant
                i <= self.proxy_accounts@.len(),
                before == self.proxies(),
                forall|a: Seq<u8>| #[trigger] account_strings(kept@).contains(a) <==> (
                a != account@ && before.subrange(0, i as int).contains(a)),
            decreases self.proxy_accounts@.len() - i,
        {
            let a = self.proxy_accounts[i];
            let ghost kv = account_strings(kept@);
            if !same_account(&a, account) {
                kept.push(a);
                proof {
                    assert(account_strings(kept@) =~= kv.push(a@));
                }
            }
            proof {
                let kn = account_strings(kept@);
                assert(before[i as int] == a@);
                assert(before.subrange(0, i + 1) =~= before.subrange(0, i as int).push(a@));
                assert forall|b: Seq<u8>| kn.contains(b) <==> (b != account@ && before.subrange(
                    0,
                    i + 1,
                ).contains(b)) by {
                    let s1 = before.subrange(0, i as int);
                    let s2 = before.subrange(0, i + 1);
                    if s2.contains(b) && b != a@ {
                        let k = choose|k: int| 0 <= k < s2.len() && s2[k] == b;
                        assert(s1[k] == b);
                    }
                    if s1.contains(b) {
                        let k = choose|k: int| 0 <= k < s1.len() && s1[k] == b;
                        assert(s2[k] == b);
                    }
                    if kn.contains(b) && !kv.contains(b) {
                        let k = choose|k: int| 0 <= k < kn.len() && kn[k] == b;
                        assert(k == kv.len());
                        assert(s2[i as int] == b);
                    }
                    if kv.contains(b) {
                        let k = choose|k: int| 0 <= k < kv.len() && kv[k] == b;
                        assert(kn[k] == b);
                    }
                    if b == a@ && b != account@ {
                        assert(kn[kn.len() - 1] == b);
                    }
                }
            }
            i = i + 1;
        }
        assert(before.subrange(0, before.len() as int) =~= before);
        self.proxy_accounts = kept;
    }

    /// Sets `symbol`'s bond fee; only a proxy account may.
    pub fn set_bond_fees(&mut self, who: &AccountId, symbol: RSymbol, fees: u128) -> (r: Result<
        (),
        SeriesError,
    >)
        requires
            old(self).wf(),
        ensures
            final(self).wf(),
            r.is_ok() == old(self).proxies().contains(who@),
            r.is_err() ==> r == Err::<(), SeriesError>(SeriesError::InvalidProxyAccount),
            final(self).symbol_spec(symbol) == if r.is_ok() {
                SymbolConfig { bond_fees: fees, ..old(self).symbol_spec(symbol) }
            } else {
                old(self).symbol_spec(symbol)
            },
            forall|s: RSymbol| s != symbol ==> #[trigger] final(self).symbol_spec(s) == old(self).symbol_spec(s),
    {
        if !self.is_proxy(who) {
            return Err(SeriesError::InvalidProxyAccount);
        }
        let mut c = self.symbol_config(symbol);
        c.bond_fees = fees;
        self.set_symbol(symbol, c);
        Ok(())
    }

    /// Sets `symbol`'s unbond fee; only a proxy account may.
    pub fn set_unbond_fees(&mut self, who: &AccountId, symbol: RSymbol, fees: u128) -> (r: Result<
        (),
        SeriesError,
    >)
        requires
            old(self).wf(),
        ensures
            final(self).wf(),
            r.is_ok() == old(self).proxies().contains(who@),
            r.is_err() ==> r == Err::<(), SeriesError>(SeriesError::InvalidProxyAccount),
            final(self).symbol_spec(symbol) == if r.is_ok() {
                SymbolConfig { unbond_fees: fees, ..old(self).symbol_spec(symbol) }
            } else {
                old(self).symbol_spec(symbol)
            },
            forall|s: RSymbol| s != symbol ==> #[trigger] final(self).symbol_spec(s) == old(self).symbol_spec(s),
    {
        if !self.is_proxy(who) {
            return Err(SeriesError::InvalidProxyAccount);
        }
        let mut c = self.symbol_config(symbol);
        c.unbond_fees = fees;
        self.set_symbol(symbol, c);
        Ok(())
    }

    /// Sets `symbol`'s pool balance limit; returns the previous one.
    pub fn set_balance_limit(&mut self, symbol: RSymbol, new_limit: u128) -> (r: u128)
        requires
            old(self).wf(),
        ensures
            final(self).wf(),
            r == old(self).symbol_spec(symbol).pool_balance_limit,
            final(self).symbol_spec(symbol) == (SymbolConfig {
                pool_balance_limit: new_limit,
                ..old(self).symbol_spec(symbol)
            }),
            forall|s: RSymbol| s != symbol ==> #[trigger] final(self).symbol_spec(s) == old(self).symbol_spec(s),
    {
        let mut c = self.symbol_config(symbol);
        let old_limit = c.pool_balance_limit;
        c.pool_balance_limit = new_limit;
        self.set_symbol(symbol, c);
        old_limit
    }

    /// Sets `symbol`'s refund delay, in blocks.
    pub fn swap_refund_expire(&mut self, symbol: RSymbol, number: u32)
        requires
            old(self).wf(),
        ensures
            final(self).wf(),
            final(self).symbol_spec(symbol) == (SymbolConfig {
                bond_swap_refund_expire: Some(number),
                ..old(self).symbol_spec(symbol)
            }),
            forall|s: RSymbol| s != symbol ==> #[trigger] final(self).symbol_spec(s) == old(self).symbol_spec(s),
    {
        let mut c = self.symbol_config(symbol);
        c.bond_swap_refund_expire = Some(number);
        self.set_symbol(symbol, c);
    }

    /// Sets the unbond commission, which must stay below one whole; returns the previous
    /// one.
    pub fn set_unbond_commission(&mut self, new_part: u32) -> (r: Result<u32, SeriesError>)
        ensures
            new_part < PERBILL_ACCURACY ==> r == Ok::<u32, SeriesError>(
                old(self).unbond_commission_spec(),
            ) && final(self).unbond_commission_spec() == new_part,
            new_part >= PERBILL_ACCURACY ==> r == Err::<u32, SeriesError>(SeriesError::OverFlow)
                && final(self).unbond_commission_spec() == old(self).unbond_commission_spec(),
            final(self).wf() == old(self).wf(),
            forall|s: RSymbol| #[trigger] final(self).symbol_spec(s) == old(self).symbol_spec(s),
    {
        if new_part >= PERBILL_ACCURACY {
            return Err(SeriesError::OverFlow);
        }
        let old_commission = self.unbond_commission;
        self.unbond_commission = new_part;
        Ok(old_commission)
    }
}

} // verus!
