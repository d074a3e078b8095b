//! Identifiers shared by the swap engine and the bond lifecycle.
use vstd::prelude::*;

verus! {

/// The family of chains an asset comes from.
#[derive(Clone, Copy, Debug, PartialEq, Eq, Structural)]
pub enum ChainType {
    Substrate,
    Tendermint,
    Solana,
    Ethereum,
}

/// The staked-derivative asset families.
#[derive(Clone, Copy, Debug, PartialEq, Eq, Hash, Structural)]
pub enum RSymbol {
    RFIS,
    RDOT,
    RKSM,
    RATOM,
    RSOL,
    RMATIC,
    RBNB,
    RETH,
}

pub open spec fn chain_type_of(symbol: RSymbol) -> ChainType {
    match symbol {
        RSymbol::RFIS | RSymbol::RDOT | RSymbol::RKSM => ChainType::Substrate,
        RSymbol::RATOM => ChainType::Tendermint,
        RSymbol::RSOL => ChainType::Solana,
        RSymbol::RMATIC | RSymbol::RBNB | RSymbol::RETH => ChainType::Ethereum,
    }
}

impl RSymbol {
    /// The chain family this asset is staked on.
    pub fn chain_type(&self) -> (r: ChainType)
        ensures
            r == chain_type_of(*self),
    {
        match self {
            RSymbol::RFIS | RSymbol::RDOT | RSymbol::RKSM => ChainType::Substrate,
            RSymbol::RATOM => ChainType::Tendermint,
            RSymbol::RSOL => ChainType::Solana,
            RSymbol::RMATIC | RSymbol::RBNB | RSymbol::RETH => ChainType::Ethereum,
        }
    }

    /// The index of the variant, which is also its one-byte SCALE encoding.
    pub fn index(&self) -> (r: u8)
        ensures
            r == symbol_index(*self),
    {
        match self {
            RSymbol::RFIS => 0,
            RSymbol::RDOT => 1,
            RSymbol::RKSM => 2,
            RSymbol::RATOM => 3,
            RSymbol::RSOL => 4,
            RSymbol::RMATIC => 5,
            RSymbol::RBNB => 6,
            RSymbol::RETH => 7,
        }
    }
}

pub open spec fn symbol_index(symbol: RSymbol) -> u8 {
    match symbol {
        RSymbol::RFIS => 0,
        RSymbol::RDOT => 1,
        RSymbol::RKSM => 2,
        RSymbol::RATOM => 3,
        RSymbol::RSOL => 4,
        RSymbol::RMATIC => 5,
        RSymbol::RBNB => 6,
        RSymbol::RETH => 7,
    }
}

} // verus!
