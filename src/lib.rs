//! The on-chain core of a liquid-staking protocol: a FIS/rTOKEN swap pool engine and the
//! bond/unbond lifecycle of staked-derivative tokens.
pub mod config;
pub mod primitives;
pub mod relay;
pub mod series;
pub mod swap;
pub mod swap_laws;
pub mod swap_math;
pub mod unbond;
pub mod wide;
