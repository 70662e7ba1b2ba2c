//! The cw20 staking contract: shares of a staked token and reward indices.
pub mod allocated;
pub mod contract;
