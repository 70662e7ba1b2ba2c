//! Verified core logic of the Andromeda CosmWasm contracts: the decisions and
//! the arithmetic of each contract, as functions from loaded state and an
//! incoming message to the state to store and the messages to send.
pub mod math;
pub mod common;
pub mod kv;
pub mod staking;
pub mod lockdrop;
pub mod auction;
pub mod ics721;
pub mod crowdfund;
pub mod offers;
pub mod ado;
pub mod factory;
pub mod cw721;
pub mod gumball;
pub mod addresslist;
pub mod multisig;
pub mod kernel;
pub mod cw20;
pub mod astroport;
pub mod wrapped_cdp;
pub mod anchor;
