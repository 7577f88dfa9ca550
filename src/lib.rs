//! An escrow ledger: entries that hold one fungible asset for an owner and
//! release it to a fixed list of beneficiaries once a trigger (a block height
//! or a block time) has fired, unless the owner reset the entry first.
//!
//! The host supplies storage, the clock, balances and message dispatch; the
//! functions here take the values read from it and return what to write back
//! or send.
pub mod contract;
pub mod error;
pub mod laws;
pub mod msg;
pub mod state;
