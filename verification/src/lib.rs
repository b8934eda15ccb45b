//! An owner-gated, capped, pausable fungible-token ledger with a per-account
//! "level" counter that mints a fixed reward every time a level lands on a
//! multiple of three.
//!
//! The contract state lives in [`contract::Erc20Example`]; every public
//! operation carries a contract that pins down, for each input, whether the
//! call succeeds, which error it returns otherwise, and the exact state after
//! the call (a failing call leaves the state untouched, mirroring
//! all-or-nothing transaction semantics).

pub mod contract;
pub mod errors;
pub mod laws;
pub mod state;
pub mod tables;
