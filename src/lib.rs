//! A fungible-token ledger: per-account balances, a circulating supply, a
//! minter with a supply cap, a balance cap and frozen accounts.
//!
//! `model` states the ledger and its operations as mathematical values,
//! `state` implements them, and `laws` proves the properties they share.

pub mod error;
pub mod holdings;
pub mod laws;
pub mod model;
pub mod state;
