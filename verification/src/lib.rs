//! A confidential-value pool: deposits enter a shared vault and are later
//! withdrawn to any recipient under a zero-knowledge proof, with a nullifier
//! registry against double spending and an audit ledger for gated withdrawals.

pub mod account;
pub mod address;
pub mod audit;
pub mod deposit;
pub mod entry;
pub mod errors;
pub mod host;
pub mod initialize;
pub mod instruction;
pub mod laws;
pub mod layout;
pub mod ledger;
pub mod nullifier;
pub mod rent;
pub mod state;
pub mod submit_audit;
pub mod withdraw;
pub mod words;
