//! The operation selectors: the first byte of a parameter buffer.

use vstd::prelude::*;

verus! {

/// Creates the pool state and the vault.
pub const INITIALIZE: u8 = 0;

/// Moves value into the vault and records a new root.
pub const DEPOSIT: u8 = 1;

/// Releases value from the vault under a proof.
pub const WITHDRAW: u8 = 2;

/// Records that an audit proof was accepted.
pub const SUBMIT_AUDIT: u8 = 3;

} // verus!
