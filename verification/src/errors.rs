//! The conditions under which an operation is refused.

use vstd::prelude::*;

verus! {

/// Why an operation was refused. No refused operation changes any account.
#[derive(Clone, Copy, Debug, PartialEq, Eq, Structural)]
pub enum PoolError {
    /// The operation was given another number of accounts than it takes.
    NotEnoughAccountKeys,
    /// The payer did not sign.
    MissingRequiredSignature,
    /// An account is not writable, is not the derived account that the
    /// operation expects, holds malformed data, or a public input (root,
    /// recipient) does not match.
    InvalidAccountData,
    /// An account is not owned by the pool program.
    InvalidAccountOwner,
    /// The parameter buffer has the wrong length or an unknown selector.
    InvalidInstructionData,
    /// The verifier account is not the verifier that the operation calls.
    IncorrectProgramId,
    /// The pool state has not been initialised.
    UninitializedAccount,
    /// The nullifier has been spent, or the derived account is occupied.
    AccountAlreadyInitialized,
    /// The amount exceeds what the paying account can release.
    InsufficientFunds,
    /// The minimum viable balance cannot be computed for this size or rate.
    InvalidArgument,
    /// No derived address exists for the seeds.
    InvalidSeeds,
    /// A balance would leave the range of 64 bits.
    ArithmeticOverflow,
    /// The audit record that a gated withdrawal refers to is absent or
    /// unwritten.
    AuditRequired,
    /// The verifier did not accept the proof.
    ProofRejected,
}

} // verus!
