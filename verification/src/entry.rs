//! The entry surface: what the program does with a parameter buffer, and
//! what it does when it cannot go on.

use vstd::prelude::*;
use vstd::slice::slice_subrange;
use crate::account::{AccountMeta, AccountState};
use crate::deposit::{deposit_spec, process_deposit};
use crate::errors::PoolError;
use crate::host::Host;
use crate::initialize::{initialize_spec, process_initialize};
use crate::instruction::{DEPOSIT, INITIALIZE, SUBMIT_AUDIT, WITHDRAW};
use crate::ledger::Ledger;
use crate::submit_audit::{process_submit_audit, submit_audit_spec};
use crate::withdraw::{process_withdraw, withdraw_spec, Variant};

verus! {

/// What the program does once a panic has been raised.
#[derive(Clone, Copy, Debug, PartialEq, Eq, Structural)]
pub enum PanicPolicy {
    /// Stop where it is; the host discards what the operation had changed.
    Halt,
}

/// A panic halts the program, whatever was reported with it: nothing is
/// logged and nothing is unwound.
pub fn panic() -> (policy: PanicPolicy)
    ensures
        policy == PanicPolicy::Halt,
{
    PanicPolicy::Halt
}

/// An operation as a whole: the first byte of the buffer selects it, the
/// rest are its parameters. An empty buffer and an unknown selector are
/// refused.
pub open spec fn instruction_spec(
    ledger: Map<Seq<u8>, AccountState>,
    metas: Seq<AccountMeta>,
    instruction_data: Seq<u8>,
    variant: Variant,
    host: Host,
) -> Result<Map<Seq<u8>, AccountState>, PoolError> {
    let data = instruction_data.subrange(1, instruction_data.len() as int);
    if instruction_data.len() == 0 {
        Err(PoolError::InvalidInstructionData)
    } else if instruction_data[0] == INITIALIZE {
        initialize_spec(ledger, metas, host)
    } else if instruction_data[0] == DEPOSIT {
        deposit_spec(ledger, metas, data)
    } else if instruction_data[0] == WITHDRAW {
        withdraw_spec(ledger, metas, data, variant, host)
    } else if instruction_data[0] == SUBMIT_AUDIT {
        submit_audit_spec(ledger, metas, data, host)
    } else {
        Err(PoolError::InvalidInstructionData)
    }
}

/// Processes one operation against the store. `variant` is the form of
/// the withdrawal protocol that this pool runs. Either the whole
/// operation happens or the store is left as it was.
pub fn process_instruction(
    ledger: &mut Ledger,
    metas: &Vec<AccountMeta>,
    instruction_data: &[u8],
    variant: Variant,
    host: &Host,
) -> (done: Result<(), PoolError>)
    ensures
        match done {
            Ok(()) => instruction_spec(old(ledger)@, metas@, instruction_data@, variant, *host)
                == Ok::<Map<Seq<u8>, AccountState>, PoolError>(final(ledger)@),
            Err(e) => instruction_spec(old(ledger)@, metas@, instruction_data@, variant, *host)
                == Err::<Map<Seq<u8>, AccountState>, PoolError>(e) && final(ledger)@ == old(
                ledger,
            )@,
        },
{
    if instruction_data.len() == 0 {
        return Err(PoolError::InvalidInstructionData);
    }
    let selector = instruction_data[0];
    let data = slice_subrange(instruction_data, 1, instruction_data.len());
    if selector == INITIALIZE {
        process_initialize(ledger, metas, data, host)
    } else if selector == DEPOSIT {
        process_deposit(ledger, metas, data)
    } else if selector == WITHDRAW {
        process_withdraw(ledger, metas, data, variant, host)
    } else if selector == SUBMIT_AUDIT {
        process_submit_audit(ledger, metas, data, host)
    } else {
        Err(PoolError::InvalidInstructionData)
    }
}

} // verus!
