//! The audit submission handler: records, once per commitment, that an
//! audit proof was accepted.

use vstd::prelude::*;
use vstd::slice::slice_to_vec;
use crate::account::{models, Account, AccountMeta, AccountModel, AccountState};
use crate::address::{
    audit_address, derived_view, find_audit_address, Derived, DerivedView, AUDIT_VERIFIER_ID,
    PROGRAM_ID,
};
use crate::audit::{data_attests, serialize_audit, AuditModel, AuditRecord, AUDIT_RECORD_LEN};
use crate::errors::PoolError;
use crate::host::{Host, VerifierCall};
use crate::layout::{input_field, read_input, SUBMIT_AUDIT_LEN};
use crate::ledger::{create_account_spec, present_all, with_data, Ledger};
use crate::words::word_eq;

verus! {

/// The mathematical content of an `AuditDecision`.
pub enum AuditDecisionModel {
    AlreadyRecorded,
    Submit { commitment: Seq<u8>, bump: u8 },
}

/// What the checks of a submission find.
#[derive(Clone, Copy, Debug, PartialEq, Eq)]
pub enum AuditDecision {
    /// The record of this commitment is there: nothing is left to do.
    AlreadyRecorded,
    /// No account is there: the proof is to be verified and the record
    /// created.
    Submit { commitment: [u8; 32], bump: u8 },
}

impl View for AuditDecision {
    type V = AuditDecisionModel;

    open spec fn view(&self) -> AuditDecisionModel {
        match *self {
            AuditDecision::AlreadyRecorded => AuditDecisionModel::AlreadyRecorded,
            AuditDecision::Submit { commitment, bump } => AuditDecisionModel::Submit {
                commitment: commitment@,
                bump,
            },
        }
    }
}

/// The content of a decision, or the error.
pub open spec fn decision_view(checked: Result<AuditDecision, PoolError>) -> Result<
    AuditDecisionModel,
    PoolError,
> {
    match checked {
        Ok(decision) => Ok(decision@),
        Err(e) => Err(e),
    }
}

/// The checks of a submission, in their order, given where the record of
/// the commitment lives. The accounts are, in order: the payer, the audit
/// record, the audit verifier and the system program. A funded account at
/// the derived address that holds the written record of the commitment
/// means that the work is done; one that holds anything else is a
/// conflict.
pub open spec fn check_submit_audit_at_spec(
    accounts: Seq<AccountModel>,
    data: Seq<u8>,
    place: DerivedView,
) -> Result<AuditDecisionModel, PoolError> {
    if accounts.len() != 4 {
        Err(PoolError::NotEnoughAccountKeys)
    } else if !accounts[0].is_signer {
        Err(PoolError::MissingRequiredSignature)
    } else if !accounts[1].is_writable {
        Err(PoolError::InvalidAccountData)
    } else if accounts[2].address != AUDIT_VERIFIER_ID@ {
        Err(PoolError::IncorrectProgramId)
    } else if data.len() != SUBMIT_AUDIT_LEN {
        Err(PoolError::InvalidInstructionData)
    } else {
        let commitment = input_field(data, 0);
        match place {
            None => Err(PoolError::InvalidSeeds),
            Some((derived, bump)) => if accounts[1].address != derived {
                Err(PoolError::InvalidAccountData)
            } else if accounts[1].state.lamports > 0 {
                if data_attests(accounts[1].state.data, commitment) {
                    Ok(AuditDecisionModel::AlreadyRecorded)
                } else {
                    Err(PoolError::AccountAlreadyInitialized)
                }
            } else {
                Ok(AuditDecisionModel::Submit { commitment, bump })
            },
        }
    }
}

/// The checks of a submission: the record is derived from the commitment
/// field.
pub open spec fn check_submit_audit_spec(accounts: Seq<AccountModel>, data: Seq<u8>) -> Result<
    AuditDecisionModel,
    PoolError,
> {
    check_submit_audit_at_spec(accounts, data, audit_address(input_field(data, 0)))
}

/// A submission as a whole: the store that it leaves, or why it is
/// refused. A second submission of a recorded commitment changes nothing
/// and succeeds, whatever its proof.
pub open spec fn submit_audit_spec(
    ledger: Map<Seq<u8>, AccountState>,
    metas: Seq<AccountMeta>,
    data: Seq<u8>,
    host: Host,
) -> Result<Map<Seq<u8>, AccountState>, PoolError> {
    match check_submit_audit_spec(present_all(ledger, metas), data) {
        Err(e) => Err(e),
        Ok(AuditDecisionModel::AlreadyRecorded) => Ok(ledger),
        Ok(AuditDecisionModel::Submit { commitment, bump }) => if !host.proof_accepted {
            Err(PoolError::ProofRejected)
        } else {
            match host.rent.floor(AUDIT_RECORD_LEN as nat) {
                None => Err(PoolError::InvalidArgument),
                Some(price) => match create_account_spec(
                    ledger,
                    metas[0].address@,
                    metas[1].address@,
                    price,
                    AUDIT_RECORD_LEN as nat,
                    PROGRAM_ID@,
                ) {
                    Err(e) => Err(e),
                    Ok(created) => Ok(
                        with_data(
                            created,
                            metas[1].address@,
                            serialize_audit(AuditModel::of(commitment)),
                        ),
                    ),
                },
            }
        },
    }
}

/// Runs the checks of a submission against the place of the record and
/// says what is left to do.
pub fn check_submit_audit_at(accounts: &Vec<Account>, data: &[u8], place: Derived) -> (checked:
    Result<AuditDecision, PoolError>)
    ensures
        decision_view(checked) == check_submit_audit_at_spec(
            models(accounts@),
            data@,
            derived_view(place),
        ),
{
    if accounts.len() != 4 {
        return Err(PoolError::NotEnoughAccountKeys);
    }
    if !accounts[0].is_signer {
        return Err(PoolError::MissingRequiredSignature);
    }
    if !accounts[1].is_writable {
        return Err(PoolError::InvalidAccountData);
    }
    if !word_eq(&accounts[2].address, &AUDIT_VERIFIER_ID) {
        return Err(PoolError::IncorrectProgramId);
    }
    if data.len() != SUBMIT_AUDIT_LEN {
        return Err(PoolError::InvalidInstructionData);
    }
    let commitment = read_input(data, 0);
    let (derived, bump) = match place {
        Some(found) => found,
        None => {
            return Err(PoolError::InvalidSeeds);
        },
    };
    if !word_eq(&accounts[1].address, &derived) {
        return Err(PoolError::InvalidAccountData);
    }
    if accounts[1].lamports > 0 {
        match AuditRecord::decode(accounts[1].data.as_slice()) {
            Some(stored) => {
                if stored.attests(&commitment) {
                    return Ok(AuditDecision::AlreadyRecorded);
                }
            },
            None => {},
        }
        return Err(PoolError::AccountAlreadyInitialized);
    }
    Ok(AuditDecision::Submit { commitment, bump })
}

/// Runs the checks of a submission and says what is left to do. Nothing is
/// changed, and the verifier has not been asked yet.
pub fn check_submit_audit(accounts: &Vec<Account>, data: &[u8]) -> (checked: Result<
    AuditDecision,
    PoolError,
>)
    ensures
        decision_view(checked) == check_submit_audit_spec(models(accounts@), data@),
{
    if data.len() != SUBMIT_AUDIT_LEN {
        return check_submit_audit_at(accounts, data, None);
    }
    check_submit_audit_at(accounts, data, find_audit_address(&read_input(data, 0)))
}

/// The call that asks for an audit proof to be verified: the audit
/// verifier is handed the whole buffer, proof and witness.
pub fn verifier_call(data: &[u8]) -> (call: VerifierCall)
    ensures
        call.program@ == AUDIT_VERIFIER_ID@,
        call.payload@ == data@,
{
    VerifierCall { program: AUDIT_VERIFIER_ID, payload: slice_to_vec(data) }
}

/// Processes an audit submission against the store: where the record is
/// missing, asks the verifier and creates it. Either all of it happens or
/// the store is left as it was.
pub fn process_submit_audit(
    ledger: &mut Ledger,
    metas: &Vec<AccountMeta>,
    data: &[u8],
    host: &Host,
) -> (done: Result<(), PoolError>)
    ensures
        match done {
            Ok(()) => submit_audit_spec(old(ledger)@, metas@, data@, *host) == Ok::<
                Map<Seq<u8>, AccountState>,
                PoolError,
            >(final(ledger)@),
            Err(e) => submit_audit_spec(old(ledger)@, metas@, data@, *host) == Err::<
                Map<Seq<u8>, AccountState>,
                PoolError,
            >(e) && final(ledger)@ == old(ledger)@,
        },
{
    let accounts = ledger.load(metas);
    let commitment = match check_submit_audit(&accounts, data) {
        Ok(AuditDecision::AlreadyRecorded) => {
            return Ok(());
        },
        Ok(AuditDecision::Submit { commitment, bump: _ }) => commitment,
        Err(e) => {
            return Err(e);
        },
    };
    if !host.proof_accepted {
        return Err(PoolError::ProofRejected);
    }
    let price = match host.rent.minimum_balance(AUDIT_RECORD_LEN) {
        Ok(price) => price,
        Err(e) => {
            return Err(e);
        },
    };
    let mut work = ledger.duplicate();
    match work.create_account(
        &metas[0].address,
        &metas[1].address,
        price,
        AUDIT_RECORD_LEN,
        &PROGRAM_ID,
    ) {
        Ok(()) => {},
        Err(e) => {
            return Err(e);
        },
    }
    work.set_data(&metas[1].address, AuditRecord::new(commitment).encode());
    *ledger = work;
    Ok(())
}

} // verus!
