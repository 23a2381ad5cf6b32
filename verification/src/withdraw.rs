//! The withdrawal handler: the checks that authorise a spend, the claim of
//! its nullifier and the release of the funds.

use vstd::prelude::*;
use vstd::slice::slice_to_vec;
use crate::account::{models, Account, AccountMeta, AccountModel, AccountState};
use crate::address::{
    audit_address, derived_view, find_audit_address, find_nullifier_address,
    find_vault_address, nullifier_address, vault_address, Derived, DerivedView,
    GATED_WITHDRAW_VERIFIER_ID, PROGRAM_ID, WITHDRAW_VERIFIER_ID,
};
use crate::audit::{parse_audit, AuditRecord, AUDIT_RECORD_LEN};
use crate::errors::PoolError;
use crate::host::{Host, VerifierCall};
use crate::layout::{
    amount_of, decode_amount, encode_recipient, input_field, payload_len, read_input,
    recipient_encoding, INPUTS_START,
};
use crate::ledger::{present, present_all, with_lamports, Ledger};
use crate::nullifier::{claim, claim_spec};
use crate::rent::RentRate;
use crate::state::{parse_state, PoolState, POOL_STATE_LEN};
use crate::words::word_eq;

verus! {

/// The two forms of the withdrawal protocol. A pool runs one of them, and
/// the form fixes the shape of the payload, the number of accounts and the
/// verifier: a payload of the other shape, or another verifier, is refused.
#[derive(Clone, Copy, Debug, PartialEq, Eq, Structural)]
pub enum Variant {
    /// Root, nullifier, recipient and amount are proved.
    Basic,
    /// An audit commitment is proved too, and its audit must be on record.
    AuditGated,
}

impl Variant {
    /// How many public inputs the witness holds.
    pub open spec fn inputs(self) -> nat {
        match self {
            Variant::Basic => 4,
            Variant::AuditGated => 5,
        }
    }

    /// How many accounts the operation takes.
    pub open spec fn accounts(self) -> nat {
        match self {
            Variant::Basic => 7,
            Variant::AuditGated => 8,
        }
    }

    /// The verifier that the operation calls.
    pub open spec fn verifier_address(self) -> Seq<u8> {
        match self {
            Variant::Basic => WITHDRAW_VERIFIER_ID@,
            Variant::AuditGated => GATED_WITHDRAW_VERIFIER_ID@,
        }
    }

    /// How many public inputs the witness holds.
    pub fn input_count(self) -> (count: usize)
        ensures
            count == self.inputs(),
    {
        match self {
            Variant::Basic => 4,
            Variant::AuditGated => 5,
        }
    }

    /// How many accounts the operation takes.
    pub fn account_count(self) -> (count: usize)
        ensures
            count == self.accounts(),
    {
        match self {
            Variant::Basic => 7,
            Variant::AuditGated => 8,
        }
    }

    /// The verifier that the operation calls.
    pub fn verifier_id(self) -> (id: [u8; 32])
        ensures
            id@ == self.verifier_address(),
    {
        match self {
            Variant::Basic => WITHDRAW_VERIFIER_ID,
            Variant::AuditGated => GATED_WITHDRAW_VERIFIER_ID,
        }
    }
}

/// The mathematical content of a `WithdrawRequest`.
pub struct WithdrawModel {
    pub root: Seq<u8>,
    pub nullifier: Seq<u8>,
    pub recipient: Seq<u8>,
    pub amount: u64,
    pub nullifier_bump: u8,
}

/// A withdrawal whose public inputs have passed every check that reads
/// state: what is left is to verify the proof, claim the nullifier and pay.
#[derive(Clone, Copy, Debug, PartialEq, Eq)]
pub struct WithdrawRequest {
    pub root: [u8; 32],
    pub nullifier: [u8; 32],
    pub recipient: [u8; 32],
    pub amount: u64,
    pub nullifier_bump: u8,
}

impl View for WithdrawRequest {
    type V = WithdrawModel;

    open spec fn view(&self) -> WithdrawModel {
        WithdrawModel {
            root: self.root@,
            nullifier: self.nullifier@,
            recipient: self.recipient@,
            amount: self.amount,
            nullifier_bump: self.nullifier_bump,
        }
    }
}

/// The content of a checked request, or the error.
pub open spec fn request_view(checked: Result<WithdrawRequest, PoolError>) -> Result<
    WithdrawModel,
    PoolError,
> {
    match checked {
        Ok(request) => Ok(request@),
        Err(e) => Err(e),
    }
}

/// The audit linkage of a gated withdrawal, given where the record of the
/// commitment lives: `record` must be that account, exist, belong to the
/// pool and hold the written record of the commitment.
pub open spec fn audit_link_at(record: AccountModel, commitment: Seq<u8>, place: DerivedView) -> Result<
    (),
    PoolError,
> {
    match place {
        None => Err(PoolError::InvalidSeeds),
        Some((derived, _)) => if record.address != derived {
            Err(PoolError::InvalidAccountData)
        } else if record.state.lamports == 0 {
            Err(PoolError::AuditRequired)
        } else if record.state.owner != PROGRAM_ID@ {
            Err(PoolError::InvalidAccountOwner)
        } else if record.state.data.len() < AUDIT_RECORD_LEN {
            Err(PoolError::InvalidAccountData)
        } else if !parse_audit(record.state.data).is_initialized() {
            Err(PoolError::AuditRequired)
        } else if parse_audit(record.state.data).commitment != commitment {
            Err(PoolError::InvalidAccountData)
        } else {
            Ok(())
        },
    }
}

/// The audit linkage of a gated withdrawal: the record account is the one
/// derived from the commitment.
pub open spec fn audit_link_spec(record: AccountModel, commitment: Seq<u8>) -> Result<
    (),
    PoolError,
> {
    audit_link_at(record, commitment, audit_address(commitment))
}

/// The checks on how the accounts were passed and on the length of the
/// payload: the first that fails, if any. The accounts are, in order: the
/// payer, the recipient, the vault, the pool state, the marker of the
/// nullifier, the verifier, in the gated form the audit record, and the
/// system program.
pub open spec fn framing_spec(accounts: Seq<AccountModel>, data: Seq<u8>, variant: Variant) -> Option<
    PoolError,
> {
    if accounts.len() != variant.accounts() {
        Some(PoolError::NotEnoughAccountKeys)
    } else if !accounts[0].is_signer {
        Some(PoolError::MissingRequiredSignature)
    } else if !accounts[1].is_writable || !accounts[2].is_writable || !accounts[4].is_writable
        || !accounts[3].is_writable {
        Some(PoolError::InvalidAccountData)
    } else if accounts[5].address != variant.verifier_address() {
        Some(PoolError::IncorrectProgramId)
    } else if accounts[3].state.owner != PROGRAM_ID@ {
        Some(PoolError::InvalidAccountOwner)
    } else if accounts[3].state.data.len() < POOL_STATE_LEN {
        Some(PoolError::InvalidAccountData)
    } else if !parse_state(accounts[3].state.data).is_initialized() {
        Some(PoolError::UninitializedAccount)
    } else if data.len() != payload_len(variant.inputs()) {
        Some(PoolError::InvalidInstructionData)
    } else {
        None
    }
}

/// The checks on the public inputs of a framed payload, in their order,
/// given where the marker of the nullifier and the record of the audit
/// commitment live: the root is in the history, the audit is on record
/// (gated form), the nullifier is unspent, the recipient is the
/// destination.
pub open spec fn inputs_at(
    accounts: Seq<AccountModel>,
    data: Seq<u8>,
    variant: Variant,
    marker: DerivedView,
    place: DerivedView,
) -> Result<WithdrawModel, PoolError> {
    let root = input_field(data, 0);
    let nullifier = input_field(data, 1);
    let recipient = input_field(data, 2);
    let linked = if variant == Variant::AuditGated {
        audit_link_at(accounts[6], input_field(data, 4), place)
    } else {
        Ok(())
    };
    if !parse_state(accounts[3].state.data).contains(root) {
        Err(PoolError::InvalidAccountData)
    } else if linked is Err {
        Err(linked->Err_0)
    } else {
        match marker {
            None => Err(PoolError::InvalidSeeds),
            Some((derived, bump)) => if accounts[4].address != derived {
                Err(PoolError::InvalidAccountData)
            } else if accounts[4].state.lamports > 0 {
                Err(PoolError::AccountAlreadyInitialized)
            } else if recipient != recipient_encoding(accounts[1].address) {
                Err(PoolError::InvalidAccountData)
            } else {
                Ok(
                    WithdrawModel {
                        root,
                        nullifier,
                        recipient,
                        amount: amount_of(input_field(data, 3)),
                        nullifier_bump: bump,
                    },
                )
            },
        }
    }
}

/// Every check of a withdrawal that only reads, given the two derived
/// addresses: the request that the payload makes, or the first refusal.
pub open spec fn check_withdraw_at_spec(
    accounts: Seq<AccountModel>,
    data: Seq<u8>,
    variant: Variant,
    marker: DerivedView,
    place: DerivedView,
) -> Result<WithdrawModel, PoolError> {
    match framing_spec(accounts, data, variant) {
        Some(e) => Err(e),
        None => inputs_at(accounts, data, variant, marker, place),
    }
}

/// Every check of a withdrawal that only reads: the marker is derived from
/// the nullifier field and the record from the audit commitment field.
pub open spec fn check_withdraw_spec(
    accounts: Seq<AccountModel>,
    data: Seq<u8>,
    variant: Variant,
) -> Result<WithdrawModel, PoolError> {
    check_withdraw_at_spec(
        accounts,
        data,
        variant,
        nullifier_address(input_field(data, 1)),
        audit_address(input_field(data, 4)),
    )
}

/// What the vault can release, given where the vault lives: the account
/// must be the vault and belong to the pool, and it can release what it
/// holds above its minimum viable balance.
pub open spec fn withdrawable_at_spec(
    address: Seq<u8>,
    vault: AccountState,
    rent: RentRate,
    derived: DerivedView,
) -> Result<u64, PoolError> {
    match derived {
        None => Err(PoolError::InvalidSeeds),
        Some((derived_vault, _)) => if address != derived_vault {
            Err(PoolError::InvalidAccountData)
        } else if vault.owner != PROGRAM_ID@ {
            Err(PoolError::InvalidAccountOwner)
        } else {
            match rent.floor(vault.data.len()) {
                None => Err(PoolError::InvalidArgument),
                Some(floor) => if vault.lamports < floor {
                    Err(PoolError::InsufficientFunds)
                } else {
                    Ok((vault.lamports - floor) as u64)
                },
            }
        },
    }
}

/// What the vault can release.
pub open spec fn withdrawable_spec(address: Seq<u8>, vault: AccountState, rent: RentRate) -> Result<
    u64,
    PoolError,
> {
    withdrawable_at_spec(address, vault, rent, vault_address())
}

/// The balances of the vault and of another account after `amount` went
/// from the first to the second, given what the vault can release: the
/// amount must exceed neither that nor what the vault holds, and the
/// recipient must have room.
pub open spec fn pay_out_of_spec(
    spendable: Result<u64, PoolError>,
    vault_lamports: u64,
    recipient_lamports: u64,
    amount: u64,
) -> Result<(u64, u64), PoolError> {
    match spendable {
        Err(e) => Err(e),
        Ok(spendable) => if amount > spendable || amount > vault_lamports {
            Err(PoolError::InsufficientFunds)
        } else if recipient_lamports + amount > u64::MAX {
            Err(PoolError::InsufficientFunds)
        } else {
            Ok(((vault_lamports - amount) as u64, (recipient_lamports + amount) as u64))
        },
    }
}

/// The balances of the vault and of the recipient after `amount` was paid
/// out of the vault. The vault is debited and the recipient credited by
/// the amount; a payment of the vault to itself, where what the vault can
/// release covers it, leaves the balance as it is.
pub open spec fn pay_out_spec(
    vault: AccountModel,
    recipient: AccountModel,
    amount: u64,
    rent: RentRate,
) -> Result<(u64, u64), PoolError> {
    let spendable = withdrawable_spec(vault.address, vault.state, rent);
    if recipient.address == vault.address {
        match spendable {
            Err(e) => Err(e),
            Ok(spendable) => if amount > spendable {
                Err(PoolError::InsufficientFunds)
            } else {
                Ok((vault.state.lamports, vault.state.lamports))
            },
        }
    } else {
        pay_out_of_spec(spendable, vault.state.lamports, recipient.state.lamports, amount)
    }
}

/// Paying `amount` out of the vault to `recipient`: both balances are set
/// to what the payment leaves.
pub open spec fn release_spec(
    ledger: Map<Seq<u8>, AccountState>,
    vault: AccountMeta,
    recipient: AccountMeta,
    amount: u64,
    rent: RentRate,
) -> Result<Map<Seq<u8>, AccountState>, PoolError> {
    match pay_out_spec(present(ledger, vault), present(ledger, recipient), amount, rent) {
        Err(e) => Err(e),
        Ok((left, paid)) => Ok(
            with_lamports(with_lamports(ledger, vault.address@, left), recipient.address@, paid),
        ),
    }
}

/// What follows an accepted proof: the nullifier is claimed at the
/// payer's cost, then the amount is paid out.
pub open spec fn settle_spec(
    ledger: Map<Seq<u8>, AccountState>,
    metas: Seq<AccountMeta>,
    request: WithdrawModel,
    rent: RentRate,
) -> Result<Map<Seq<u8>, AccountState>, PoolError> {
    match claim_spec(ledger, metas[0].address@, request.nullifier, rent) {
        Err(e) => Err(e),
        Ok(claimed) => release_spec(claimed, metas[2], metas[1], request.amount, rent),
    }
}

/// A withdrawal as a whole: the store that it leaves, or why it is
/// refused.
pub open spec fn withdraw_spec(
    ledger: Map<Seq<u8>, AccountState>,
    metas: Seq<AccountMeta>,
    data: Seq<u8>,
    variant: Variant,
    host: Host,
) -> Result<Map<Seq<u8>, AccountState>, PoolError> {
    match check_withdraw_spec(present_all(ledger, metas), data, variant) {
        Err(e) => Err(e),
        Ok(request) => if !host.proof_accepted {
            Err(PoolError::ProofRejected)
        } else {
            settle_spec(ledger, metas, request, host.rent)
        },
    }
}

/// Checks the audit linkage of a gated withdrawal against the place of
/// the record.
pub fn check_audit_link_at(record: &Account, commitment: &[u8; 32], place: Derived) -> (linked:
    Result<(), PoolError>)
    ensures
        linked == audit_link_at(record@, commitment@, derived_view(place)),
{
    let derived = match place {
        Some((derived, _)) => derived,
        None => {
            return Err(PoolError::InvalidSeeds);
        },
    };
    if !word_eq(&record.address, &derived) {
        return Err(PoolError::InvalidAccountData);
    }
    if record.lamports == 0 {
        return Err(PoolError::AuditRequired);
    }
    if !word_eq(&record.owner, &PROGRAM_ID) {
        return Err(PoolError::InvalidAccountOwner);
    }
    let stored = match AuditRecord::decode(record.data.as_slice()) {
        Some(stored) => stored,
        None => {
            return Err(PoolError::InvalidAccountData);
        },
    };
    if !stored.is_initialized() {
        return Err(PoolError::AuditRequired);
    }
    if !word_eq(&stored.wa_commitment, commitment) {
        return Err(PoolError::InvalidAccountData);
    }
    Ok(())
}

/// Checks the audit linkage of a gated withdrawal.
pub fn check_audit_link(record: &Account, commitment: &[u8; 32]) -> (linked: Result<(), PoolError>)
    ensures
        linked == audit_link_spec(record@, commitment@),
{
    check_audit_link_at(record, commitment, find_audit_address(commitment))
}

/// Runs every check of a withdrawal that only reads, in order, against the
/// two derived addresses, and yields the request or the first refusal.
pub fn check_withdraw_at(
    accounts: &Vec<Account>,
    data: &[u8],
    variant: Variant,
    marker: Derived,
    place: Derived,
) -> (checked: Result<WithdrawRequest, PoolError>)
    ensures
        request_view(checked) == check_withdraw_at_spec(
            models(accounts@),
            data@,
            variant,
            derived_view(marker),
            derived_view(place),
        ),
{
    if accounts.len() != variant.account_count() {
        return Err(PoolError::NotEnoughAccountKeys);
    }
    if !accounts[0].is_signer {
        return Err(PoolError::MissingRequiredSignature);
    }
    if !accounts[1].is_writable || !accounts[2].is_writable || !accounts[4].is_writable
        || !accounts[3].is_writable {
        return Err(PoolError::InvalidAccountData);
    }
    if !word_eq(&accounts[5].address, &variant.verifier_id()) {
        return Err(PoolError::IncorrectProgramId);
    }
    if !word_eq(&accounts[3].owner, &PROGRAM_ID) {
        return Err(PoolError::InvalidAccountOwner);
    }
    let state = match PoolState::decode(accounts[3].data.as_slice()) {
        Some(state) => state,
        None => {
            return Err(PoolError::InvalidAccountData);
        },
    };
    if !state.is_initialized() {
        return Err(PoolError::UninitializedAccount);
    }
    if data.len() != INPUTS_START + 32 * variant.input_count() {
        return Err(PoolError::InvalidInstructionData);
    }
    assert(framing_spec(models(accounts@), data@, variant) is None);
    let root = read_input(data, 0);
    let nullifier = read_input(data, 1);
    let recipient = read_input(data, 2);
    let amount_field = read_input(data, 3);
    if !state.check_root(&root) {
        return Err(PoolError::InvalidAccountData);
    }
    match variant {
        Variant::AuditGated => {
            let commitment = read_input(data, 4);
            match check_audit_link_at(&accounts[6], &commitment, place) {
                Err(e) => {
                    return Err(e);
                },
                Ok(()) => {},
            }
        },
        Variant::Basic => {},
    }
    let (derived, nullifier_bump) = match marker {
        Some(found) => found,
        None => {
            return Err(PoolError::InvalidSeeds);
        },
    };
    if !word_eq(&accounts[4].address, &derived) {
        return Err(PoolError::InvalidAccountData);
    }
    if accounts[4].lamports > 0 {
        return Err(PoolError::AccountAlreadyInitialized);
    }
    let expected = encode_recipient(&accounts[1].address);
    if !word_eq(&recipient, &expected) {
        return Err(PoolError::InvalidAccountData);
    }
    let amount = decode_amount(&amount_field);
    Ok(WithdrawRequest { root, nullifier, recipient, amount, nullifier_bump })
}

/// Runs every check of a withdrawal that only reads, in order, and yields
/// the request or the first refusal. Nothing is changed, and the verifier
/// has not been asked yet.
pub fn check_withdraw(accounts: &Vec<Account>, data: &[u8], variant: Variant) -> (checked: Result<
    WithdrawRequest,
    PoolError,
>)
    ensures
        request_view(checked) == check_withdraw_spec(models(accounts@), data@, variant),
{
    if data.len() != INPUTS_START + 32 * variant.input_count() {
        return check_withdraw_at(accounts, data, variant, None, None);
    }
    let marker = find_nullifier_address(&read_input(data, 1));
    let place = match variant {
        Variant::AuditGated => find_audit_address(&read_input(data, 4)),
        Variant::Basic => None,
    };
    check_withdraw_at(accounts, data, variant, marker, place)
}

/// The call that asks for the proof of a withdrawal to be verified: the
/// verifier of the form of the protocol is handed the whole buffer, proof
/// and witness.
pub fn verifier_call(data: &[u8], variant: Variant) -> (call: VerifierCall)
    ensures
        call.program@ == variant.verifier_address(),
        call.payload@ == data@,
{
    VerifierCall { program: variant.verifier_id(), payload: slice_to_vec(data) }
}

/// Says what the account can release if the vault lives at `derived`.
pub fn withdrawable_at(vault: &Account, rent: &RentRate, derived: Derived) -> (spendable: Result<
    u64,
    PoolError,
>)
    ensures
        spendable == withdrawable_at_spec(
            vault@.address,
            vault@.state,
            *rent,
            derived_view(derived),
        ),
{
    let derived_vault = match derived {
        Some((derived_vault, _)) => derived_vault,
        None => {
            return Err(PoolError::InvalidSeeds);
        },
    };
    if !word_eq(&vault.address, &derived_vault) {
        return Err(PoolError::InvalidAccountData);
    }
    if !word_eq(&vault.owner, &PROGRAM_ID) {
        return Err(PoolError::InvalidAccountOwner);
    }
    let floor = match rent.minimum_balance(vault.data.len()) {
        Ok(floor) => floor,
        Err(e) => {
            return Err(e);
        },
    };
    if vault.lamports < floor {
        return Err(PoolError::InsufficientFunds);
    }
    Ok(vault.lamports - floor)
}

/// Says what the vault can release, after checking that it is the vault.
pub fn withdrawable(vault: &Account, rent: &RentRate) -> (spendable: Result<u64, PoolError>)
    ensures
        spendable == withdrawable_spec(vault@.address, vault@.state, *rent),
{
    withdrawable_at(vault, rent, find_vault_address())
}

/// Computes the balances that the vault and the recipient have once
/// `amount` is paid out of what the vault can release, or refuses the
/// payment.
pub fn pay_out_of(
    spendable: Result<u64, PoolError>,
    vault_lamports: u64,
    recipient_lamports: u64,
    amount: u64,
) -> (paid: Result<(u64, u64), PoolError>)
    ensures
        paid == pay_out_of_spec(spendable, vault_lamports, recipient_lamports, amount),
{
    let spendable = match spendable {
        Ok(spendable) => spendable,
        Err(e) => {
            return Err(e);
        },
    };
    if amount > spendable || amount > vault_lamports {
        return Err(PoolError::InsufficientFunds);
    }
    if amount > u64::MAX - recipient_lamports {
        return Err(PoolError::InsufficientFunds);
    }
    Ok((vault_lamports - amount, recipient_lamports + amount))
}

/// Computes the balances that the vault and the recipient have once
/// `amount` is paid, or refuses the payment.
pub fn pay_out(vault: &Account, recipient: &Account, amount: u64, rent: &RentRate) -> (paid: Result<
    (u64, u64),
    PoolError,
>)
    ensures
        paid == pay_out_spec(vault@, recipient@, amount, *rent),
{
    let spendable = withdrawable(vault, rent);
    if word_eq(&recipient.address, &vault.address) {
        return match spendable {
            Err(e) => Err(e),
            Ok(spendable) => if amount > spendable {
                Err(PoolError::InsufficientFunds)
            } else {
                Ok((vault.lamports, vault.lamports))
            },
        };
    }
    pay_out_of(spendable, vault.lamports, recipient.lamports, amount)
}

/// Pays `amount` out of the vault to the recipient, keeping the vault at
/// or above its minimum viable balance. A refusal changes nothing.
pub fn release(
    ledger: &mut Ledger,
    vault: &AccountMeta,
    recipient: &AccountMeta,
    amount: u64,
    rent: &RentRate,
) -> (done: Result<(), PoolError>)
    ensures
        match done {
            Ok(()) => release_spec(old(ledger)@, *vault, *recipient, amount, *rent) == Ok::<
                Map<Seq<u8>, AccountState>,
                PoolError,
            >(final(ledger)@),
            Err(e) => release_spec(old(ledger)@, *vault, *recipient, amount, *rent) == Err::<
                Map<Seq<u8>, AccountState>,
                PoolError,
            >(e) && final(ledger)@ == old(ledger)@,
        },
{
    let held = ledger.account(vault);
    let there = ledger.account(recipient);
    let (left, paid) = match pay_out(&held, &there, amount, rent) {
        Ok(balances) => balances,
        Err(e) => {
            return Err(e);
        },
    };
    ledger.set_lamports(&vault.address, left);
    ledger.set_lamports(&recipient.address, paid);
    Ok(())
}

/// Processes a withdrawal against the store: checks the request, takes
/// the verifier's answer from `host`, claims the nullifier and pays. Either
/// all of it happens or the store is left as it was.
pub fn process_withdraw(
    ledger: &mut Ledger,
    metas: &Vec<AccountMeta>,
    data: &[u8],
    variant: Variant,
    host: &Host,
) -> (done: Result<(), PoolError>)
    ensures
        match done {
            Ok(()) => withdraw_spec(old(ledger)@, metas@, data@, variant, *host) == Ok::<
                Map<Seq<u8>, AccountState>,
                PoolError,
            >(final(ledger)@),
            Err(e) => withdraw_spec(old(ledger)@, metas@, data@, variant, *host) == Err::<
                Map<Seq<u8>, AccountState>,
                PoolError,
            >(e) && final(ledger)@ == old(ledger)@,
        },
{
    let accounts = ledger.load(metas);
    let request = match check_withdraw(&accounts, data, variant) {
        Ok(request) => request,
        Err(e) => {
            return Err(e);
        },
    };
    if !host.proof_accepted {
        return Err(PoolError::ProofRejected);
    }
    let mut work = ledger.duplicate();
    match claim(&mut work, &metas[0].address, &request.nullifier, &host.rent) {
        Ok(()) => {},
        Err(e) => {
            return Err(e);
        },
    }
    match release(&mut work, &metas[2], &metas[1], request.amount, &host.rent) {
        Ok(()) => {},
        Err(e) => {
            return Err(e);
        },
    }
    *ledger = work;
    Ok(())
}

} // verus!
