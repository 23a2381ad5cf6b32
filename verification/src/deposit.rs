//! The deposit handler: value enters the vault and the root that the
//! depositor supplies enters the root history.

use vstd::prelude::*;
use crate::account::{models, Account, AccountMeta, AccountModel, AccountState};
use crate::address::{
    derived_view, find_pool_state_address, find_vault_address, pool_state_address,
    vault_address, Derived, DerivedView, PROGRAM_ID,
};
use crate::errors::PoolError;
use crate::layout::{le_u64, read_le_u64, DEPOSIT_LEN};
use crate::ledger::{present, present_all, transfer_spec, with_data, Ledger};
use crate::state::{parse_state, serialize_state, PoolState, POOL_STATE_LEN};
use crate::words::{read_word, with_tail, word_eq};

verus! {

/// The mathematical content of a `DepositRequest`.
pub struct DepositModel {
    pub amount: u64,
    pub commitment: Seq<u8>,
    pub new_root: Seq<u8>,
}

/// The parameters of a deposit.
#[derive(Clone, Copy, Debug, PartialEq, Eq)]
pub struct DepositRequest {
    pub amount: u64,
    pub commitment: [u8; 32],
    pub new_root: [u8; 32],
}

impl View for DepositRequest {
    type V = DepositModel;

    open spec fn view(&self) -> DepositModel {
        DepositModel {
            amount: self.amount,
            commitment: self.commitment@,
            new_root: self.new_root@,
        }
    }
}

/// The content of a checked request, or the error.
pub open spec fn deposit_view(checked: Result<DepositRequest, PoolError>) -> Result<
    DepositModel,
    PoolError,
> {
    match checked {
        Ok(request) => Ok(request@),
        Err(e) => Err(e),
    }
}

/// The parameters that a buffer of `DEPOSIT_LEN` bytes holds: the amount
/// in eight bytes, lowest first, then the commitment, then the new root.
pub open spec fn deposit_fields(data: Seq<u8>) -> DepositModel {
    DepositModel {
        amount: le_u64(data.subrange(0, 8)),
        commitment: data.subrange(8, 40),
        new_root: data.subrange(40, 72),
    }
}

/// The checks of a deposit that come before any transfer: the request, or
/// the first refusal. The accounts are, in order: the payer, the pool
/// state, the vault and the system program.
pub open spec fn check_deposit_spec(accounts: Seq<AccountModel>, data: Seq<u8>) -> Result<
    DepositModel,
    PoolError,
> {
    if accounts.len() != 4 {
        Err(PoolError::NotEnoughAccountKeys)
    } else if !accounts[0].is_signer {
        Err(PoolError::MissingRequiredSignature)
    } else if !accounts[1].is_writable || !accounts[2].is_writable {
        Err(PoolError::InvalidAccountData)
    } else if data.len() != DEPOSIT_LEN {
        Err(PoolError::InvalidInstructionData)
    } else {
        Ok(deposit_fields(data))
    }
}

/// The stored pool state after `new_root` was appended to the history that
/// `data` stores; what follows the state in `data` stays.
pub open spec fn appended_data(data: Seq<u8>, new_root: Seq<u8>) -> Seq<u8> {
    serialize_state(parse_state(data).append(new_root)) + data.subrange(
        POOL_STATE_LEN as int,
        data.len() as int,
    )
}

/// Appending `new_root` to stored pool state: the new data, or why the
/// data cannot take a root.
pub open spec fn append_root_spec(data: Seq<u8>, new_root: Seq<u8>) -> Result<Seq<u8>, PoolError> {
    if data.len() < POOL_STATE_LEN {
        Err(PoolError::InvalidAccountData)
    } else if !parse_state(data).is_initialized() {
        Err(PoolError::UninitializedAccount)
    } else {
        Ok(appended_data(data, new_root))
    }
}

/// Whether `state` and `vault` are the accounts of the pool, given where
/// these live: each must be the derived account and belong to the pool.
/// The first failure, if any.
pub open spec fn pool_accounts_at(
    state: AccountModel,
    vault: AccountModel,
    derived_state: DerivedView,
    derived_vault: DerivedView,
) -> Option<PoolError> {
    match derived_state {
        None => Some(PoolError::InvalidSeeds),
        Some((state_address, _)) => if state.address != state_address {
            Some(PoolError::InvalidAccountData)
        } else if state.state.owner != PROGRAM_ID@ {
            Some(PoolError::InvalidAccountOwner)
        } else {
            match derived_vault {
                None => Some(PoolError::InvalidSeeds),
                Some((vault_address, _)) => if vault.address != vault_address {
                    Some(PoolError::InvalidAccountData)
                } else if vault.state.owner != PROGRAM_ID@ {
                    Some(PoolError::InvalidAccountOwner)
                } else {
                    None
                },
            }
        },
    }
}

/// Whether `state` and `vault` are the accounts of the pool.
pub open spec fn pool_accounts_spec(state: AccountModel, vault: AccountModel) -> Option<PoolError> {
    pool_accounts_at(state, vault, pool_state_address(), vault_address())
}

/// What follows the transfer of a deposit: the state account and the vault
/// must be the accounts of the pool, and the root is appended to the
/// history without being examined.
pub open spec fn record_root_spec(
    ledger: Map<Seq<u8>, AccountState>,
    state: AccountMeta,
    vault: AccountMeta,
    new_root: Seq<u8>,
) -> Result<Map<Seq<u8>, AccountState>, PoolError> {
    match pool_accounts_spec(present(ledger, state), present(ledger, vault)) {
        Some(e) => Err(e),
        None => match append_root_spec(ledger[state.address@].data, new_root) {
            Err(e) => Err(e),
            Ok(data) => Ok(with_data(ledger, state.address@, data)),
        },
    }
}

/// A deposit as a whole: the store that it leaves, or why it is refused.
pub open spec fn deposit_spec(
    ledger: Map<Seq<u8>, AccountState>,
    metas: Seq<AccountMeta>,
    data: Seq<u8>,
) -> Result<Map<Seq<u8>, AccountState>, PoolError> {
    match check_deposit_spec(present_all(ledger, metas), data) {
        Err(e) => Err(e),
        Ok(request) => match transfer_spec(
            ledger,
            metas[0].address@,
            metas[2].address@,
            request.amount,
        ) {
            Err(e) => Err(e),
            Ok(funded) => record_root_spec(funded, metas[1], metas[2], request.new_root),
        },
    }
}

/// Runs the checks of a deposit that come before any transfer and reads
/// its parameters.
pub fn check_deposit(accounts: &Vec<Account>, data: &[u8]) -> (checked: Result<
    DepositRequest,
    PoolError,
>)
    ensures
        deposit_view(checked) == check_deposit_spec(models(accounts@), data@),
{
    if accounts.len() != 4 {
        return Err(PoolError::NotEnoughAccountKeys);
    }
    if !accounts[0].is_signer {
        return Err(PoolError::MissingRequiredSignature);
    }
    if !accounts[1].is_writable || !accounts[2].is_writable {
        return Err(PoolError::InvalidAccountData);
    }
    if data.len() != DEPOSIT_LEN {
        return Err(PoolError::InvalidInstructionData);
    }
    let amount = read_le_u64(data, 0);
    let commitment = read_word(data, 8);
    let new_root = read_word(data, 40);
    Ok(DepositRequest { amount, commitment, new_root })
}

/// Appends `new_root` to the history that `data` stores and yields the new
/// data of the state account.
pub fn append_root(data: &[u8], new_root: &[u8; 32]) -> (updated: Result<Vec<u8>, PoolError>)
    ensures
        match updated {
            Ok(bytes) => append_root_spec(data@, new_root@) == Ok::<Seq<u8>, PoolError>(bytes@),
            Err(e) => append_root_spec(data@, new_root@) == Err::<Seq<u8>, PoolError>(e),
        },
{
    let mut state = match PoolState::decode(data) {
        Some(state) => state,
        None => {
            return Err(PoolError::InvalidAccountData);
        },
    };
    if !state.is_initialized() {
        return Err(PoolError::UninitializedAccount);
    }
    state.add_root(*new_root);
    Ok(with_tail(state.encode(), data, POOL_STATE_LEN))
}

/// Checks that `state` and `vault` are the accounts of the pool, which
/// live at the two derived addresses.
pub fn check_pool_accounts_at(
    state: &Account,
    vault: &Account,
    derived_state: Derived,
    derived_vault: Derived,
) -> (refusal: Option<PoolError>)
    ensures
        refusal == pool_accounts_at(
            state@,
            vault@,
            derived_view(derived_state),
            derived_view(derived_vault),
        ),
{
    let state_address = match derived_state {
        Some((address, _)) => address,
        None => {
            return Some(PoolError::InvalidSeeds);
        },
    };
    if !word_eq(&state.address, &state_address) {
        return Some(PoolError::InvalidAccountData);
    }
    if !word_eq(&state.owner, &PROGRAM_ID) {
        return Some(PoolError::InvalidAccountOwner);
    }
    let vault_address = match derived_vault {
        Some((address, _)) => address,
        None => {
            return Some(PoolError::InvalidSeeds);
        },
    };
    if !word_eq(&vault.address, &vault_address) {
        return Some(PoolError::InvalidAccountData);
    }
    if !word_eq(&vault.owner, &PROGRAM_ID) {
        return Some(PoolError::InvalidAccountOwner);
    }
    None
}

/// Checks that `state` and `vault` are the accounts of the pool.
pub fn check_pool_accounts(state: &Account, vault: &Account) -> (refusal: Option<PoolError>)
    ensures
        refusal == pool_accounts_spec(state@, vault@),
{
    check_pool_accounts_at(state, vault, find_pool_state_address(), find_vault_address())
}

/// Checks the state account and the vault of a deposit and appends the
/// root. A refusal changes nothing.
pub fn record_root(
    ledger: &mut Ledger,
    state: &AccountMeta,
    vault: &AccountMeta,
    new_root: &[u8; 32],
) -> (done: Result<(), PoolError>)
    ensures
        match done {
            Ok(()) => record_root_spec(old(ledger)@, *state, *vault, new_root@) == Ok::<
                Map<Seq<u8>, AccountState>,
                PoolError,
            >(final(ledger)@),
            Err(e) => record_root_spec(old(ledger)@, *state, *vault, new_root@) == Err::<
                Map<Seq<u8>, AccountState>,
                PoolError,
            >(e) && final(ledger)@ == old(ledger)@,
        },
{
    let state_account = ledger.account(state);
    let vault_account = ledger.account(vault);
    match check_pool_accounts(&state_account, &vault_account) {
        Some(e) => {
            return Err(e);
        },
        None => {},
    }
    let updated = match append_root(state_account.data.as_slice(), new_root) {
        Ok(bytes) => bytes,
        Err(e) => {
            return Err(e);
        },
    };
    ledger.set_data(&state.address, updated);
    Ok(())
}

/// Processes a deposit against the store: moves the amount from the payer
/// to the vault and appends the new root. Either all of it happens or the
/// store is left as it was.
pub fn process_deposit(ledger: &mut Ledger, metas: &Vec<AccountMeta>, data: &[u8]) -> (done: Result<
    (),
    PoolError,
>)
    ensures
        match done {
            Ok(()) => deposit_spec(old(ledger)@, metas@, data@) == Ok::<
                Map<Seq<u8>, AccountState>,
                PoolError,
            >(final(ledger)@),
            Err(e) => deposit_spec(old(ledger)@, metas@, data@) == Err::<
                Map<Seq<u8>, AccountState>,
                PoolError,
            >(e) && final(ledger)@ == old(ledger)@,
        },
{
    let accounts = ledger.load(metas);
    let request = match check_deposit(&accounts, data) {
        Ok(request) => request,
        Err(e) => {
            return Err(e);
        },
    };
    let mut work = ledger.duplicate();
    match work.transfer(&metas[0].address, &metas[2].address, request.amount) {
        Ok(()) => {},
        Err(e) => {
            return Err(e);
        },
    }
    match record_root(&mut work, &metas[1], &metas[2], &request.new_root) {
        Ok(()) => {},
        Err(e) => {
            return Err(e);
        },
    }
    *ledger = work;
    Ok(())
}

} // verus!
