//! The initialise handler: creates the pool state and the vault once.

use vstd::prelude::*;
use crate::account::{models, Account, AccountMeta, AccountModel, AccountState};
use crate::address::{
    derived_view, find_pool_state_address, find_vault_address, pool_state_address,
    vault_address, Derived, DerivedView, PROGRAM_ID,
};
use crate::errors::PoolError;
use crate::host::Host;
use crate::ledger::{create_account_spec, present, present_all, with_data, Ledger};
use crate::rent::RentRate;
use crate::state::{parse_state, serialize_state, PoolModel, PoolState, POOL_STATE_LEN};
use crate::words::{with_tail, word_eq};

verus! {

/// The checks on how the accounts of an initialisation were passed: the
/// first that fails, if any. The accounts are, in order: the payer, the
/// pool state, the vault and the system program.
pub open spec fn check_initialize_spec(accounts: Seq<AccountModel>) -> Option<PoolError> {
    if accounts.len() != 4 {
        Some(PoolError::NotEnoughAccountKeys)
    } else if !accounts[0].is_signer {
        Some(PoolError::MissingRequiredSignature)
    } else if !accounts[1].is_writable || !accounts[2].is_writable {
        Some(PoolError::InvalidAccountData)
    } else {
        None
    }
}

/// The data of a state account once a fresh state was written over its
/// first `POOL_STATE_LEN` bytes.
pub open spec fn fresh_data(data: Seq<u8>) -> Seq<u8> {
    serialize_state(PoolModel::fresh()) + data.subrange(POOL_STATE_LEN as int, data.len() as int)
}

/// What is to be written into a state account: nothing where a state is
/// there already, else a fresh state. Data too short for a state is
/// refused.
pub open spec fn initial_data_spec(data: Seq<u8>) -> Result<Option<Seq<u8>>, PoolError> {
    if data.len() < POOL_STATE_LEN {
        Err(PoolError::InvalidAccountData)
    } else if parse_state(data).is_initialized() {
        Ok(None)
    } else {
        Ok(Some(fresh_data(data)))
    }
}

/// What the state account needs, given where it lives: it must be the
/// derived state account; one that holds data must belong to the pool and
/// needs nothing; one that holds none is to be created with room for a
/// state, at the price given.
pub open spec fn state_plan_at(state: AccountModel, rent: RentRate, derived: DerivedView) -> Result<
    Option<u64>,
    PoolError,
> {
    match derived {
        None => Err(PoolError::InvalidSeeds),
        Some((address, _)) => if state.address != address {
            Err(PoolError::InvalidAccountData)
        } else if state.state.data.len() != 0 && state.state.owner != PROGRAM_ID@ {
            Err(PoolError::InvalidAccountOwner)
        } else if state.state.data.len() == 0 {
            match rent.floor(POOL_STATE_LEN as nat) {
                None => Err(PoolError::InvalidArgument),
                Some(price) => Ok(Some(price)),
            }
        } else {
            Ok(None)
        },
    }
}

/// What the state account needs.
pub open spec fn state_plan_spec(state: AccountModel, rent: RentRate) -> Result<
    Option<u64>,
    PoolError,
> {
    state_plan_at(state, rent, pool_state_address())
}

/// What the vault needs, given where it lives: it must be the derived
/// vault; one that is funded must belong to the pool; one that is neither
/// funded nor holds data is to be created empty, at the price given.
pub open spec fn vault_plan_at(vault: AccountModel, rent: RentRate, derived: DerivedView) -> Result<
    Option<u64>,
    PoolError,
> {
    match derived {
        None => Err(PoolError::InvalidSeeds),
        Some((address, _)) => if vault.address != address {
            Err(PoolError::InvalidAccountData)
        } else if vault.state.lamports > 0 && vault.state.owner != PROGRAM_ID@ {
            Err(PoolError::InvalidAccountOwner)
        } else if vault.state.data.len() == 0 && vault.state.lamports == 0 {
            match rent.floor(0) {
                None => Err(PoolError::InvalidArgument),
                Some(price) => Ok(Some(price)),
            }
        } else {
            Ok(None)
        },
    }
}

/// What the vault needs.
pub open spec fn vault_plan_spec(vault: AccountModel, rent: RentRate) -> Result<
    Option<u64>,
    PoolError,
> {
    vault_plan_at(vault, rent, vault_address())
}

/// Making sure that the account exists that a plan is about: where the
/// plan names a price, the account is created at the payer's cost.
pub open spec fn open_spec(
    ledger: Map<Seq<u8>, AccountState>,
    payer: Seq<u8>,
    account: Seq<u8>,
    plan: Result<Option<u64>, PoolError>,
    space: nat,
) -> Result<Map<Seq<u8>, AccountState>, PoolError> {
    match plan {
        Err(e) => Err(e),
        Ok(None) => Ok(ledger),
        Ok(Some(price)) => create_account_spec(ledger, payer, account, price, space, PROGRAM_ID@),
    }
}

/// An initialisation as a whole. A pool that is already initialised is
/// left as it is, and that is a success.
pub open spec fn initialize_spec(
    ledger: Map<Seq<u8>, AccountState>,
    metas: Seq<AccountMeta>,
    host: Host,
) -> Result<Map<Seq<u8>, AccountState>, PoolError> {
    let payer = metas[0].address@;
    let state = metas[1].address@;
    let vault = metas[2].address@;
    match check_initialize_spec(present_all(ledger, metas)) {
        Some(e) => Err(e),
        None => match open_spec(
            ledger,
            payer,
            state,
            state_plan_spec(present(ledger, metas[1]), host.rent),
            POOL_STATE_LEN as nat,
        ) {
            Err(e) => Err(e),
            Ok(opened) => match initial_data_spec(opened[state].data) {
                Err(e) => Err(e),
                Ok(None) => Ok(opened),
                Ok(Some(data)) => {
                    let written = with_data(opened, state, data);
                    open_spec(
                        written,
                        payer,
                        vault,
                        vault_plan_spec(present(written, metas[2]), host.rent),
                        0,
                    )
                },
            },
        },
    }
}

/// Checks how the accounts of an initialisation were passed.
pub fn check_initialize(accounts: &Vec<Account>) -> (refusal: Option<PoolError>)
    ensures
        refusal == check_initialize_spec(models(accounts@)),
{
    if accounts.len() != 4 {
        return Some(PoolError::NotEnoughAccountKeys);
    }
    if !accounts[0].is_signer {
        return Some(PoolError::MissingRequiredSignature);
    }
    if !accounts[1].is_writable || !accounts[2].is_writable {
        return Some(PoolError::InvalidAccountData);
    }
    None
}

/// Says what the account needs before a state can be written, if the
/// state account lives at `derived`.
pub fn plan_state_at(state: &Account, rent: &RentRate, derived: Derived) -> (plan: Result<
    Option<u64>,
    PoolError,
>)
    ensures
        plan == state_plan_at(state@, *rent, derived_view(derived)),
{
    let address = match derived {
        Some((address, _)) => address,
        None => {
            return Err(PoolError::InvalidSeeds);
        },
    };
    if !word_eq(&state.address, &address) {
        return Err(PoolError::InvalidAccountData);
    }
    if state.data.len() != 0 && !word_eq(&state.owner, &PROGRAM_ID) {
        return Err(PoolError::InvalidAccountOwner);
    }
    if state.data.len() == 0 {
        return match rent.minimum_balance(POOL_STATE_LEN) {
            Ok(price) => Ok(Some(price)),
            Err(e) => Err(e),
        };
    }
    Ok(None)
}

/// Says what the state account needs before a state can be written.
pub fn plan_state(state: &Account, rent: &RentRate) -> (plan: Result<Option<u64>, PoolError>)
    ensures
        plan == state_plan_spec(state@, *rent),
{
    plan_state_at(state, rent, find_pool_state_address())
}

/// Says what the account needs before the pool can be used, if the vault
/// lives at `derived`.
pub fn plan_vault_at(vault: &Account, rent: &RentRate, derived: Derived) -> (plan: Result<
    Option<u64>,
    PoolError,
>)
    ensures
        plan == vault_plan_at(vault@, *rent, derived_view(derived)),
{
    let address = match derived {
        Some((address, _)) => address,
        None => {
            return Err(PoolError::InvalidSeeds);
        },
    };
    if !word_eq(&vault.address, &address) {
        return Err(PoolError::InvalidAccountData);
    }
    if vault.lamports > 0 && !word_eq(&vault.owner, &PROGRAM_ID) {
        return Err(PoolError::InvalidAccountOwner);
    }
    if vault.data.len() == 0 && vault.lamports == 0 {
        return match rent.minimum_balance(0) {
            Ok(price) => Ok(Some(price)),
            Err(e) => Err(e),
        };
    }
    Ok(None)
}

/// Says what the vault needs before the pool can be used.
pub fn plan_vault(vault: &Account, rent: &RentRate) -> (plan: Result<Option<u64>, PoolError>)
    ensures
        plan == vault_plan_spec(vault@, *rent),
{
    plan_vault_at(vault, rent, find_vault_address())
}

/// Says what is to be written into a state account that holds `data`:
/// nothing where a state is there already, else a fresh state.
pub fn initial_data(data: &[u8]) -> (written: Result<Option<Vec<u8>>, PoolError>)
    ensures
        match written {
            Ok(Some(bytes)) => initial_data_spec(data@) == Ok::<Option<Seq<u8>>, PoolError>(
                Some(bytes@),
            ),
            Ok(None) => initial_data_spec(data@) == Ok::<Option<Seq<u8>>, PoolError>(None),
            Err(e) => initial_data_spec(data@) == Err::<Option<Seq<u8>>, PoolError>(e),
        },
{
    let stored = match PoolState::decode(data) {
        Some(stored) => stored,
        None => {
            return Err(PoolError::InvalidAccountData);
        },
    };
    if stored.is_initialized() {
        return Ok(None);
    }
    Ok(Some(with_tail(PoolState::new().encode(), data, POOL_STATE_LEN)))
}

/// Carries out a plan: creates the account where the plan names a price.
/// A refusal changes nothing.
pub fn open(
    ledger: &mut Ledger,
    payer: &[u8; 32],
    account: &[u8; 32],
    plan: Result<Option<u64>, PoolError>,
    space: usize,
) -> (done: Result<(), PoolError>)
    ensures
        match done {
            Ok(()) => open_spec(old(ledger)@, payer@, account@, plan, space as nat) == Ok::<
                Map<Seq<u8>, AccountState>,
                PoolError,
            >(final(ledger)@),
            Err(e) => open_spec(old(ledger)@, payer@, account@, plan, space as nat) == Err::<
                Map<Seq<u8>, AccountState>,
                PoolError,
            >(e) && final(ledger)@ == old(ledger)@,
        },
{
    match plan {
        Err(e) => Err(e),
        Ok(None) => Ok(()),
        Ok(Some(price)) => ledger.create_account(payer, account, price, space, &PROGRAM_ID),
    }
}

/// Processes an initialisation against the store: creates the state
/// account if it holds no data, writes a fresh state unless one is there,
/// and creates the vault if it is missing. Either all of it happens or the
/// store is left as it was.
pub fn process_initialize(
    ledger: &mut Ledger,
    metas: &Vec<AccountMeta>,
    _data: &[u8],
    host: &Host,
) -> (done: Result<(), PoolError>)
    ensures
        match done {
            Ok(()) => initialize_spec(old(ledger)@, metas@, *host) == Ok::<
                Map<Seq<u8>, AccountState>,
                PoolError,
            >(final(ledger)@),
            Err(e) => initialize_spec(old(ledger)@, metas@, *host) == Err::<
                Map<Seq<u8>, AccountState>,
                PoolError,
            >(e) && final(ledger)@ == old(ledger)@,
        },
{
    let accounts = ledger.load(metas);
    match check_initialize(&accounts) {
        Some(e) => {
            return Err(e);
        },
        None => {},
    }
    let mut work = ledger.duplicate();
    let state_plan = plan_state(&accounts[1], &host.rent);
    match open(&mut work, &metas[0].address, &metas[1].address, state_plan, POOL_STATE_LEN) {
        Ok(()) => {},
        Err(e) => {
            return Err(e);
        },
    }
    let state_account = work.account(&metas[1]);
    let fresh = match initial_data(state_account.data.as_slice()) {
        Ok(Some(fresh)) => fresh,
        Ok(None) => {
            *ledger = work;
            return Ok(());
        },
        Err(e) => {
            return Err(e);
        },
    };
    work.set_data(&metas[1].address, fresh);
    let vault_plan = plan_vault(&work.account(&metas[2]), &host.rent);
    match open(&mut work, &metas[0].address, &metas[2].address, vault_plan, 0) {
        Ok(()) => {},
        Err(e) => {
            return Err(e);
        },
    }
    *ledger = work;
    Ok(())
}

} // verus!
