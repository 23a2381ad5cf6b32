//! The nullifier registry: a nullifier is spent once a funded marker
//! exists at the address derived from it.

use vstd::prelude::*;
use crate::account::AccountState;
use crate::address::{
    derived_view, find_nullifier_address, nullifier_address, Derived, DerivedView, PROGRAM_ID,
};
use crate::errors::PoolError;
use crate::ledger::{create_account_spec, Ledger};
use crate::rent::RentRate;

verus! {

/// Whether a funded account exists at the place of a marker.
pub open spec fn is_spent_at_spec(ledger: Map<Seq<u8>, AccountState>, marker: DerivedView) -> bool {
    match marker {
        Some((address, _)) => ledger[address].lamports > 0,
        None => false,
    }
}

/// Whether `nullifier` is spent: a funded account exists at the address
/// derived from it.
pub open spec fn is_spent_spec(ledger: Map<Seq<u8>, AccountState>, nullifier: Seq<u8>) -> bool {
    is_spent_at_spec(ledger, nullifier_address(nullifier))
}

/// Creating the marker at its place: it is created empty, owned by the
/// pool and funded by `payer` with the minimum viable balance. A marker
/// that is funded already cannot be created again.
pub open spec fn claim_at_spec(
    ledger: Map<Seq<u8>, AccountState>,
    payer: Seq<u8>,
    marker: DerivedView,
    rent: RentRate,
) -> Result<Map<Seq<u8>, AccountState>, PoolError> {
    match marker {
        None => Err(PoolError::InvalidSeeds),
        Some((address, _)) => match rent.floor(0) {
            None => Err(PoolError::InvalidArgument),
            Some(price) => create_account_spec(ledger, payer, address, price, 0, PROGRAM_ID@),
        },
    }
}

/// Claiming `nullifier`: its marker is created at the address derived from
/// it.
pub open spec fn claim_spec(
    ledger: Map<Seq<u8>, AccountState>,
    payer: Seq<u8>,
    nullifier: Seq<u8>,
    rent: RentRate,
) -> Result<Map<Seq<u8>, AccountState>, PoolError> {
    claim_at_spec(ledger, payer, nullifier_address(nullifier), rent)
}

/// Whether the marker that lives at `marker` is funded.
pub fn is_spent_at(ledger: &Ledger, marker: Derived) -> (spent: bool)
    ensures
        spent == is_spent_at_spec(ledger@, derived_view(marker)),
{
    match marker {
        Some((address, _)) => ledger.lamports(&address) > 0,
        None => false,
    }
}

/// Whether `nullifier` is spent.
pub fn is_spent(ledger: &Ledger, nullifier: &[u8; 32]) -> (spent: bool)
    ensures
        spent == is_spent_spec(ledger@, nullifier@),
{
    is_spent_at(ledger, find_nullifier_address(nullifier))
}

/// Creates the marker that lives at `marker`, at the cost of `payer`. A
/// refusal changes nothing.
pub fn claim_at(ledger: &mut Ledger, payer: &[u8; 32], marker: Derived, rent: &RentRate) -> (done:
    Result<(), PoolError>)
    ensures
        match done {
            Ok(()) => claim_at_spec(old(ledger)@, payer@, derived_view(marker), *rent) == Ok::<
                Map<Seq<u8>, AccountState>,
                PoolError,
            >(final(ledger)@),
            Err(e) => claim_at_spec(old(ledger)@, payer@, derived_view(marker), *rent) == Err::<
                Map<Seq<u8>, AccountState>,
                PoolError,
            >(e) && final(ledger)@ == old(ledger)@,
        },
{
    let address = match marker {
        Some((address, _)) => address,
        None => {
            return Err(PoolError::InvalidSeeds);
        },
    };
    let price = match rent.minimum_balance(0) {
        Ok(price) => price,
        Err(e) => {
            return Err(e);
        },
    };
    ledger.create_account(payer, &address, price, 0, &PROGRAM_ID)
}

/// Claims `nullifier` at the cost of `payer`. Of two claims of one
/// nullifier the second is refused as `AccountAlreadyInitialized`, and a
/// refusal changes nothing.
pub fn claim(ledger: &mut Ledger, payer: &[u8; 32], nullifier: &[u8; 32], rent: &RentRate) -> (done:
    Result<(), PoolError>)
    ensures
        match done {
            Ok(()) => claim_spec(old(ledger)@, payer@, nullifier@, *rent) == Ok::<
                Map<Seq<u8>, AccountState>,
                PoolError,
            >(final(ledger)@),
            Err(e) => claim_spec(old(ledger)@, payer@, nullifier@, *rent) == Err::<
                Map<Seq<u8>, AccountState>,
                PoolError,
            >(e) && final(ledger)@ == old(ledger)@,
        },
{
    claim_at(ledger, payer, find_nullifier_address(nullifier), rent)
}

} // verus!
