//! Accounts as plain values: what the host keeps under an address, and what
//! an operation is shown of it.

use vstd::prelude::*;

verus! {

/// What the host keeps under an address.
pub struct AccountState {
    pub owner: Seq<u8>,
    pub lamports: u64,
    pub data: Seq<u8>,
}

/// The address of the system program, which owns every account that no
/// program has been given.
pub open spec fn system_owner() -> Seq<u8> {
    Seq::new(32, |i: int| 0u8)
}

/// The state of an address that nothing was ever stored under: unfunded,
/// empty and owned by the system program.
pub open spec fn vacant() -> AccountState {
    AccountState { owner: system_owner(), lamports: 0, data: Seq::empty() }
}

/// A reference to an account in the list that an operation is given.
#[derive(Clone, Copy, Debug, PartialEq, Eq)]
pub struct AccountMeta {
    pub address: [u8; 32],
    pub is_signer: bool,
    pub is_writable: bool,
}

/// The mathematical content of an `Account`.
pub struct AccountModel {
    pub address: Seq<u8>,
    pub is_signer: bool,
    pub is_writable: bool,
    pub state: AccountState,
}

/// An account as an operation sees it: its address, how it was passed and
/// what the host keeps under it at that moment.
#[derive(Debug)]
pub struct Account {
    pub address: [u8; 32],
    pub owner: [u8; 32],
    pub lamports: u64,
    pub data: Vec<u8>,
    pub is_signer: bool,
    pub is_writable: bool,
}

impl View for Account {
    type V = AccountModel;

    open spec fn view(&self) -> AccountModel {
        AccountModel {
            address: self.address@,
            is_signer: self.is_signer,
            is_writable: self.is_writable,
            state: AccountState { owner: self.owner@, lamports: self.lamports, data: self.data@ },
        }
    }
}

/// The content of each account of a list.
pub open spec fn models(accounts: Seq<Account>) -> Seq<AccountModel> {
    Seq::new(accounts.len(), |i: int| accounts[i]@)
}

} // verus!
