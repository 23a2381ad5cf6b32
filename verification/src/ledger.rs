//! The account store that operations run against: every address has a
//! state, vacant until something is stored under it.

use vstd::prelude::*;
use vstd::slice::slice_to_vec;
use crate::account::{vacant, Account, AccountMeta, AccountModel, AccountState};
use crate::errors::PoolError;
use crate::words::word_eq;

verus! {

/// `space` zero bytes: the data of a newly created account.
pub open spec fn zeroed(space: nat) -> Seq<u8> {
    Seq::new(space, |i: int| 0u8)
}

/// What an operation is shown of the account that `meta` refers to.
pub open spec fn present(ledger: Map<Seq<u8>, AccountState>, meta: AccountMeta) -> AccountModel {
    AccountModel {
        address: meta.address@,
        is_signer: meta.is_signer,
        is_writable: meta.is_writable,
        state: ledger[meta.address@],
    }
}

/// What an operation is shown of each account in its list.
pub open spec fn present_all(ledger: Map<Seq<u8>, AccountState>, metas: Seq<AccountMeta>) -> Seq<
    AccountModel,
> {
    Seq::new(metas.len(), |i: int| present(ledger, metas[i]))
}

/// The store with `lamports` set for `address` and the rest as it was.
pub open spec fn with_lamports(
    ledger: Map<Seq<u8>, AccountState>,
    address: Seq<u8>,
    lamports: u64,
) -> Map<Seq<u8>, AccountState> {
    ledger.insert(
        address,
        AccountState { owner: ledger[address].owner, lamports, data: ledger[address].data },
    )
}

/// The store with `data` set for `address` and the rest as it was.
pub open spec fn with_data(ledger: Map<Seq<u8>, AccountState>, address: Seq<u8>, data: Seq<u8>) -> Map<
    Seq<u8>,
    AccountState,
> {
    ledger.insert(
        address,
        AccountState { owner: ledger[address].owner, lamports: ledger[address].lamports, data },
    )
}

/// Creating an account at `to`, paid for by `from`. An address that is
/// already funded cannot be created again, and the payer must hold the
/// lamports. The new account has `space` zero bytes and belongs to `owner`.
pub open spec fn create_account_spec(
    ledger: Map<Seq<u8>, AccountState>,
    from: Seq<u8>,
    to: Seq<u8>,
    lamports: u64,
    space: nat,
    owner: Seq<u8>,
) -> Result<Map<Seq<u8>, AccountState>, PoolError> {
    if ledger[to].lamports > 0 {
        Err(PoolError::AccountAlreadyInitialized)
    } else if ledger[from].lamports < lamports {
        Err(PoolError::InsufficientFunds)
    } else {
        Ok(
            with_lamports(ledger, from, (ledger[from].lamports - lamports) as u64).insert(
                to,
                AccountState { owner, lamports, data: zeroed(space) },
            ),
        )
    }
}

/// Moving `lamports` from `from` to `to`. The source must hold them and the
/// destination must have room for them.
pub open spec fn transfer_spec(
    ledger: Map<Seq<u8>, AccountState>,
    from: Seq<u8>,
    to: Seq<u8>,
    lamports: u64,
) -> Result<Map<Seq<u8>, AccountState>, PoolError> {
    if ledger[from].lamports < lamports {
        Err(PoolError::InsufficientFunds)
    } else if from == to {
        Ok(ledger)
    } else if ledger[to].lamports + lamports > u64::MAX {
        Err(PoolError::ArithmeticOverflow)
    } else {
        Ok(
            with_lamports(
                with_lamports(ledger, from, (ledger[from].lamports - lamports) as u64),
                to,
                (ledger[to].lamports + lamports) as u64,
            ),
        )
    }
}

/// One stored account.
pub struct Entry {
    pub address: [u8; 32],
    pub owner: [u8; 32],
    pub lamports: u64,
    pub data: Vec<u8>,
}

impl Entry {
    /// What this entry keeps under its address.
    pub open spec fn state(&self) -> AccountState {
        AccountState { owner: self.owner@, lamports: self.lamports, data: self.data@ }
    }
}

/// An account store. An address appears at most once to its readers: the
/// first entry under an address is the account, and every write goes to it.
pub struct Ledger {
    entries: Vec<Entry>,
}

impl View for Ledger {
    type V = Map<Seq<u8>, AccountState>;

    open spec fn view(&self) -> Map<Seq<u8>, AccountState> {
        Map::total(|address: Seq<u8>| self.state_of(address))
    }
}

impl Ledger {
    /// Entry `i` is the first one under `address`.
    pub closed spec fn first_at(&self, address: Seq<u8>, i: int) -> bool {
        &&& 0 <= i < self.entries.len()
        &&& self.entries[i].address@ == address
        &&& forall|j: int| 0 <= j < i ==> self.entries[j].address@ != address
    }

    /// What the store keeps under `address`.
    pub closed spec fn state_of(&self, address: Seq<u8>) -> AccountState {
        if exists|i: int| self.first_at(address, i) {
            self.entries[choose|i: int| self.first_at(address, i)].state()
        } else {
            vacant()
        }
    }

    proof fn lemma_first_at(&self, address: Seq<u8>, i: int)
        requires
            self.first_at(address, i),
        ensures
            self.state_of(address) == self.entries[i].state(),
    {
        let k = choose|k: int| self.first_at(address, k);
        assert(self.first_at(address, k));
        if k < i {
            assert(self.entries[k].address@ != address);
        } else if i < k {
            assert(self.entries[i].address@ != address);
        }
    }

    proof fn lemma_absent(&self, address: Seq<u8>)
        requires
            forall|j: int| 0 <= j < self.entries.len() ==> self.entries[j].address@ != address,
        ensures
            self.state_of(address) == vacant(),
    {
        if exists|i: int| self.first_at(address, i) {
            let k = choose|k: int| self.first_at(address, k);
            assert(self.entries[k].address@ != address);
        }
    }

    /// A store in which every address is vacant.
    pub fn new() -> (ledger: Ledger)
        ensures
            forall|address: Seq<u8>| ledger@[address] == vacant(),
    {
        let ledger = Ledger { entries: Vec::new() };
        proof {
            assert forall|address: Seq<u8>| ledger@[address] == vacant() by {
                ledger.lemma_absent(address);
            }
        }
        ledger
    }

    fn position(&self, address: &[u8; 32]) -> (found: Option<usize>)
        ensures
            match found {
                Some(i) => self.first_at(address@, i as int),
                None => forall|j: int|
                    0 <= j < self.entries.len() ==> self.entries[j].address@ != address@,
            },
    {
        let mut i: usize = 0;
        while i < self.entries.len()
            invariant
                i <= self.entries.len(),
                forall|j: int| 0 <= j < i ==> self.entries[j].address@ != address@,
            decreases self.entries.len() - i,
        {
            if word_eq(&self.entries[i].address, address) {
                return Some(i);
            }
            i += 1;
        }
        None
    }

    /// The lamports under `address`.
    pub fn lamports(&self, address: &[u8; 32]) -> (lamports: u64)
        ensures
            lamports == self@[address@].lamports,
    {
        match self.position(address) {
            Some(i) => {
                proof {
                    self.lemma_first_at(address@, i as int);
                }
                self.entries[i].lamports
            },
            None => {
                proof {
                    self.lemma_absent(address@);
                }
                0
            },
        }
    }

    /// The account that `meta` refers to, as an operation is shown it.
    pub fn account(&self, meta: &AccountMeta) -> (account: Account)
        ensures
            account@ == present(self@, *meta),
    {
        match self.position(&meta.address) {
            Some(i) => {
                proof {
                    self.lemma_first_at(meta.address@, i as int);
                }
                Account {
                    address: meta.address,
                    owner: self.entries[i].owner,
                    lamports: self.entries[i].lamports,
                    data: slice_to_vec(self.entries[i].data.as_slice()),
                    is_signer: meta.is_signer,
                    is_writable: meta.is_writable,
                }
            },
            None => {
                proof {
                    self.lemma_absent(meta.address@);
                }
                let owner = [0u8; 32];
                assert(owner@ =~= crate::account::system_owner());
                Account {
                    address: meta.address,
                    owner,
                    lamports: 0,
                    data: Vec::new(),
                    is_signer: meta.is_signer,
                    is_writable: meta.is_writable,
                }
            },
        }
    }

    /// Every account of `metas`, in order, as an operation is shown them.
    pub fn load(&self, metas: &Vec<AccountMeta>) -> (accounts: Vec<Account>)
        ensures
            crate::account::models(accounts@) == present_all(self@, metas@),
    {
        let mut accounts: Vec<Account> = Vec::new();
        let mut i: usize = 0;
        while i < metas.len()
            invariant
                i <= metas.len(),
                accounts.len() == i,
                forall|k: int| 0 <= k < i ==> accounts[k]@ == present(self@, metas[k]),
            decreases metas.len() - i,
        {
            let account = self.account(&metas[i]);
            accounts.push(account);
            i += 1;
        }
        assert(crate::account::models(accounts@) =~= present_all(self@, metas@));
        accounts
    }

    /// Stores an account under `address`, in place of what was there.
    pub fn put(&mut self, address: &[u8; 32], owner: [u8; 32], lamports: u64, data: Vec<u8>)
        ensures
            final(self)@ == old(self)@.insert(
                address@,
                AccountState { owner: owner@, lamports, data: data@ },
            ),
    {
        let ghost state = AccountState { owner: owner@, lamports, data: data@ };
        let found = self.position(address);
        let entry = Entry { address: *address, owner, lamports, data };
        match found {
            Some(i) => {
                self.entries[i] = entry;
                proof {
                    assert(self.entries@ == old(self).entries@.update(i as int, entry));
                    assert forall|j: int| 0 <= j < self.entries.len() implies self.entries[j].address@
                        == old(self).entries[j].address@ by {}
                    assert(self.first_at(address@, i as int));
                    self.lemma_first_at(address@, i as int);
                    assert forall|other: Seq<u8>| other != address@ implies self.state_of(other)
                        == old(self).state_of(other) by {
                        if exists|k: int| old(self).first_at(other, k) {
                            let k = choose|k: int| old(self).first_at(other, k);
                            assert(self.first_at(other, k));
                            self.lemma_first_at(other, k);
                        } else {
                            if exists|k: int| self.first_at(other, k) {
                                let k = choose|k: int| self.first_at(other, k);
                                assert(self.first_at(other, k));
                                assert(old(self).first_at(other, k));
                            }
                        }
                    }
                }
            },
            None => {
                self.entries.push(entry);
                proof {
                    let last = old(self).entries.len() as int;
                    assert(self.entries@ == old(self).entries@.push(entry));
                    assert forall|j: int| 0 <= j < last implies self.entries[j] == old(
                        self,
                    ).entries[j] by {}
                    assert(self.first_at(address@, last));
                    self.lemma_first_at(address@, last);
                    assert forall|other: Seq<u8>| other != address@ implies self.state_of(other)
                        == old(self).state_of(other) by {
                        if exists|k: int| old(self).first_at(other, k) {
                            let k = choose|k: int| old(self).first_at(other, k);
                            assert(self.first_at(other, k));
                            self.lemma_first_at(other, k);
                        } else {
                            if exists|k: int| self.first_at(other, k) {
                                let k = choose|k: int| self.first_at(other, k);
                                assert(self.first_at(other, k));
                                assert(k < last);
                                assert(old(self).first_at(other, k));
                            }
                        }
                    }
                }
            },
        }
        assert(self@ =~= old(self)@.insert(address@, state));
    }

    /// Sets the lamports under `address` and leaves owner and data alone.
    pub fn set_lamports(&mut self, address: &[u8; 32], lamports: u64)
        ensures
            final(self)@ == with_lamports(old(self)@, address@, lamports),
    {
        let meta = AccountMeta { address: *address, is_signer: false, is_writable: false };
        let account = self.account(&meta);
        self.put(address, account.owner, lamports, account.data);
    }

    /// Sets the data under `address` and leaves owner and lamports alone.
    pub fn set_data(&mut self, address: &[u8; 32], data: Vec<u8>)
        ensures
            final(self)@ == with_data(old(self)@, address@, data@),
    {
        let meta = AccountMeta { address: *address, is_signer: false, is_writable: false };
        let account = self.account(&meta);
        self.put(address, account.owner, account.lamports, data);
    }

    /// Creates an account at `to` with `space` zero bytes, owned by `owner`
    /// and funded with `lamports` out of `from`. Nothing changes where the
    /// address is already funded or the payer cannot pay.
    pub fn create_account(
        &mut self,
        from: &[u8; 32],
        to: &[u8; 32],
        lamports: u64,
        space: usize,
        owner: &[u8; 32],
    ) -> (done: Result<(), PoolError>)
        ensures
            match done {
                Ok(()) => create_account_spec(
                    old(self)@,
                    from@,
                    to@,
                    lamports,
                    space as nat,
                    owner@,
                ) == Ok::<Map<Seq<u8>, AccountState>, PoolError>(final(self)@),
                Err(e) => create_account_spec(
                    old(self)@,
                    from@,
                    to@,
                    lamports,
                    space as nat,
                    owner@,
                ) == Err::<Map<Seq<u8>, AccountState>, PoolError>(e) && final(self)@ == old(self)@,
            },
    {
        if self.lamports(to) > 0 {
            return Err(PoolError::AccountAlreadyInitialized);
        }
        let held = self.lamports(from);
        if held < lamports {
            return Err(PoolError::InsufficientFunds);
        }
        self.set_lamports(from, held - lamports);
        self.put(to, *owner, lamports, zero_bytes(space));
        Ok(())
    }

    /// Moves `lamports` from `from` to `to`. Nothing changes where the
    /// source holds less or the destination has no room.
    pub fn transfer(&mut self, from: &[u8; 32], to: &[u8; 32], lamports: u64) -> (done: Result<
        (),
        PoolError,
    >)
        ensures
            match done {
                Ok(()) => transfer_spec(old(self)@, from@, to@, lamports) == Ok::<
                    Map<Seq<u8>, AccountState>,
                    PoolError,
                >(final(self)@),
                Err(e) => transfer_spec(old(self)@, from@, to@, lamports) == Err::<
                    Map<Seq<u8>, AccountState>,
                    PoolError,
                >(e) && final(self)@ == old(self)@,
            },
    {
        let held = self.lamports(from);
        if held < lamports {
            return Err(PoolError::InsufficientFunds);
        }
        if word_eq(from, to) {
            return Ok(());
        }
        let there = self.lamports(to);
        if lamports > u64::MAX - there {
            return Err(PoolError::ArithmeticOverflow);
        }
        self.set_lamports(from, held - lamports);
        self.set_lamports(to, there + lamports);
        Ok(())
    }

    /// An equal store with storage of its own.
    pub fn duplicate(&self) -> (copy: Ledger)
        ensures
            copy@ == self@,
    {
        let mut entries: Vec<Entry> = Vec::new();
        let mut i: usize = 0;
        while i < self.entries.len()
            invariant
                i <= self.entries.len(),
                entries.len() == i,
                forall|k: int|
                    0 <= k < i ==> entries[k].address@ == self.entries[k].address@ && entries[k].state()
                        == self.entries[k].state(),
            decreases self.entries.len() - i,
        {
            entries.push(
                Entry {
                    address: self.entries[i].address,
                    owner: self.entries[i].owner,
                    lamports: self.entries[i].lamports,
                    data: slice_to_vec(self.entries[i].data.as_slice()),
                },
            );
            i += 1;
        }
        let copy = Ledger { entries };
        proof {
            assert forall|address: Seq<u8>| copy.state_of(address) == self.state_of(address) by {
                if exists|k: int| self.first_at(address, k) {
                    let k = choose|k: int| self.first_at(address, k);
                    assert(self.first_at(address, k));
                    assert forall|j: int| 0 <= j < k implies copy.entries[j].address@
                        != address by {
                        assert(copy.entries[j].address@ == self.entries[j].address@);
                    }
                    assert(copy.first_at(address, k));
                    copy.lemma_first_at(address, k);
                } else {
                    if exists|k: int| copy.first_at(address, k) {
                        let k = choose|k: int| copy.first_at(address, k);
                        assert(copy.first_at(address, k));
                        assert forall|j: int| 0 <= j < k implies self.entries[j].address@
                            != address by {
                            assert(copy.entries[j].address@ == self.entries[j].address@);
                        }
                        assert(self.first_at(address, k));
                    }
                }
            }
            assert(copy@ =~= self@);
        }
        copy
    }
}

/// `space` zero bytes.
pub fn zero_bytes(space: usize) -> (bytes: Vec<u8>)
    ensures
        bytes@ == zeroed(space as nat),
{
    let mut bytes: Vec<u8> = Vec::new();
    let mut i: usize = 0;
    while i < space
        invariant
            i <= space,
            bytes.len() == i,
            forall|k: int| 0 <= k < i ==> bytes[k] == 0,
        decreases space - i,
    {
        bytes.push(0u8);
        i += 1;
    }
    assert(bytes@ =~= zeroed(space as nat));
    bytes
}

} // verus!
