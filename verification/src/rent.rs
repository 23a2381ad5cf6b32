//! The minimum balance that keeps an account of a given size alive.

use vstd::prelude::*;
use pinocchio::sysvars::rent::Rent;
use crate::errors::PoolError;

verus! {

/// The largest data length for which a minimum balance is defined.
pub const MAX_DATA_LEN: u64 = 10_485_760;

/// The largest rate for which a minimum balance is defined.
pub const MAX_LAMPORTS_PER_BYTE: u64 = 1_759_197_129_867;

/// The bytes that every account is charged for beside its data.
pub const STORAGE_OVERHEAD: u64 = 128;

/// The minimum viable balance of an account with `data_len` bytes of data
/// at `lamports_per_byte`; none where either is above its limit.
pub open spec fn minimum_balance(lamports_per_byte: u64, data_len: nat) -> Option<u64> {
    if data_len > MAX_DATA_LEN || lamports_per_byte > MAX_LAMPORTS_PER_BYTE {
        None
    } else {
        Some(((STORAGE_OVERHEAD + data_len) * lamports_per_byte) as u64)
    }
}

/// Within the limits the product fits in 64 bits, so the cast in
/// `minimum_balance` loses nothing.
pub proof fn lemma_minimum_balance_fits(lamports_per_byte: u64, data_len: nat)
    requires
        data_len <= MAX_DATA_LEN,
        lamports_per_byte <= MAX_LAMPORTS_PER_BYTE,
    ensures
        (STORAGE_OVERHEAD + data_len) * lamports_per_byte <= u64::MAX,
        minimum_balance(lamports_per_byte, data_len) == Some(
            ((STORAGE_OVERHEAD + data_len) * lamports_per_byte) as u64,
        ),
        lamports_per_byte > 0 ==> minimum_balance(lamports_per_byte, data_len)->0 > 0,
{
    let a = (STORAGE_OVERHEAD + data_len) as int;
    let b = lamports_per_byte as int;
    assert(a * b <= 10_485_888 * 1_759_197_129_867) by (nonlinear_arith)
        requires
            0 <= a <= 10_485_888,
            0 <= b <= 1_759_197_129_867,
    ;
    assert(b > 0 ==> a * b > 0) by (nonlinear_arith)
        requires
            a >= 128,
            b >= 0,
    ;
}

/// Calls `Rent::try_minimum_balance` of pinocchio on a `Rent` built by
/// `Rent::from_bytes` from the rate's bytes in memory order. The contract
/// repeats what that method computes: nothing above either limit, else the
/// data length plus the storage overhead, times the rate.
#[verifier::external_body]
fn rent_minimum_balance(lamports_per_byte: u64, data_len: usize) -> (floor: Option<u64>)
    ensures
        floor == minimum_balance(lamports_per_byte, data_len as nat),
{
    match Rent::from_bytes(&lamports_per_byte.to_ne_bytes()) {
        Ok(rent) => rent.try_minimum_balance(data_len).ok(),
        Err(_) => None,
    }
}

/// The price of storage in force when an operation runs.
#[derive(Clone, Copy, Debug, PartialEq, Eq, Structural)]
pub struct RentRate {
    pub lamports_per_byte: u64,
}

impl RentRate {
    /// The minimum viable balance for `data_len` bytes at this rate.
    pub open spec fn floor(self, data_len: nat) -> Option<u64> {
        minimum_balance(self.lamports_per_byte, data_len)
    }

    /// The minimum viable balance for `data_len` bytes at this rate, or
    /// `InvalidArgument` where none is defined.
    pub fn minimum_balance(&self, data_len: usize) -> (floor: Result<u64, PoolError>)
        ensures
            match floor {
                Ok(lamports) => self.floor(data_len as nat) == Some(lamports),
                Err(e) => e == PoolError::InvalidArgument && self.floor(data_len as nat) is None,
            },
    {
        match rent_minimum_balance(self.lamports_per_byte, data_len) {
            Some(lamports) => Ok(lamports),
            None => Err(PoolError::InvalidArgument),
        }
    }
}

} // verus!
