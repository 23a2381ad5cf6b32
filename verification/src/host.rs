//! What the surroundings answer while an operation runs.

use vstd::prelude::*;
use crate::rent::RentRate;

verus! {

/// The answers of the host to one operation: the price of storage, and
/// whether the verifier that the operation calls accepts its payload.
#[derive(Clone, Copy, Debug, PartialEq, Eq, Structural)]
pub struct Host {
    pub rent: RentRate,
    pub proof_accepted: bool,
}

/// A call to a verifier: the program that is called and the payload that
/// is handed to it.
#[derive(Debug)]
pub struct VerifierCall {
    pub program: [u8; 32],
    pub payload: Vec<u8>,
}

} // verus!
