//! The fixed addresses of the protocol and the addresses derived from seeds.

use vstd::prelude::*;
use pinocchio::Address;

verus! {

/// The address of the pool program, which owns every account of the pool.
pub const PROGRAM_ID: [u8; 32] = [
    239, 75, 25, 116, 146, 75, 33, 175, 197, 220, 41, 245, 37, 236, 116, 230,
    74, 205, 181, 177, 76, 14, 38, 93, 105, 136, 45, 38, 42, 163, 230, 20,
];

/// The verifier of plain withdrawal proofs.
pub const WITHDRAW_VERIFIER_ID: [u8; 32] = [
    175, 62, 157, 14, 167, 141, 114, 138, 180, 177, 33, 201, 178, 238, 103, 210,
    90, 222, 154, 193, 148, 134, 95, 22, 100, 193, 99, 199, 115, 217, 30, 168,
];

/// The verifier of audit-gated withdrawal proofs.
pub const GATED_WITHDRAW_VERIFIER_ID: [u8; 32] = [
    42, 46, 142, 1, 245, 220, 146, 236, 58, 37, 172, 145, 131, 10, 25, 66,
    72, 167, 165, 139, 43, 93, 210, 33, 155, 249, 251, 0, 7, 239, 123, 251,
];

/// The verifier of audit proofs.
pub const AUDIT_VERIFIER_ID: [u8; 32] = [
    17, 48, 163, 13, 156, 39, 154, 80, 21, 157, 154, 86, 40, 218, 98, 242,
    223, 203, 208, 190, 191, 181, 11, 180, 147, 217, 203, 180, 150, 207, 84, 82,
];

/// The label `pool_state`.
pub const POOL_STATE_SEED: [u8; 10] = [112, 111, 111, 108, 95, 115, 116, 97, 116, 101];

/// The label `vault`.
pub const VAULT_SEED: [u8; 5] = [118, 97, 117, 108, 116];

/// The label `nullifier`.
pub const NULLIFIER_SEED: [u8; 9] = [110, 117, 108, 108, 105, 102, 105, 101, 114];

/// The label `audit`.
pub const AUDIT_SEED: [u8; 5] = [97, 117, 100, 105, 116];

/// The address that `program_id` derives from `seeds`, with its bump seed;
/// none where no such address exists.
pub uninterp spec fn program_address(seeds: Seq<Seq<u8>>, program_id: Seq<u8>) -> Option<
    (Seq<u8>, u8),
>;

/// What a derivation yields: the address and its bump seed, or nothing.
pub type Derived = Option<([u8; 32], u8)>;

/// The mathematical content of a `Derived`.
pub type DerivedView = Option<(Seq<u8>, u8)>;

/// A derived address and its bump seed as plain sequences.
pub open spec fn derived_view(found: Option<([u8; 32], u8)>) -> Option<(Seq<u8>, u8)> {
    match found {
        Some((address, bump)) => Some((address@, bump)),
        None => None,
    }
}

/// The address of a derivation; of none, the empty sequence.
pub open spec fn address_part(found: Option<(Seq<u8>, u8)>) -> Seq<u8> {
    match found {
        Some((address, _)) => address,
        None => Seq::empty(),
    }
}

/// The bytes of each seed.
pub open spec fn seeds_view(seeds: Seq<&[u8]>) -> Seq<Seq<u8>> {
    Seq::new(seeds.len(), |i: int| seeds[i]@)
}

/// Calls `Address::try_find_program_address` of pinocchio. The search is a
/// function of the seeds and the program address alone, so the contract
/// gives its result the name `program_address` and claims nothing else.
#[verifier::external_body]
fn find_program_address(seeds: &[&[u8]], program_id: &[u8; 32]) -> (found: Option<([u8; 32], u8)>)
    ensures
        derived_view(found) == program_address(seeds_view(seeds@), program_id@),
{
    match Address::try_find_program_address(seeds, &Address::new_from_array(*program_id)) {
        Some((address, bump)) => Some((address.to_bytes(), bump)),
        None => None,
    }
}

/// Where the pool state lives.
pub open spec fn pool_state_address() -> Option<(Seq<u8>, u8)> {
    program_address(seq![POOL_STATE_SEED@], PROGRAM_ID@)
}

/// Where the vault lives.
pub open spec fn vault_address() -> Option<(Seq<u8>, u8)> {
    program_address(seq![VAULT_SEED@], PROGRAM_ID@)
}

/// Where the marker of `nullifier` lives.
pub open spec fn nullifier_address(nullifier: Seq<u8>) -> Option<(Seq<u8>, u8)> {
    program_address(seq![NULLIFIER_SEED@, nullifier], PROGRAM_ID@)
}

/// Where the audit record of `commitment` lives.
pub open spec fn audit_address(commitment: Seq<u8>) -> Option<(Seq<u8>, u8)> {
    program_address(seq![AUDIT_SEED@, commitment], PROGRAM_ID@)
}

/// Derives the address of the pool state.
pub fn find_pool_state_address() -> (found: Option<([u8; 32], u8)>)
    ensures
        derived_view(found) == pool_state_address(),
{
    let seeds: [&[u8]; 1] = [POOL_STATE_SEED.as_slice()];
    let found = find_program_address(seeds.as_slice(), &PROGRAM_ID);
    assert(seeds_view(seeds@) =~= seq![POOL_STATE_SEED@]);
    found
}

/// Derives the address of the vault.
pub fn find_vault_address() -> (found: Option<([u8; 32], u8)>)
    ensures
        derived_view(found) == vault_address(),
{
    let seeds: [&[u8]; 1] = [VAULT_SEED.as_slice()];
    let found = find_program_address(seeds.as_slice(), &PROGRAM_ID);
    assert(seeds_view(seeds@) =~= seq![VAULT_SEED@]);
    found
}

/// Derives the address of the marker of `nullifier`.
pub fn find_nullifier_address(nullifier: &[u8; 32]) -> (found: Option<([u8; 32], u8)>)
    ensures
        derived_view(found) == nullifier_address(nullifier@),
{
    let seeds: [&[u8]; 2] = [NULLIFIER_SEED.as_slice(), nullifier.as_slice()];
    let found = find_program_address(seeds.as_slice(), &PROGRAM_ID);
    assert(seeds_view(seeds@) =~= seq![NULLIFIER_SEED@, nullifier@]);
    found
}

/// Derives the address of the audit record of `commitment`.
pub fn find_audit_address(commitment: &[u8; 32]) -> (found: Option<([u8; 32], u8)>)
    ensures
        derived_view(found) == audit_address(commitment@),
{
    let seeds: [&[u8]; 2] = [AUDIT_SEED.as_slice(), commitment.as_slice()];
    let found = find_program_address(seeds.as_slice(), &PROGRAM_ID);
    assert(seeds_view(seeds@) =~= seq![AUDIT_SEED@, commitment@]);
    found
}

} // verus!
