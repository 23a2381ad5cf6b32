//! What holds of the pool across operations.

use vstd::prelude::*;
use crate::account::{AccountMeta, AccountState};
use crate::address::{
    address_part, audit_address, nullifier_address, pool_state_address, vault_address,
    PROGRAM_ID,
};
use crate::audit::{is_audited_spec, lemma_audit_round_trip, AuditModel, AUDIT_RECORD_LEN};
use crate::deposit::{deposit_fields, deposit_spec};
use crate::entry::instruction_spec;
use crate::errors::PoolError;
use crate::host::Host;
use crate::initialize::initialize_spec;
use crate::layout::{amount_of, input_field, recipient_encoding};
use crate::ledger::{present, present_all, zeroed};
use crate::nullifier::is_spent_spec;
use crate::rent::{lemma_minimum_balance_fits, RentRate, MAX_LAMPORTS_PER_BYTE};
use crate::state::{
    lemma_parsed_state_is_shaped, lemma_state_round_trip, parse_state, serialize_state, PoolModel,
    POOL_STATE_LEN, POOL_STATE_TAG,
};
use crate::submit_audit::submit_audit_spec;
use crate::withdraw::{audit_link_spec, framing_spec, release_spec, withdraw_spec, Variant};

verus! {

/// The last `count` items of `items`, or all of them where there are fewer.
pub open spec fn latest(items: Seq<Seq<u8>>, count: int) -> Seq<Seq<u8>> {
    if items.len() <= count {
        items
    } else {
        items.subrange(items.len() - count, items.len() as int)
    }
}

/// Appending keeps the shape, leaves the write position at a slot and
/// makes the current root the slot written last.
pub proof fn law_append_keeps_the_invariant(state: PoolModel, root: Seq<u8>)
    requires
        state.shaped(),
        root.len() == 32,
    ensures
        state.append(root).wf(),
{
    let after = state.append(root);
    assert(after.slots[(after.next() + 31) % 32] == root);
}

/// A root is in the ring exactly if it is among the roots in written
/// order.
pub proof fn lemma_contains_in_order(state: PoolModel, candidate: Seq<u8>)
    requires
        state.slots.len() == 32,
    ensures
        state.contains(candidate) <==> state.in_order().contains(candidate),
{
    let n = state.next();
    if state.contains(candidate) {
        let i = choose|i: int| 0 <= i < 32 && #[trigger] state.slots[i] == candidate;
        let k = (i - n + 32) % 32;
        assert((n + k) % 32 == i);
        assert(state.in_order()[k] == candidate);
    }
    if state.in_order().contains(candidate) {
        let k = choose|k: int| 0 <= k < 32 && state.in_order()[k] == candidate;
        assert(state.slots[(n + k) % 32] == candidate);
    }
}

/// Appending drops the oldest root and puts the new one last.
pub proof fn lemma_append_in_order(state: PoolModel, root: Seq<u8>)
    requires
        state.slots.len() == 32,
    ensures
        state.append(root).slots.len() == 32,
        state.append(root).in_order() == state.in_order().drop_first().push(root),
{
    let after = state.append(root);
    let n = state.next();
    assert(after.next() == (n + 1) % 32);
    assert forall|k: int| 0 <= k < 32 implies after.in_order()[k]
        == state.in_order().drop_first().push(root)[k] by {
        if k < 31 {
            assert((after.next() + k) % 32 == (n + (k + 1)) % 32);
            assert((n + (k + 1)) % 32 != n);
        } else {
            assert((after.next() + k) % 32 == n);
        }
    }
    assert(after.in_order() =~= state.in_order().drop_first().push(root));
}

/// After any number of appends the ring holds, in written order, the last
/// thirty-two of what it held before followed by what was appended.
pub proof fn lemma_append_all_in_order(state: PoolModel, roots: Seq<Seq<u8>>)
    requires
        state.slots.len() == 32,
    ensures
        state.append_all(roots).slots.len() == 32,
        state.append_all(roots).in_order() == latest(state.in_order() + roots, 32),
    decreases roots.len(),
{
    if roots.len() == 0 {
        assert(state.in_order() + roots =~= state.in_order());
    } else {
        let before = state.append_all(roots.drop_last());
        lemma_append_all_in_order(state, roots.drop_last());
        lemma_append_in_order(before, roots.last());
        let all = state.in_order() + roots;
        let shorter = state.in_order() + roots.drop_last();
        assert(shorter =~= all.drop_last());
        assert(latest(shorter, 32).drop_first().push(roots.last()) =~= latest(all, 32));
    }
}

/// The root ring buffer keeps what was appended last: after any number of
/// appends, each of the thirty-two roots appended last is a member. In
/// particular, after no more than thirty-two appends every appended root
/// is a member.
pub proof fn law_recent_roots_are_members(state: PoolModel, roots: Seq<Seq<u8>>, i: int)
    requires
        state.slots.len() == 32,
        0 <= i < roots.len(),
        roots.len() - 32 <= i,
    ensures
        state.append_all(roots).contains(roots[i]),
{
    lemma_append_all_in_order(state, roots);
    let after = state.append_all(roots);
    let all = state.in_order() + roots;
    let k = i + 32 - roots.len();
    assert(latest(all, 32)[k] == roots[i]);
    assert(after.in_order()[k] == roots[i]);
    lemma_contains_in_order(after, roots[i]);
}

/// Once thirty-two roots or more were appended, membership holds only for
/// the thirty-two appended last.
pub proof fn law_members_are_recent_roots(
    state: PoolModel,
    roots: Seq<Seq<u8>>,
    candidate: Seq<u8>,
)
    requires
        state.slots.len() == 32,
        roots.len() >= 32,
    ensures
        state.append_all(roots).contains(candidate) <==> exists|i: int|
            roots.len() - 32 <= i < roots.len() && roots[i] == candidate,
{
    lemma_append_all_in_order(state, roots);
    let after = state.append_all(roots);
    let all = state.in_order() + roots;
    lemma_contains_in_order(after, candidate);
    if after.in_order().contains(candidate) {
        let k = choose|k: int| 0 <= k < 32 && after.in_order()[k] == candidate;
        assert(latest(all, 32)[k] == roots[k + roots.len() - 32]);
    }
    if exists|i: int| roots.len() - 32 <= i < roots.len() && roots[i] == candidate {
        let i = choose|i: int| roots.len() - 32 <= i < roots.len() && roots[i] == candidate;
        law_recent_roots_are_members(state, roots, i);
    }
}

/// A root that was followed by thirty-two appends or more, none of them of
/// the same root, is no longer found.
pub proof fn law_old_roots_are_evicted(state: PoolModel, roots: Seq<Seq<u8>>, j: int)
    requires
        state.slots.len() == 32,
        0 <= j < roots.len() - 32,
        forall|i: int| roots.len() - 32 <= i < roots.len() ==> roots[i] != roots[j],
    ensures
        !state.append_all(roots).contains(roots[j]),
{
    law_members_are_recent_roots(state, roots, roots[j]);
}

/// A deposit that succeeds appends its root to the history that the state
/// account stores and changes nothing else of the state, so the root is a
/// member afterwards.
pub proof fn law_deposit_appends_the_root(
    ledger: Map<Seq<u8>, AccountState>,
    metas: Seq<AccountMeta>,
    data: Seq<u8>,
)
    requires
        deposit_spec(ledger, metas, data) is Ok,
    ensures
        ({
            let after = deposit_spec(ledger, metas, data)->Ok_0;
            let state = metas[1].address@;
            let new_root = deposit_fields(data).new_root;
            &&& parse_state(after[state].data) == parse_state(ledger[state].data).append(new_root)
            &&& parse_state(after[state].data).contains(new_root)
            &&& parse_state(after[state].data).wf()
            &&& after[state].data.len() == ledger[state].data.len()
        }),
{
    let state = metas[1].address@;
    let new_root = deposit_fields(data).new_root;
    let stored = ledger[state].data;
    let before = parse_state(stored);
    lemma_parsed_state_is_shaped(stored);
    law_append_keeps_the_invariant(before, new_root);
    lemma_state_round_trip(before.append(new_root), stored.subrange(POOL_STATE_LEN as int, stored.len() as int));
    assert(before.append(new_root).slots[before.next()] == new_root);
}

/// An initialisation that succeeds leaves an initialised pool state, and
/// one that finds no state leaves a fresh one.
pub proof fn law_initialize_leaves_a_state(
    ledger: Map<Seq<u8>, AccountState>,
    metas: Seq<AccountMeta>,
    host: Host,
)
    requires
        initialize_spec(ledger, metas, host) is Ok,
    ensures
        ({
            let after = initialize_spec(ledger, metas, host)->Ok_0;
            let state = metas[1].address@;
            &&& after[state].data.len() >= POOL_STATE_LEN
            &&& parse_state(after[state].data).is_initialized()
            &&& !(ledger[state].data.len() >= POOL_STATE_LEN && parse_state(
                ledger[state].data,
            ).is_initialized()) ==> parse_state(after[state].data) == PoolModel::fresh()
        }),
{
    let after = initialize_spec(ledger, metas, host)->Ok_0;
    let state = metas[1].address@;
    lemma_state_round_trip(PoolModel::fresh(), Seq::empty());
    assert forall|tail: Seq<u8>| parse_state(serialize_state(PoolModel::fresh()) + tail)
        == PoolModel::fresh() by {
        lemma_state_round_trip(PoolModel::fresh(), tail);
    }
    assert(zeroed(POOL_STATE_LEN as nat).subrange(0, 8) != POOL_STATE_TAG@) by {
        assert(zeroed(POOL_STATE_LEN as nat).subrange(0, 8)[0] == 0);
        assert(POOL_STATE_TAG@[0] == 83);
    }
}

/// The checks that a withdrawal makes before it looks at the nullifier all
/// pass: the accounts and the payload are well framed, the root is in the
/// history and, in the gated form, the audit is on record.
pub open spec fn reaches_nullifier_check(
    ledger: Map<Seq<u8>, AccountState>,
    metas: Seq<AccountMeta>,
    data: Seq<u8>,
    variant: Variant,
) -> bool {
    let accounts = present_all(ledger, metas);
    &&& framing_spec(accounts, data, variant) is None
    &&& parse_state(accounts[3].state.data).contains(input_field(data, 0))
    &&& variant == Variant::AuditGated ==> audit_link_spec(accounts[6], input_field(data, 4)) is Ok
}

/// Nullifier uniqueness, on one store: while a nullifier is spent, every
/// withdrawal that uses it is refused, whatever its proof and its other
/// fields; and it is refused as a replay wherever it passes the checks
/// that come before and presents the marker.
pub proof fn law_spent_nullifier_is_refused(
    ledger: Map<Seq<u8>, AccountState>,
    metas: Seq<AccountMeta>,
    data: Seq<u8>,
    variant: Variant,
    host: Host,
)
    requires
        is_spent_spec(ledger, input_field(data, 1)),
    ensures
        withdraw_spec(ledger, metas, data, variant, host) is Err,
        reaches_nullifier_check(ledger, metas, data, variant) && metas[4].address@
            == address_part(nullifier_address(input_field(data, 1))) ==> withdraw_spec(
            ledger,
            metas,
            data,
            variant,
            host,
        ) == Err::<Map<Seq<u8>, AccountState>, PoolError>(PoolError::AccountAlreadyInitialized),
{
}

/// A withdrawal that succeeds spends its nullifier, where storage has a
/// price.
pub proof fn law_withdrawal_spends_the_nullifier(
    ledger: Map<Seq<u8>, AccountState>,
    metas: Seq<AccountMeta>,
    data: Seq<u8>,
    variant: Variant,
    host: Host,
)
    requires
        withdraw_spec(ledger, metas, data, variant, host) is Ok,
        host.rent.lamports_per_byte > 0,
    ensures
        !is_spent_spec(ledger, input_field(data, 1)),
        is_spent_spec(
            withdraw_spec(ledger, metas, data, variant, host)->Ok_0,
            input_field(data, 1),
        ),
{
    lemma_minimum_balance_fits(host.rent.lamports_per_byte, 0);
}

/// Nullifier uniqueness, across two operations: after a withdrawal has
/// succeeded, a second one that uses its nullifier is refused, whatever its
/// proof, its accounts and its other fields; it is refused as a replay
/// wherever it passes the checks that come before and presents the marker.
pub proof fn law_no_double_spend(
    ledger: Map<Seq<u8>, AccountState>,
    metas: Seq<AccountMeta>,
    data: Seq<u8>,
    variant: Variant,
    host: Host,
    second_metas: Seq<AccountMeta>,
    second_data: Seq<u8>,
    second_variant: Variant,
    second_host: Host,
)
    requires
        withdraw_spec(ledger, metas, data, variant, host) is Ok,
        host.rent.lamports_per_byte > 0,
        input_field(second_data, 1) == input_field(data, 1),
    ensures
        ({
            let after = withdraw_spec(ledger, metas, data, variant, host)->Ok_0;
            let second = withdraw_spec(
                after,
                second_metas,
                second_data,
                second_variant,
                second_host,
            );
            &&& second is Err
            &&& reaches_nullifier_check(after, second_metas, second_data, second_variant)
                && second_metas[4].address@ == address_part(
                nullifier_address(input_field(data, 1)),
            ) ==> second == Err::<Map<Seq<u8>, AccountState>, PoolError>(
                PoolError::AccountAlreadyInitialized,
            )
        }),
{
    law_withdrawal_spends_the_nullifier(ledger, metas, data, variant, host);
    let after = withdraw_spec(ledger, metas, data, variant, host)->Ok_0;
    law_spent_nullifier_is_refused(after, second_metas, second_data, second_variant, second_host);
}

/// A spent nullifier stays spent: no operation that succeeds unfunds the
/// marker of a nullifier, as long as the marker is neither the payer of
/// the operation nor the vault.
pub proof fn law_spent_stays_spent(
    ledger: Map<Seq<u8>, AccountState>,
    metas: Seq<AccountMeta>,
    instruction_data: Seq<u8>,
    variant: Variant,
    host: Host,
    nullifier: Seq<u8>,
)
    requires
        instruction_spec(ledger, metas, instruction_data, variant, host) is Ok,
        is_spent_spec(ledger, nullifier),
        address_part(nullifier_address(nullifier)) != metas[0].address@,
        address_part(nullifier_address(nullifier)) != address_part(vault_address()),
    ensures
        is_spent_spec(
            instruction_spec(ledger, metas, instruction_data, variant, host)->Ok_0,
            nullifier,
        ),
{
}

/// Recipient binding: a withdrawal whose recipient field is not the
/// encoding of the address of the destination account is refused, whatever
/// its proof; where every check before that one passes, it is refused as
/// invalid account data.
pub proof fn law_recipient_is_bound(
    ledger: Map<Seq<u8>, AccountState>,
    metas: Seq<AccountMeta>,
    data: Seq<u8>,
    variant: Variant,
    host: Host,
)
    requires
        input_field(data, 2) != recipient_encoding(metas[1].address@),
    ensures
        withdraw_spec(ledger, metas, data, variant, host) is Err,
        reaches_nullifier_check(ledger, metas, data, variant) && nullifier_address(
            input_field(data, 1),
        ) is Some && metas[4].address@ == address_part(nullifier_address(input_field(data, 1)))
            && ledger[metas[4].address@].lamports == 0 ==> withdraw_spec(
            ledger,
            metas,
            data,
            variant,
            host,
        ) == Err::<Map<Seq<u8>, AccountState>, PoolError>(PoolError::InvalidAccountData),
{
}

/// The audit linkage of a gated withdrawal holds exactly if the record
/// account presented is the one derived from the commitment and the audit
/// of the commitment is on record.
pub proof fn law_link_is_audit_on_record(
    ledger: Map<Seq<u8>, AccountState>,
    record: AccountMeta,
    commitment: Seq<u8>,
)
    ensures
        audit_link_spec(present(ledger, record), commitment) is Ok <==> is_audited_spec(
            ledger,
            commitment,
        ) && record.address@ == address_part(audit_address(commitment)),
{
}

/// Audit gating, before the audit: a gated withdrawal that refers to a
/// commitment whose audit is not on record is refused, whatever its proof;
/// where no account exists for the commitment, and the withdrawal passes
/// the checks that come before and presents the derived record account,
/// it is refused because the audit is required.
pub proof fn law_unaudited_withdrawal_is_refused(
    ledger: Map<Seq<u8>, AccountState>,
    metas: Seq<AccountMeta>,
    data: Seq<u8>,
    host: Host,
)
    requires
        !is_audited_spec(ledger, input_field(data, 4)),
    ensures
        withdraw_spec(ledger, metas, data, Variant::AuditGated, host) is Err,
        ({
            let accounts = present_all(ledger, metas);
            framing_spec(accounts, data, Variant::AuditGated) is None && parse_state(
                accounts[3].state.data,
            ).contains(input_field(data, 0)) && audit_address(input_field(data, 4)) is Some
                && metas[6].address@ == address_part(audit_address(input_field(data, 4)))
                && ledger[metas[6].address@].lamports == 0 ==> withdraw_spec(
                ledger,
                metas,
                data,
                Variant::AuditGated,
                host,
            ) == Err::<Map<Seq<u8>, AccountState>, PoolError>(PoolError::AuditRequired)
        }),
{
}

/// Audit gating, after the audit: once a submission for a commitment has
/// created its record, where storage has a price, the audit of the
/// commitment is on record, and the audit linkage of a gated withdrawal
/// that refers to the commitment and presents the record account holds.
pub proof fn law_audited_commitment_is_linked(
    ledger: Map<Seq<u8>, AccountState>,
    metas: Seq<AccountMeta>,
    data: Seq<u8>,
    host: Host,
    record: AccountMeta,
)
    requires
        submit_audit_spec(ledger, metas, data, host) is Ok,
        ledger[metas[1].address@].lamports == 0,
        host.rent.lamports_per_byte > 0,
        record.address@ == metas[1].address@,
    ensures
        is_audited_spec(submit_audit_spec(ledger, metas, data, host)->Ok_0, input_field(data, 0)),
        audit_link_spec(
            present(submit_audit_spec(ledger, metas, data, host)->Ok_0, record),
            input_field(data, 0),
        ) == Ok::<(), PoolError>(()),
{
    let commitment = input_field(data, 0);
    lemma_minimum_balance_fits(host.rent.lamports_per_byte, AUDIT_RECORD_LEN as nat);
    lemma_audit_round_trip(AuditModel::of(commitment));
}

/// After the audit of a commitment is on record, no gated withdrawal that
/// refers to the commitment and presents its record account is refused
/// for want of the audit.
pub proof fn law_audited_withdrawal_is_not_held_back(
    ledger: Map<Seq<u8>, AccountState>,
    metas: Seq<AccountMeta>,
    data: Seq<u8>,
    host: Host,
)
    requires
        is_audited_spec(ledger, input_field(data, 4)),
        metas.len() == 8 ==> metas[6].address@ == address_part(
            audit_address(input_field(data, 4)),
        ),
    ensures
        withdraw_spec(ledger, metas, data, Variant::AuditGated, host) != Err::<
            Map<Seq<u8>, AccountState>,
            PoolError,
        >(PoolError::AuditRequired),
{
}

/// An audit on record stays on record: no operation that succeeds removes
/// or rewrites the record of a commitment, as long as the record is none
/// of the payer of the operation, the vault and the pool state.
pub proof fn law_audit_stays_on_record(
    ledger: Map<Seq<u8>, AccountState>,
    metas: Seq<AccountMeta>,
    instruction_data: Seq<u8>,
    variant: Variant,
    host: Host,
    commitment: Seq<u8>,
)
    requires
        instruction_spec(ledger, metas, instruction_data, variant, host) is Ok,
        is_audited_spec(ledger, commitment),
        address_part(audit_address(commitment)) != metas[0].address@,
        address_part(audit_address(commitment)) != address_part(vault_address()),
        address_part(audit_address(commitment)) != address_part(pool_state_address()),
    ensures
        is_audited_spec(
            instruction_spec(ledger, metas, instruction_data, variant, host)->Ok_0,
            commitment,
        ),
{
}

/// Idempotent audit submission: after a submission has succeeded, where
/// storage has a price, the same submission succeeds again, whatever the
/// verifier would say, and leaves the store exactly as it was.
pub proof fn law_audit_submission_is_idempotent(
    ledger: Map<Seq<u8>, AccountState>,
    metas: Seq<AccountMeta>,
    data: Seq<u8>,
    host: Host,
    second_host: Host,
)
    requires
        submit_audit_spec(ledger, metas, data, host) is Ok,
        host.rent.lamports_per_byte > 0,
    ensures
        submit_audit_spec(
            submit_audit_spec(ledger, metas, data, host)->Ok_0,
            metas,
            data,
            second_host,
        ) == submit_audit_spec(ledger, metas, data, host),
{
    let commitment = input_field(data, 0);
    if host.rent.lamports_per_byte <= MAX_LAMPORTS_PER_BYTE {
        lemma_minimum_balance_fits(host.rent.lamports_per_byte, AUDIT_RECORD_LEN as nat);
    }
    if commitment.len() == 32 {
        lemma_audit_round_trip(AuditModel::of(commitment));
    }
}

/// Vault floor, at the payment: an amount above what the vault holds over
/// its minimum viable balance is not paid, even where the vault holds
/// more than the amount; the derived vault of the pool refuses it for
/// insufficient funds.
pub proof fn law_release_keeps_the_floor(
    ledger: Map<Seq<u8>, AccountState>,
    vault: AccountMeta,
    recipient: AccountMeta,
    amount: u64,
    rent: RentRate,
)
    requires
        rent.floor(ledger[vault.address@].data.len()) is Some,
        amount + rent.floor(ledger[vault.address@].data.len())->0 > ledger[vault.address@].lamports,
    ensures
        release_spec(ledger, vault, recipient, amount, rent) is Err,
        vault_address() is Some && vault.address@ == address_part(vault_address())
            && ledger[vault.address@].owner == PROGRAM_ID@ ==> release_spec(
            ledger,
            vault,
            recipient,
            amount,
            rent,
        ) == Err::<Map<Seq<u8>, AccountState>, PoolError>(PoolError::InsufficientFunds),
{
}

/// Vault floor, for a whole withdrawal: a request for more than the vault
/// holds over its minimum viable balance is refused, even where the vault
/// holds more than the amount, whatever the proof. The marker presented
/// must not be the vault itself.
pub proof fn law_withdrawal_keeps_the_floor(
    ledger: Map<Seq<u8>, AccountState>,
    metas: Seq<AccountMeta>,
    data: Seq<u8>,
    variant: Variant,
    host: Host,
)
    requires
        metas[4].address@ != metas[2].address@,
        host.rent.floor(ledger[metas[2].address@].data.len()) is Some,
        amount_of(input_field(data, 3)) + host.rent.floor(
            ledger[metas[2].address@].data.len(),
        )->0 > ledger[metas[2].address@].lamports,
    ensures
        withdraw_spec(ledger, metas, data, variant, host) is Err,
{
}

/// Whenever a withdrawal succeeds, the vault is left at or above its
/// minimum viable balance.
pub proof fn law_vault_stays_viable(
    ledger: Map<Seq<u8>, AccountState>,
    metas: Seq<AccountMeta>,
    data: Seq<u8>,
    variant: Variant,
    host: Host,
)
    requires
        withdraw_spec(ledger, metas, data, variant, host) is Ok,
    ensures
        ({
            let after = withdraw_spec(ledger, metas, data, variant, host)->Ok_0;
            let vault = metas[2].address@;
            &&& host.rent.floor(after[vault].data.len()) is Some
            &&& after[vault].lamports >= host.rent.floor(after[vault].data.len())->0
        }),
{
}

} // verus!
