//! The audit ledger: one record per commitment whose audit proof was
//! accepted, and its fixed byte layout.

use vstd::prelude::*;
use crate::account::{AccountMeta, AccountState};
use crate::address::{
    audit_address, derived_view, find_audit_address, Derived, DerivedView, PROGRAM_ID,
};
use crate::ledger::Ledger;
use crate::words::{read_word, word_eq};

verus! {

/// The length in bytes of a stored audit record: tag and commitment.
pub const AUDIT_RECORD_LEN: usize = 40;

/// The tag of a written audit record.
pub const AUDIT_RECORD_TAG: [u8; 8] = [65, 85, 68, 73, 84, 82, 69, 67];

/// The mathematical content of an audit record.
pub struct AuditModel {
    pub discriminator: Seq<u8>,
    pub commitment: Seq<u8>,
}

impl AuditModel {
    /// Whether the record carries the tag.
    pub open spec fn is_initialized(self) -> bool {
        self.discriminator == AUDIT_RECORD_TAG@
    }

    /// Whether the record is written and is the record of `commitment`.
    pub open spec fn attests(self, commitment: Seq<u8>) -> bool {
        self.is_initialized() && self.commitment == commitment
    }

    /// The written record of `commitment`.
    pub open spec fn of(commitment: Seq<u8>) -> AuditModel {
        AuditModel { discriminator: AUDIT_RECORD_TAG@, commitment }
    }
}

/// The stored form of a record.
pub open spec fn serialize_audit(record: AuditModel) -> Seq<u8> {
    record.discriminator + record.commitment
}

/// The record that the first `AUDIT_RECORD_LEN` bytes of `bytes` store.
pub open spec fn parse_audit(bytes: Seq<u8>) -> AuditModel {
    AuditModel { discriminator: bytes.subrange(0, 8), commitment: bytes.subrange(8, 40) }
}

/// Whether account data of this content holds the written record of
/// `commitment`.
pub open spec fn data_attests(data: Seq<u8>, commitment: Seq<u8>) -> bool {
    data.len() >= AUDIT_RECORD_LEN && parse_audit(data).attests(commitment)
}

/// Whether the audit of `commitment` is on record, given where its record
/// lives: a funded account of the pool exists there and holds the written
/// record of the commitment.
pub open spec fn is_audited_at_spec(
    ledger: Map<Seq<u8>, AccountState>,
    commitment: Seq<u8>,
    place: DerivedView,
) -> bool {
    match place {
        Some((address, _)) => {
            &&& ledger[address].lamports > 0
            &&& ledger[address].owner == PROGRAM_ID@
            &&& data_attests(ledger[address].data, commitment)
        },
        None => false,
    }
}

/// Whether the audit of `commitment` is on record: its record lives at the
/// address derived from the commitment.
pub open spec fn is_audited_spec(ledger: Map<Seq<u8>, AccountState>, commitment: Seq<u8>) -> bool {
    is_audited_at_spec(ledger, commitment, audit_address(commitment))
}

/// A stored record reads back as it was written.
pub proof fn lemma_audit_round_trip(record: AuditModel)
    requires
        record.discriminator.len() == 8,
        record.commitment.len() == 32,
    ensures
        serialize_audit(record).len() == AUDIT_RECORD_LEN,
        parse_audit(serialize_audit(record)) == record,
{
    let bytes = serialize_audit(record);
    assert(bytes.subrange(0, 8) =~= record.discriminator);
    assert(bytes.subrange(8, 40) =~= record.commitment);
}

/// A completed audit.
#[derive(Clone, Copy, Debug, PartialEq, Eq)]
pub struct AuditRecord {
    pub discriminator: [u8; 8],
    pub wa_commitment: [u8; 32],
}

impl View for AuditRecord {
    type V = AuditModel;

    open spec fn view(&self) -> AuditModel {
        AuditModel { discriminator: self.discriminator@, commitment: self.wa_commitment@ }
    }
}

impl AuditRecord {
    /// The written record of `wa_commitment`.
    pub fn new(wa_commitment: [u8; 32]) -> (record: AuditRecord)
        ensures
            record@ == AuditModel::of(wa_commitment@),
    {
        AuditRecord { discriminator: AUDIT_RECORD_TAG, wa_commitment }
    }

    /// Whether the record carries the tag of a written record.
    pub fn is_initialized(&self) -> (tagged: bool)
        ensures
            tagged == self@.is_initialized(),
    {
        let mut i: usize = 0;
        while i < 8
            invariant
                i <= 8,
                forall|k: int| 0 <= k < i ==> self.discriminator[k] == AUDIT_RECORD_TAG[k],
            decreases 8 - i,
        {
            if self.discriminator[i] != AUDIT_RECORD_TAG[i] {
                return false;
            }
            i += 1;
        }
        assert(self.discriminator@ =~= AUDIT_RECORD_TAG@);
        true
    }

    /// Whether the record is written and is the record of `commitment`.
    pub fn attests(&self, commitment: &[u8; 32]) -> (yes: bool)
        ensures
            yes == self@.attests(commitment@),
    {
        self.is_initialized() && word_eq(&self.wa_commitment, commitment)
    }

    /// Reads a record from the first `AUDIT_RECORD_LEN` bytes of `data`;
    /// none where `data` is shorter. No content is refused.
    pub fn decode(data: &[u8]) -> (record: Option<AuditRecord>)
        ensures
            record is Some <==> data@.len() >= AUDIT_RECORD_LEN,
            record matches Some(r) ==> r@ == parse_audit(data@),
    {
        if data.len() < AUDIT_RECORD_LEN {
            return None;
        }
        let mut discriminator = [0u8; 8];
        let mut i: usize = 0;
        while i < 8
            invariant
                i <= 8,
                data.len() >= AUDIT_RECORD_LEN,
                forall|k: int| 0 <= k < i ==> discriminator[k] == data@[k],
            decreases 8 - i,
        {
            discriminator[i] = data[i];
            i += 1;
        }
        let wa_commitment = read_word(data, 8);
        let record = AuditRecord { discriminator, wa_commitment };
        assert(record@.discriminator =~= parse_audit(data@).discriminator);
        Some(record)
    }

    /// The stored form of the record, `AUDIT_RECORD_LEN` bytes.
    pub fn encode(&self) -> (bytes: Vec<u8>)
        ensures
            bytes@ == serialize_audit(self@),
            bytes@.len() == AUDIT_RECORD_LEN,
    {
        let mut bytes: Vec<u8> = Vec::new();
        let mut i: usize = 0;
        while i < 8
            invariant
                i <= 8,
                bytes@ == self.discriminator@.subrange(0, i as int),
            decreases 8 - i,
        {
            bytes.push(self.discriminator[i]);
            i += 1;
            assert(bytes@ =~= self.discriminator@.subrange(0, i as int));
        }
        assert(bytes@ =~= self.discriminator@);
        let mut c: usize = 0;
        while c < 32
            invariant
                c <= 32,
                bytes@ == self.discriminator@ + self.wa_commitment@.subrange(0, c as int),
            decreases 32 - c,
        {
            bytes.push(self.wa_commitment[c]);
            c += 1;
            assert(bytes@ =~= self.discriminator@ + self.wa_commitment@.subrange(0, c as int));
        }
        assert(bytes@ =~= serialize_audit(self@));
        bytes
    }
}

/// Whether the audit of `commitment` is on record at `place`.
pub fn is_audited_at(ledger: &Ledger, commitment: &[u8; 32], place: Derived) -> (audited: bool)
    ensures
        audited == is_audited_at_spec(ledger@, commitment@, derived_view(place)),
{
    let address = match place {
        Some((address, _)) => address,
        None => {
            return false;
        },
    };
    let held = ledger.account(&AccountMeta { address, is_signer: false, is_writable: false });
    if held.lamports == 0 || !word_eq(&held.owner, &PROGRAM_ID) {
        return false;
    }
    match AuditRecord::decode(held.data.as_slice()) {
        Some(stored) => stored.attests(commitment),
        None => false,
    }
}

/// Whether the audit of `commitment` is on record.
pub fn is_audited(ledger: &Ledger, commitment: &[u8; 32]) -> (audited: bool)
    ensures
        audited == is_audited_spec(ledger@, commitment@),
{
    is_audited_at(ledger, commitment, find_audit_address(commitment))
}

} // verus!
