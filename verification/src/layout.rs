//! The binary layouts of the parameter buffers and of the public inputs.

use vstd::prelude::*;
use crate::words::read_word;

verus! {

/// The length of a proof.
pub const PROOF_LEN: usize = 388;

/// The length of the header that precedes the public inputs of a witness.
pub const WITNESS_HEADER_LEN: usize = 12;

/// Where the public inputs begin in a proof followed by its witness.
pub const INPUTS_START: usize = 400;

/// The length of a deposit's parameters: amount, commitment, new root.
pub const DEPOSIT_LEN: usize = 72;

/// The length of an audit submission: proof, header and two public inputs.
pub const SUBMIT_AUDIT_LEN: usize = 464;

/// The length of a payload with `inputs` public inputs: proof, header and
/// the inputs.
pub open spec fn payload_len(inputs: nat) -> nat {
    PROOF_LEN as nat + WITNESS_HEADER_LEN as nat + 32 * inputs
}

/// Public input number `k` of `payload`.
pub open spec fn input_field(payload: Seq<u8>, k: int) -> Seq<u8> {
    payload.subrange(INPUTS_START + 32 * k, INPUTS_START + 32 * k + 32)
}

/// The value of eight bytes, highest first.
pub open spec fn be_u64(bytes: Seq<u8>) -> u64 {
    (bytes[0] * 0x100_0000_0000_0000 + bytes[1] * 0x1_0000_0000_0000 + bytes[2] * 0x100_0000_0000
        + bytes[3] * 0x1_0000_0000 + bytes[4] * 0x100_0000 + bytes[5] * 0x1_0000 + bytes[6] * 0x100
        + bytes[7]) as u64
}

/// The value of eight bytes, lowest first.
pub open spec fn le_u64(bytes: Seq<u8>) -> u64 {
    (bytes[7] * 0x100_0000_0000_0000 + bytes[6] * 0x1_0000_0000_0000 + bytes[5] * 0x100_0000_0000
        + bytes[4] * 0x1_0000_0000 + bytes[3] * 0x100_0000 + bytes[2] * 0x1_0000 + bytes[1] * 0x100
        + bytes[0]) as u64
}

/// The quantity that an amount field stands for: its low eight bytes, read
/// highest first. The twenty-four bytes before them are not looked at.
pub open spec fn amount_of(field: Seq<u8>) -> u64 {
    be_u64(field.subrange(24, 32))
}

/// The form in which a proof binds a destination: two zero bytes, then the
/// first thirty bytes of the address. The last two bytes of the address are
/// not bound.
pub open spec fn recipient_encoding(address: Seq<u8>) -> Seq<u8> {
    seq![0u8, 0u8] + address.subrange(0, 30)
}

/// Decodes the quantity of an amount field.
pub fn decode_amount(field: &[u8; 32]) -> (amount: u64)
    ensures
        amount == amount_of(field@),
{
    let high: u64 = (field[24] as u64) * 0x100_0000 + (field[25] as u64) * 0x1_0000
        + (field[26] as u64) * 0x100 + (field[27] as u64);
    let low: u64 = (field[28] as u64) * 0x100_0000 + (field[29] as u64) * 0x1_0000
        + (field[30] as u64) * 0x100 + (field[31] as u64);
    high * 0x1_0000_0000 + low
}

/// Reads eight bytes of `data` from `offset` on, lowest first.
pub fn read_le_u64(data: &[u8], offset: usize) -> (value: u64)
    requires
        offset + 8 <= data.len(),
    ensures
        value == le_u64(data@.subrange(offset as int, offset + 8)),
{
    let high: u64 = (data[offset + 7] as u64) * 0x100_0000 + (data[offset + 6] as u64) * 0x1_0000
        + (data[offset + 5] as u64) * 0x100 + (data[offset + 4] as u64);
    let low: u64 = (data[offset + 3] as u64) * 0x100_0000 + (data[offset + 2] as u64) * 0x1_0000
        + (data[offset + 1] as u64) * 0x100 + (data[offset] as u64);
    high * 0x1_0000_0000 + low
}

/// Encodes the address of a destination as a proof binds it.
pub fn encode_recipient(address: &[u8; 32]) -> (field: [u8; 32])
    ensures
        field@ == recipient_encoding(address@),
{
    let mut field = [0u8; 32];
    let mut i: usize = 2;
    while i < 32
        invariant
            2 <= i <= 32,
            field[0] == 0,
            field[1] == 0,
            forall|k: int| 2 <= k < i ==> field[k] == address[k - 2],
        decreases 32 - i,
    {
        field[i] = address[i - 2];
        i += 1;
    }
    assert(field@ =~= recipient_encoding(address@));
    field
}

/// Reads public input number `k` of a payload.
pub fn read_input(payload: &[u8], k: usize) -> (field: [u8; 32])
    requires
        INPUTS_START + 32 * k + 32 <= payload.len(),
    ensures
        field@ == input_field(payload@, k as int),
{
    read_word(payload, INPUTS_START + 32 * k)
}

} // verus!
