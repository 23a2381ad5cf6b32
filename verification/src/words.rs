//! Fixed-width byte words: comparison, integer decoding and joining.

use vstd::prelude::*;

verus! {

/// Whether two words hold the same bytes.
pub fn word_eq(a: &[u8; 32], b: &[u8; 32]) -> (same: bool)
    ensures
        same == (a@ == b@),
{
    let mut i: usize = 0;
    while i < 32
        invariant
            i <= 32,
            forall|k: int| 0 <= k < i ==> a[k] == b[k],
        decreases 32 - i,
    {
        if a[i] != b[i] {
            return false;
        }
        i += 1;
    }
    assert(a@ =~= b@);
    true
}

/// The word that `data` holds from `offset` on.
pub fn read_word(data: &[u8], offset: usize) -> (word: [u8; 32])
    requires
        offset + 32 <= data.len(),
    ensures
        word@ == data@.subrange(offset as int, offset + 32),
{
    let mut word = [0u8; 32];
    let mut i: usize = 0;
    while i < 32
        invariant
            i <= 32,
            offset + 32 <= data.len(),
            forall|k: int| 0 <= k < i ==> word[k] == data@[offset + k],
        decreases 32 - i,
    {
        word[i] = data[offset + i];
        i += 1;
    }
    assert(word@ =~= data@.subrange(offset as int, offset + 32));
    word
}

/// `head` followed by what `data` holds from `from` on.
pub fn with_tail(head: Vec<u8>, data: &[u8], from: usize) -> (joined: Vec<u8>)
    requires
        from <= data.len(),
    ensures
        joined@ == head@ + data@.subrange(from as int, data@.len() as int),
{
    let mut joined = head;
    let mut i: usize = from;
    while i < data.len()
        invariant
            from <= i <= data.len(),
            joined@ == head@ + data@.subrange(from as int, i as int),
        decreases data.len() - i,
    {
        joined.push(data[i]);
        i += 1;
        assert(joined@ =~= head@ + data@.subrange(from as int, i as int));
    }
    joined
}

} // verus!
