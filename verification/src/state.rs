//! The pool state: the root history ledger, a ring buffer of the most
//! recent state roots, and its fixed byte layout.

use vstd::prelude::*;
use crate::words::word_eq;

verus! {

/// The length in bytes of a stored pool state: tag, current root, the ring,
/// the write position and four bytes of padding.
pub const POOL_STATE_LEN: usize = 1072;

/// The tag of an initialised pool state.
pub const POOL_STATE_TAG: [u8; 8] = [83, 72, 80, 79, 79, 76, 48, 49];

/// The mathematical content of a pool state.
pub struct PoolModel {
    pub discriminator: Seq<u8>,
    pub current: Seq<u8>,
    pub slots: Seq<Seq<u8>>,
    pub index: u32,
    pub padding: Seq<u8>,
}

impl PoolModel {
    /// The slot that the next root goes to: the stored position, taken
    /// modulo the capacity.
    pub open spec fn next(self) -> int {
        self.index as int % 32
    }

    /// Every part has the length that the layout gives it.
    pub open spec fn shaped(self) -> bool {
        &&& self.discriminator.len() == 8
        &&& self.current.len() == 32
        &&& self.slots.len() == 32
        &&& forall|i: int| 0 <= i < 32 ==> (#[trigger] self.slots[i]).len() == 32
        &&& self.padding.len() == 4
    }

    /// The invariant of a pool state in use: the write position is a slot,
    /// and the current root is the slot written last.
    pub open spec fn wf(self) -> bool {
        &&& self.shaped()
        &&& self.index < 32
        &&& self.current == self.slots[(self.next() + 31) % 32]
    }

    /// Whether the state carries the tag.
    pub open spec fn is_initialized(self) -> bool {
        self.discriminator == POOL_STATE_TAG@
    }

    /// Whether `candidate` is one of the roots in the ring. A fresh ring
    /// holds the zero root in every slot, until appends overwrite them.
    pub open spec fn contains(self, candidate: Seq<u8>) -> bool {
        exists|i: int| 0 <= i < 32 && #[trigger] self.slots[i] == candidate
    }

    /// The state after `root` was written at the write position.
    pub open spec fn append(self, root: Seq<u8>) -> PoolModel {
        PoolModel {
            discriminator: self.discriminator,
            current: root,
            slots: self.slots.update(self.next(), root),
            index: ((self.next() + 1) % 32) as u32,
            padding: self.padding,
        }
    }

    /// The state after each of `roots` was appended in turn.
    pub open spec fn append_all(self, roots: Seq<Seq<u8>>) -> PoolModel
        decreases roots.len(),
    {
        if roots.len() == 0 {
            self
        } else {
            self.append_all(roots.drop_last()).append(roots.last())
        }
    }

    /// The roots in the order in which they were written, oldest first.
    pub open spec fn in_order(self) -> Seq<Seq<u8>> {
        Seq::new(32, |k: int| self.slots[(self.next() + k) % 32])
    }

    /// A newly initialised state: tagged, every root zero.
    pub open spec fn fresh() -> PoolModel {
        PoolModel {
            discriminator: POOL_STATE_TAG@,
            current: Seq::new(32, |i: int| 0u8),
            slots: Seq::new(32, |i: int| Seq::new(32, |j: int| 0u8)),
            index: 0,
            padding: Seq::new(4, |i: int| 0u8),
        }
    }
}

/// The four bytes of `value`, lowest first.
pub open spec fn index_bytes(value: u32) -> Seq<u8> {
    seq![
        (value % 256) as u8,
        (value / 256 % 256) as u8,
        (value / 65536 % 256) as u8,
        (value / 16777216 % 256) as u8,
    ]
}

/// The value of four bytes, lowest first.
pub open spec fn index_value(bytes: Seq<u8>) -> u32 {
    (bytes[0] + bytes[1] * 256 + bytes[2] * 65536 + bytes[3] * 16777216) as u32
}

/// The stored form of a state.
pub open spec fn serialize_state(state: PoolModel) -> Seq<u8> {
    state.discriminator + state.current + Seq::new(1024, |i: int| state.slots[i / 32][i % 32])
        + index_bytes(state.index) + state.padding
}

/// The state that the first `POOL_STATE_LEN` bytes of `bytes` store.
pub open spec fn parse_state(bytes: Seq<u8>) -> PoolModel {
    PoolModel {
        discriminator: bytes.subrange(0, 8),
        current: bytes.subrange(8, 40),
        slots: Seq::new(32, |i: int| bytes.subrange(40 + 32 * i, 72 + 32 * i)),
        index: index_value(bytes.subrange(1064, 1068)),
        padding: bytes.subrange(1068, 1072),
    }
}

/// Four bytes, lowest first, read back as the value that they were made
/// from.
pub proof fn lemma_index_round_trip(value: u32)
    ensures
        index_bytes(value).len() == 4,
        index_value(index_bytes(value)) == value,
{
    let b0 = value as int % 256;
    let b1 = value as int / 256 % 256;
    let b2 = value as int / 65536 % 256;
    let b3 = value as int / 16777216 % 256;
    assert(value as int / 16777216 < 256);
    assert(value as int == b0 + 256 * (value as int / 256));
    assert(value as int / 256 == b1 + 256 * (value as int / 65536));
    assert(value as int / 65536 == b2 + 256 * (value as int / 16777216));
}

/// A stored state reads back as it was written, whatever follows it.
pub proof fn lemma_state_round_trip(state: PoolModel, tail: Seq<u8>)
    requires
        state.shaped(),
    ensures
        serialize_state(state).len() == POOL_STATE_LEN,
        parse_state(serialize_state(state) + tail) == state,
{
    let bytes = serialize_state(state) + tail;
    let parsed = parse_state(bytes);
    lemma_index_round_trip(state.index);
    assert(parsed.discriminator =~= state.discriminator);
    assert(parsed.current =~= state.current);
    assert(parsed.padding =~= state.padding);
    assert(bytes.subrange(1064, 1068) =~= index_bytes(state.index));
    assert forall|i: int| 0 <= i < 32 implies #[trigger] parsed.slots[i] == state.slots[i] by {
        assert forall|j: int| 0 <= j < 32 implies parsed.slots[i][j] == state.slots[i][j] by {
            assert((32 * i + j) / 32 == i);
            assert((32 * i + j) % 32 == j);
        }
        assert(parsed.slots[i] =~= state.slots[i]);
    }
    assert(parsed.slots =~= state.slots);
}

/// Whatever bytes a state is read from, its parts have the lengths of the
/// layout.
pub proof fn lemma_parsed_state_is_shaped(bytes: Seq<u8>)
    requires
        bytes.len() >= POOL_STATE_LEN,
    ensures
        parse_state(bytes).shaped(),
{
}

/// The persistent pool state.
#[derive(Clone, Copy, Debug, PartialEq, Eq)]
pub struct PoolState {
    pub discriminator: [u8; 8],
    pub current_root: [u8; 32],
    pub roots: [[u8; 32]; 32],
    pub roots_index: u32,
    pub padding: [u8; 4],
}

impl View for PoolState {
    type V = PoolModel;

    open spec fn view(&self) -> PoolModel {
        PoolModel {
            discriminator: self.discriminator@,
            current: self.current_root@,
            slots: Seq::new(32, |i: int| self.roots@[i]@),
            index: self.roots_index,
            padding: self.padding@,
        }
    }
}

impl PoolState {
    /// A newly initialised state: tagged, every root zero, the write
    /// position at the first slot.
    pub fn new() -> (state: PoolState)
        ensures
            state@ == PoolModel::fresh(),
            state@.wf(),
    {
        let state = PoolState {
            discriminator: POOL_STATE_TAG,
            current_root: [0u8; 32],
            roots: [[0u8; 32]; 32],
            roots_index: 0,
            padding: [0u8; 4],
        };
        assert(state@.current =~= PoolModel::fresh().current);
        assert(state@.padding =~= PoolModel::fresh().padding);
        assert forall|i: int| 0 <= i < 32 implies #[trigger] state@.slots[i]
            == PoolModel::fresh().slots[i] by {
            assert(state@.slots[i] =~= PoolModel::fresh().slots[i]);
        }
        assert(state@.slots =~= PoolModel::fresh().slots);
        state
    }

    /// Whether the state carries the tag of an initialised pool.
    pub fn is_initialized(&self) -> (tagged: bool)
        ensures
            tagged == self@.is_initialized(),
    {
        let mut i: usize = 0;
        while i < 8
            invariant
                i <= 8,
                forall|k: int| 0 <= k < i ==> self.discriminator[k] == POOL_STATE_TAG[k],
            decreases 8 - i,
        {
            if self.discriminator[i] != POOL_STATE_TAG[i] {
                return false;
            }
            i += 1;
        }
        assert(self.discriminator@ =~= POOL_STATE_TAG@);
        true
    }

    /// Writes `new_root` at the write position, makes it the current root
    /// and advances the position, wrapping at the capacity. The root that
    /// the slot held leaves the ring. No root is refused.
    pub fn add_root(&mut self, new_root: [u8; 32])
        ensures
            final(self)@ == old(self)@.append(new_root@),
            final(self)@.wf(),
    {
        let slot: usize = (self.roots_index % 32) as usize;
        self.roots[slot] = new_root;
        self.current_root = new_root;
        self.roots_index = ((slot + 1) % 32) as u32;
        assert(self@.slots =~= old(self)@.slots.update(slot as int, new_root@));
        assert(self@.slots[(self@.next() + 31) % 32] == new_root@);
    }

    /// Whether `root` is one of the roots in the ring.
    pub fn check_root(&self, root: &[u8; 32]) -> (found: bool)
        ensures
            found == self@.contains(root@),
    {
        let mut i: usize = 0;
        while i < 32
            invariant
                i <= 32,
                forall|k: int| 0 <= k < i ==> self@.slots[k] != root@,
            decreases 32 - i,
        {
            if word_eq(&self.roots[i], root) {
                assert(self@.slots[i as int] == root@);
                return true;
            }
            i += 1;
        }
        false
    }

    /// Reads a state from the first `POOL_STATE_LEN` bytes of `data`; none
    /// where `data` is shorter. No content is refused.
    pub fn decode(data: &[u8]) -> (state: Option<PoolState>)
        ensures
            state is Some <==> data@.len() >= POOL_STATE_LEN,
            state matches Some(s) ==> s@ == parse_state(data@),
    {
        if data.len() < POOL_STATE_LEN {
            return None;
        }
        let mut discriminator = [0u8; 8];
        let mut i: usize = 0;
        while i < 8
            invariant
                i <= 8,
                data@.len() >= POOL_STATE_LEN,
                forall|k: int| 0 <= k < i ==> discriminator[k] == data@[k],
            decreases 8 - i,
        {
            discriminator[i] = data[i];
            i += 1;
        }
        let current_root = crate::words::read_word(data, 8);
        let mut roots = [[0u8; 32]; 32];
        let mut r: usize = 0;
        while r < 32
            invariant
                r <= 32,
                data@.len() >= POOL_STATE_LEN,
                forall|k: int| 0 <= k < r ==> roots[k]@ == data@.subrange(40 + 32 * k, 72 + 32 * k),
            decreases 32 - r,
        {
            roots[r] = crate::words::read_word(data, 40 + 32 * r);
            r += 1;
        }
        let roots_index: u32 = (data[1064] as u32) + (data[1065] as u32) * 256 + (data[1066] as u32)
            * 65536 + (data[1067] as u32) * 16777216;
        let mut padding = [0u8; 4];
        let mut p: usize = 0;
        while p < 4
            invariant
                p <= 4,
                data@.len() >= POOL_STATE_LEN,
                forall|k: int| 0 <= k < p ==> padding[k] == data@[1068 + k],
            decreases 4 - p,
        {
            padding[p] = data[1068 + p];
            p += 1;
        }
        let state = PoolState { discriminator, current_root, roots, roots_index, padding };
        proof {
            let parsed = parse_state(data@);
            assert(state@.discriminator =~= parsed.discriminator);
            assert(state@.padding =~= parsed.padding);
            assert(state@.slots =~= parsed.slots);
        }
        Some(state)
    }

    /// The stored form of the state, `POOL_STATE_LEN` bytes.
    pub fn encode(&self) -> (bytes: Vec<u8>)
        ensures
            bytes@ == serialize_state(self@),
            bytes@.len() == POOL_STATE_LEN,
    {
        let mut bytes: Vec<u8> = Vec::new();
        let mut i: usize = 0;
        while i < 8
            invariant
                i <= 8,
                bytes@ == self.discriminator@.subrange(0, i as int),
            decreases 8 - i,
        {
            bytes.push(self.discriminator[i]);
            i += 1;
            assert(bytes@ =~= self.discriminator@.subrange(0, i as int));
        }
        assert(bytes@ =~= self.discriminator@);
        let mut c: usize = 0;
        while c < 32
            invariant
                c <= 32,
                bytes@ == self.discriminator@ + self.current_root@.subrange(0, c as int),
            decreases 32 - c,
        {
            bytes.push(self.current_root[c]);
            c += 1;
            assert(bytes@ =~= self.discriminator@ + self.current_root@.subrange(0, c as int));
        }
        assert(bytes@ =~= self.discriminator@ + self.current_root@);
        let ghost head = bytes@;
        let mut n: usize = 0;
        while n < 1024
            invariant
                n <= 1024,
                bytes@ == head + Seq::new(n as nat, |k: int| self@.slots[k / 32][k % 32]),
            decreases 1024 - n,
        {
            bytes.push(self.roots[n / 32][n % 32]);
            n += 1;
            assert(bytes@ =~= head + Seq::new(n as nat, |k: int| self@.slots[k / 32][k % 32]));
        }
        let ghost ring = bytes@;
        bytes.push((self.roots_index % 256) as u8);
        bytes.push((self.roots_index / 256 % 256) as u8);
        bytes.push((self.roots_index / 65536 % 256) as u8);
        bytes.push((self.roots_index / 16777216 % 256) as u8);
        assert(bytes@ =~= ring + index_bytes(self.roots_index));
        let ghost body = bytes@;
        let mut p: usize = 0;
        while p < 4
            invariant
                p <= 4,
                bytes@ == body + self.padding@.subrange(0, p as int),
            decreases 4 - p,
        {
            bytes.push(self.padding[p]);
            p += 1;
            assert(bytes@ =~= body + self.padding@.subrange(0, p as int));
        }
        assert(bytes@ =~= serialize_state(self@));
        bytes
    }
}

} // verus!
