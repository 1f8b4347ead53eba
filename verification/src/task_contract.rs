//! Queue/task ABI contract shared across the work-preparation phases.
//!
//! `packed_field` of a [`BinningTask`]:
//! - bits [0..1]: level (up to four levels)
//! - bit  [2]:    is_shadow
//! - bits [3..31]: frustum index
use vstd::prelude::*;

verus! {

/// Broad visibility/candidate generation.
pub const PHASE_BROAD: u32 = 0;
/// Fine segment/frustum expansion.
pub const PHASE_FINE: u32 = 1;
/// Binning/final work emission.
pub const PHASE_BINNING: u32 = 2;
/// Current hierarchy depth target for queue-based binning.
pub const BINNING_NUM_LEVELS: u32 = 2;
/// Sparse binning chunk size in u32 payload entries.
pub const BINNING_POOL_CHUNK_SIZE: u32 = 32;
/// Number of allocator heads used to spread atomic pressure.
pub const BINNING_POOL_NUM_HEADS: u32 = 64;
/// Minimum number of chunks reserved for sparse binning.
pub const BINNING_POOL_MIN_CHUNKS: u32 = 16_384;

pub const BINNING_LEVEL_BITS: u32 = 2;
pub const BINNING_LEVEL_MASK: u32 = 3;
pub const BINNING_SHADOW_BIT: u32 = 4;
pub const BINNING_FRUSTUM_SHIFT: u32 = 3;

/// Number of `u32` words in a [`QueueHeader`].
pub const QUEUE_HEADER_WORDS: usize = 2;

/// Queue header ABI used by GPU work queues: producers reserve by
/// incrementing `tail`, consumers advance `head`; both are reset to zero
/// before a new frame/phase chain.
#[derive(Clone, Copy, Debug)]
pub struct QueueHeader {
    pub head: u32,
    pub tail: u32,
}

impl QueueHeader {
    /// An empty queue: nothing reserved, nothing consumed.
    pub open spec fn is_reset(self) -> bool {
        self.head == 0 && self.tail == 0
    }
}

impl Default for QueueHeader {
    /// The header a queue is reset to before a frame or phase chain.
    fn default() -> (h: Self)
        ensures
            h.is_reset(),
    {
        QueueHeader { head: 0, tail: 0 }
    }
}

#[derive(Clone, Copy, Debug, Default)]
pub struct FinePrepassTask {
    pub inst_id: u32,
    pub strand_local: u32,
}

#[derive(Clone, Copy, Debug, Default)]
pub struct BinningTask {
    pub id_info: u32,
    pub chunk_id: u32,
    pub seg_idx: u32,
    pub packed_field: u32,
}

#[derive(Clone, Copy, Debug, Default)]
pub struct RasterWorkItem {
    pub seg_id: u32,
    pub frustum_id: u32,
    pub tile_id: u32,
}

/// The number of distinct frustum indices the packed field can carry.
pub open spec fn frustum_index_range() -> int {
    0x2000_0000
}

/// The packed field as a number: level in the two low bits, the shadow
/// flag above it and the frustum index in the remaining 29 bits.
pub open spec fn packed_binning_field(level: u32, is_shadow: bool, frustum_index: u32) -> int {
    (level as int % 4) + (if is_shadow { 4int } else { 0int }) + (frustum_index as int
        % frustum_index_range()) * 8
}

/// The level a word carries.
pub open spec fn packed_level(packed: u32) -> int {
    packed as int % 4
}

/// The shadow flag a word carries.
pub open spec fn packed_shadow(packed: u32) -> bool {
    (packed as int / 4) % 2 == 1
}

/// The frustum index a word carries.
pub open spec fn packed_frustum(packed: u32) -> int {
    packed as int / 8
}

/// Packs a level, a shadow flag and a frustum index into one word.
/// Levels above 3 keep only their two low bits, frustum indices only their
/// 29 low bits.
pub fn pack_binning_field(level: u32, is_shadow: bool, frustum_index: u32) -> (packed: u32)
    ensures
        packed as int == packed_binning_field(level, is_shadow, frustum_index),
{
    let shadow: u32 = if is_shadow { 1 } else { 0 };
    let packed: u32 = (level & BINNING_LEVEL_MASK) | (shadow << BINNING_LEVEL_BITS) | (frustum_index
        << BINNING_FRUSTUM_SHIFT);
    assert(packed as int == (level as int % 4) + shadow as int * 4 + (frustum_index as int
        % 0x2000_0000) * 8) by (bit_vector)
        requires
            packed == (level & 3u32) | (shadow << 2u32) | (frustum_index << 3u32),
            shadow <= 1,
    ;
    packed
}

/// The level of a packed field: its two low bits.
pub fn unpack_binning_level(packed: u32) -> (level: u32)
    ensures
        level as int == packed_level(packed),
{
    let level: u32 = packed & BINNING_LEVEL_MASK;
    assert(level as int == packed as int % 4) by (bit_vector)
        requires
            level == packed & 3u32,
    ;
    level
}

/// The shadow flag of a packed field: its third bit.
pub fn unpack_binning_shadow(packed: u32) -> (is_shadow: bool)
    ensures
        is_shadow == packed_shadow(packed),
{
    let is_shadow = (packed & BINNING_SHADOW_BIT) != 0;
    assert(is_shadow == ((packed as int / 4) % 2 == 1)) by (bit_vector)
        requires
            is_shadow == ((packed & 4u32) != 0u32),
    ;
    is_shadow
}

/// The frustum index of a packed field: the bits above the flag.
pub fn unpack_binning_frustum(packed: u32) -> (frustum_index: u32)
    ensures
        frustum_index as int == packed_frustum(packed),
{
    let frustum_index: u32 = packed >> BINNING_FRUSTUM_SHIFT;
    assert(frustum_index as int == packed as int / 8) by (bit_vector)
        requires
            frustum_index == packed >> 3u32,
    ;
    frustum_index
}

/// Unpacking a packed field gives back its parts: the level modulo four,
/// the shadow flag, and the frustum index modulo 2^29.
pub proof fn lemma_unpack_of_pack(level: u32, is_shadow: bool, frustum_index: u32)
    ensures
        ({
            let p = packed_binning_field(level, is_shadow, frustum_index);
            &&& 0 <= p <= u32::MAX
            &&& packed_level(p as u32) == level as int % 4
            &&& packed_shadow(p as u32) == is_shadow
            &&& packed_frustum(p as u32) == frustum_index as int % frustum_index_range()
        }),
{
    let l = level as int % 4;
    let s: int = if is_shadow { 4 } else { 0 };
    let f = frustum_index as int % frustum_index_range();
    let p = l + s + f * 8;
    assert(p == l + s + f * 8);
    assert(0 <= p <= u32::MAX);
    assert((p as u32) as int == p);
    assert(p % 4 == l) by {
        assert(p == (s / 4 + f * 2) * 4 + l);
    }
    assert(p / 4 == s / 4 + f * 2) by {
        assert(p == (s / 4 + f * 2) * 4 + l);
    }
    assert(p / 8 == f) by {
        assert(p == f * 8 + (l + s));
    }
}

/// Every word is a packed field: packing its unpacked parts gives it back.
pub proof fn lemma_pack_of_unpack(packed: u32)
    ensures
        packed_binning_field(
            packed_level(packed) as u32,
            packed_shadow(packed),
            packed_frustum(packed) as u32,
        ) == packed as int,
{
    let p = packed as int;
    let l = p % 4;
    let f = p / 8;
    let sb = (p / 4) % 2;
    assert(p == f * 8 + sb * 4 + l) by {
        assert(p == (p / 4) * 4 + l);
        assert(p / 4 == (p / 4 / 2) * 2 + sb);
        assert(p / 4 / 2 == p / 8);
    }
    assert((f as u32) as int == f);
    assert((l as u32) as int == l);
    assert(f % frustum_index_range() == f);
}

} // verus!
