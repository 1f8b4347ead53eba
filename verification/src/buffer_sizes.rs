//! The prepass buffers: their byte sizes, from the planned capacities and
//! the byte sizes of the items they hold, and the words each frame writes
//! into them before the prepass runs.
use vstd::prelude::*;
use crate::capacity::{
    PrepassCapacities, PrepassItemSizes, COARSE_COUNT_PAGE_SIZE, COARSE_DEPTH_SLICES, QUEUE_HEADER_BYTES,
};
use crate::math::{max, min};
use crate::prepass::TELEMETRY_PAGE_COUNTS_OFFSET_WORDS;
use crate::task_contract::{BINNING_POOL_CHUNK_SIZE, BINNING_POOL_MIN_CHUNKS, BINNING_POOL_NUM_HEADS};

verus! {

/// Byte sizes of the items of the prepass buffers that
/// [`PrepassItemSizes`] does not cover.
#[derive(Clone, Copy, Debug, PartialEq, Eq)]
pub struct PrepassBufferItemSizes {
    pub projected_segment: u64,
    pub strand_instance: u64,
    pub frustum_desc: u64,
    pub fine_page_meta: u64,
}

/// The size in bytes of every prepass buffer, and the number of chunks in
/// the binning pool.
#[derive(Clone, Copy, Debug, PartialEq, Eq)]
pub struct PrepassBufferBytes {
    pub prepass_queue: u64,
    pub binning_queue: u64,
    pub projected_segments: u64,
    /// Each of the visibility flags and the visible instance ids.
    pub instance_ids: u64,
    pub instance_prefix: u64,
    pub strand_instances: u64,
    pub chunk_count: u32,
    pub chunk_pool: u64,
    pub free_heads: u64,
    pub frustum_table: u64,
    pub shadow_dom_surface_ids: u64,
    pub broad_instance_meta: u64,
    pub froxel_bucket_heads: u64,
    pub raster_work_queue: u64,
    pub raster_tile_run_queue: u64,
    /// Each of the indirect-argument buffers: three `u32`.
    pub indirect_args: u64,
    pub coarse_depth_lut: u64,
    pub coarse_range_queue: u64,
    pub coarse_interval_heads: u64,
    pub coarse_interval_refs: u64,
    pub coarse_range_lookup: u64,
    pub coarse_count_page_table: u64,
    pub coarse_count_pages: u64,
    pub fine_page_meta: u64,
    /// Each of the fine cell offsets and write cursors.
    pub fine_cells: u64,
    pub fine_seg_refs: u64,
    pub opaque_fine_depth_tiles: u64,
    pub telemetry: u64,
}

/// Chunks in the binning pool: one per raster work item, at least
/// [`BINNING_POOL_MIN_CHUNKS`], at most `max_chunks`.
pub open spec fn binning_chunk_count(raster_work: u32, max_chunks: u32) -> int {
    min(max(raster_work as int, BINNING_POOL_MIN_CHUNKS as int), max_chunks as int)
}

/// Bytes of a queue of `capacity` items of `item` bytes after its header.
pub open spec fn queue_bytes(capacity: u32, item: u64) -> int {
    QUEUE_HEADER_BYTES + capacity * item
}

/// Every buffer size fits in `u64`, and the telemetry word count in `u32`.
pub open spec fn prepass_buffer_bytes_fit(
    c: PrepassCapacities,
    s: PrepassItemSizes,
    e: PrepassBufferItemSizes,
) -> bool {
    &&& queue_bytes(c.prepass, s.fine_prepass_task) <= u64::MAX
    &&& queue_bytes(c.binning, s.binning_task) <= u64::MAX
    &&& c.binning * e.projected_segment <= u64::MAX
    &&& c.instance * e.strand_instance <= u64::MAX
    &&& c.frustum * e.frustum_desc <= u64::MAX
    &&& queue_bytes(c.raster_work, s.raster_work_item) <= u64::MAX
    &&& queue_bytes(c.raster_tile_run, s.raster_tile_run) <= u64::MAX
    &&& c.coarse_depth_tile * COARSE_DEPTH_SLICES * s.coarse_depth_lut_entry <= u64::MAX
    &&& queue_bytes(c.coarse_range, s.coarse_asset_range) <= u64::MAX
    &&& 4 + c.coarse_interval_ref * s.coarse_interval_ref <= u64::MAX
    &&& c.coarse_count_page * e.fine_page_meta <= u64::MAX
    &&& 4 + c.fine_seg_ref * s.fine_seg_ref <= u64::MAX
    &&& TELEMETRY_PAGE_COUNTS_OFFSET_WORDS + c.coarse_count_page <= u32::MAX
}

/// Tells whether [`prepass_buffer_bytes`] can size these buffers.
pub fn prepass_buffer_bytes_fit_exec(
    c: &PrepassCapacities,
    s: &PrepassItemSizes,
    e: &PrepassBufferItemSizes,
) -> (fit: bool)
    ensures
        fit == prepass_buffer_bytes_fit(*c, *s, *e),
{
    let m: u128 = 0xffff_ffff_ffff_ffff;
    let q = QUEUE_HEADER_BYTES as u128;
    proof {
        lemma_u32_times_u64_fits_u128(c.prepass as int, s.fine_prepass_task);
        lemma_u32_times_u64_fits_u128(c.binning as int, s.binning_task);
        lemma_u32_times_u64_fits_u128(c.binning as int, e.projected_segment);
        lemma_u32_times_u64_fits_u128(c.instance as int, e.strand_instance);
        lemma_u32_times_u64_fits_u128(c.frustum as int, e.frustum_desc);
        lemma_u32_times_u64_fits_u128(c.raster_work as int, s.raster_work_item);
        lemma_u32_times_u64_fits_u128(c.raster_tile_run as int, s.raster_tile_run);
        lemma_u32_times_u64_fits_u128(c.coarse_depth_tile * 16, s.coarse_depth_lut_entry);
        lemma_u32_times_u64_fits_u128(c.coarse_range as int, s.coarse_asset_range);
        lemma_u32_times_u64_fits_u128(c.coarse_interval_ref as int, s.coarse_interval_ref);
        lemma_u32_times_u64_fits_u128(c.coarse_count_page as int, e.fine_page_meta);
        lemma_u32_times_u64_fits_u128(c.fine_seg_ref as int, s.fine_seg_ref);
    }
    let lut_tiles = c.coarse_depth_tile as u128 * COARSE_DEPTH_SLICES as u128;
    q + c.prepass as u128 * s.fine_prepass_task as u128 <= m
        && q + c.binning as u128 * s.binning_task as u128 <= m
        && c.binning as u128 * e.projected_segment as u128 <= m
        && c.instance as u128 * e.strand_instance as u128 <= m
        && c.frustum as u128 * e.frustum_desc as u128 <= m
        && q + c.raster_work as u128 * s.raster_work_item as u128 <= m
        && q + c.raster_tile_run as u128 * s.raster_tile_run as u128 <= m
        && lut_tiles * s.coarse_depth_lut_entry as u128 <= m
        && q + c.coarse_range as u128 * s.coarse_asset_range as u128 <= m
        && 4 + c.coarse_interval_ref as u128 * s.coarse_interval_ref as u128 <= m
        && c.coarse_count_page as u128 * e.fine_page_meta as u128 <= m
        && 4 + c.fine_seg_ref as u128 * s.fine_seg_ref as u128 <= m
        && (TELEMETRY_PAGE_COUNTS_OFFSET_WORDS as u64 + c.coarse_count_page as u64) <= 0xffff_ffff
}

/// A count below `2^36` times a `u64` is below `2^100`.
proof fn lemma_u32_times_u64_fits_u128(a: int, b: u64)
    requires
        0 <= a <= 0xf_ffff_ffff,
    ensures
        0 <= a * b <= 0xf_ffff_ffff * 0xffff_ffff_ffff_ffff,
{
    assert(0 <= a * b <= 0xf_ffff_ffff * 0xffff_ffff_ffff_ffff) by (nonlinear_arith)
        requires
            0 <= a <= 0xf_ffff_ffff,
            0 <= b <= 0xffff_ffff_ffff_ffff,
    ;
}

/// Sizes every prepass buffer: each queue its header and its items, each
/// table its entries, the binning pool its clamped chunk count in chunks
/// of two header words and [`BINNING_POOL_CHUNK_SIZE`] payload words, the
/// count pages a counter word and their cells, and the telemetry its
/// fixed words and one per count page.
pub fn prepass_buffer_bytes(
    c: &PrepassCapacities,
    s: &PrepassItemSizes,
    e: &PrepassBufferItemSizes,
    max_binning_chunks: u32,
) -> (b: PrepassBufferBytes)
    requires
        prepass_buffer_bytes_fit(*c, *s, *e),
    ensures
        b.prepass_queue == queue_bytes(c.prepass, s.fine_prepass_task),
        b.binning_queue == queue_bytes(c.binning, s.binning_task),
        b.projected_segments == c.binning * e.projected_segment,
        b.instance_ids == c.instance * 4,
        b.instance_prefix == (c.instance + 1) * 4,
        b.strand_instances == c.instance * e.strand_instance,
        b.chunk_count == binning_chunk_count(c.raster_work, max_binning_chunks),
        b.chunk_pool == b.chunk_count * ((2 + BINNING_POOL_CHUNK_SIZE) * 4),
        b.free_heads == BINNING_POOL_NUM_HEADS * 4,
        b.frustum_table == c.frustum * e.frustum_desc,
        b.shadow_dom_surface_ids == c.frustum * 8,
        b.broad_instance_meta == c.instance * 16,
        b.froxel_bucket_heads == c.froxel_bucket * 4,
        b.raster_work_queue == queue_bytes(c.raster_work, s.raster_work_item),
        b.raster_tile_run_queue == queue_bytes(c.raster_tile_run, s.raster_tile_run),
        b.indirect_args == 12,
        b.coarse_depth_lut == c.coarse_depth_tile * COARSE_DEPTH_SLICES * s.coarse_depth_lut_entry,
        b.coarse_range_queue == queue_bytes(c.coarse_range, s.coarse_asset_range),
        b.coarse_interval_heads == c.coarse_depth_tile * 4,
        b.coarse_interval_refs == 4 + c.coarse_interval_ref * s.coarse_interval_ref,
        b.coarse_range_lookup == c.coarse_range * 4,
        b.coarse_count_page_table == c.coarse_count_page_table * 4,
        b.coarse_count_pages == 4 + c.coarse_count_page * COARSE_COUNT_PAGE_SIZE * 4,
        b.fine_page_meta == c.coarse_count_page * e.fine_page_meta,
        b.fine_cells == c.fine_cell * 4,
        b.fine_seg_refs == 4 + c.fine_seg_ref * s.fine_seg_ref,
        b.opaque_fine_depth_tiles == c.opaque_fine_depth_tile * 8,
        b.telemetry == (TELEMETRY_PAGE_COUNTS_OFFSET_WORDS + c.coarse_count_page) * 4,
{
    let chunk_floor = if c.raster_work > BINNING_POOL_MIN_CHUNKS { c.raster_work } else { BINNING_POOL_MIN_CHUNKS };
    let chunk_count = if chunk_floor < max_binning_chunks { chunk_floor } else { max_binning_chunks };
    let chunk_stride: u64 = (2 + BINNING_POOL_CHUNK_SIZE as u64) * 4;
    let lut_tiles = c.coarse_depth_tile as u64 * COARSE_DEPTH_SLICES as u64;
    let page_words = c.coarse_count_page as u64 * COARSE_COUNT_PAGE_SIZE as u64;
    PrepassBufferBytes {
        prepass_queue: QUEUE_HEADER_BYTES + c.prepass as u64 * s.fine_prepass_task,
        binning_queue: QUEUE_HEADER_BYTES + c.binning as u64 * s.binning_task,
        projected_segments: c.binning as u64 * e.projected_segment,
        instance_ids: c.instance as u64 * 4,
        instance_prefix: (c.instance as u64 + 1) * 4,
        strand_instances: c.instance as u64 * e.strand_instance,
        chunk_count,
        chunk_pool: chunk_count as u64 * chunk_stride,
        free_heads: BINNING_POOL_NUM_HEADS as u64 * 4,
        frustum_table: c.frustum as u64 * e.frustum_desc,
        shadow_dom_surface_ids: c.frustum as u64 * 8,
        broad_instance_meta: c.instance as u64 * 16,
        froxel_bucket_heads: c.froxel_bucket as u64 * 4,
        raster_work_queue: QUEUE_HEADER_BYTES + c.raster_work as u64 * s.raster_work_item,
        raster_tile_run_queue: QUEUE_HEADER_BYTES + c.raster_tile_run as u64 * s.raster_tile_run,
        indirect_args: 12,
        coarse_depth_lut: lut_tiles * s.coarse_depth_lut_entry,
        coarse_range_queue: QUEUE_HEADER_BYTES + c.coarse_range as u64 * s.coarse_asset_range,
        coarse_interval_heads: c.coarse_depth_tile as u64 * 4,
        coarse_interval_refs: 4 + c.coarse_interval_ref as u64 * s.coarse_interval_ref,
        coarse_range_lookup: c.coarse_range as u64 * 4,
        coarse_count_page_table: c.coarse_count_page_table as u64 * 4,
        coarse_count_pages: 4 + page_words * 4,
        fine_page_meta: c.coarse_count_page as u64 * e.fine_page_meta,
        fine_cells: c.fine_cell as u64 * 4,
        fine_seg_refs: 4 + c.fine_seg_ref as u64 * s.fine_seg_ref,
        opaque_fine_depth_tiles: c.opaque_fine_depth_tile as u64 * 8,
        telemetry: (TELEMETRY_PAGE_COUNTS_OFFSET_WORDS + c.coarse_count_page) as u64 * 4,
    }
}

/// A prepass buffer whose first words are rewritten every frame.
#[derive(Clone, Copy, Debug, PartialEq, Eq, Structural)]
pub enum FrameBuffer {
    PrepassQueue,
    BinningQueue,
    RasterWorkQueue,
    RasterTileRunQueue,
    FineSegRefs,
    CoarseRangeQueue,
    CoarseIntervalRefs,
    IndirectArgs,
    PrefixIndirectArgs,
    FreeHeads,
    CoarseIntervalHeads,
    CoarseRangeLookup,
}

/// The words written at the start of `buffer`.
#[derive(Clone, Debug)]
pub struct FrameReset {
    pub buffer: FrameBuffer,
    pub words: Vec<u32>,
}

/// The buffers reset each frame, in the order they are written.
pub open spec fn frame_reset_order() -> Seq<FrameBuffer> {
    seq![
        FrameBuffer::PrepassQueue,
        FrameBuffer::BinningQueue,
        FrameBuffer::RasterWorkQueue,
        FrameBuffer::RasterTileRunQueue,
        FrameBuffer::FineSegRefs,
        FrameBuffer::CoarseRangeQueue,
        FrameBuffer::CoarseIntervalRefs,
        FrameBuffer::IndirectArgs,
        FrameBuffer::PrefixIndirectArgs,
        FrameBuffer::FreeHeads,
        FrameBuffer::CoarseIntervalHeads,
        FrameBuffer::CoarseRangeLookup,
    ]
}

/// What a frame writes first into `buffer`: every queue header reset to
/// head and tail zero; the counters of the fine segment and interval
/// references zero; each indirect dispatch `(0, 1, 1)`; every free-list
/// head of the binning pool zero; and every coarse interval head and range
/// lookup (one per coarse depth tile and per coarse range) invalid.
pub open spec fn frame_reset_words(buffer: FrameBuffer, coarse_depth_tiles: u32, coarse_ranges: u32) -> Seq<u32> {
    match buffer {
        FrameBuffer::FineSegRefs | FrameBuffer::CoarseIntervalRefs => seq![0u32],
        FrameBuffer::IndirectArgs | FrameBuffer::PrefixIndirectArgs => seq![0u32, 1u32, 1u32],
        FrameBuffer::FreeHeads => Seq::new(BINNING_POOL_NUM_HEADS as nat, |i: int| 0u32),
        FrameBuffer::CoarseIntervalHeads => Seq::new(coarse_depth_tiles as nat, |i: int| u32::MAX),
        FrameBuffer::CoarseRangeLookup => Seq::new(coarse_ranges as nat, |i: int| u32::MAX),
        _ => seq![0u32, 0u32],
    }
}

/// `count` copies of `value`.
fn filled(value: u32, count: u32) -> (v: Vec<u32>)
    ensures
        v@ == Seq::new(count as nat, |i: int| value),
{
    let mut v: Vec<u32> = Vec::new();
    let mut i: u32 = 0;
    while i < count
        invariant
            i <= count,
            v@ == Seq::new(i as nat, |k: int| value),
        decreases count - i,
    {
        v.push(value);
        i = i + 1;
        proof {
            assert(v@ =~= Seq::new(i as nat, |k: int| value));
        }
    }
    v
}

/// The words a frame writes into each reset buffer before the prepass
/// runs, for `coarse_depth_tiles` coarse depth tiles and `coarse_ranges`
/// coarse ranges of capacity (see [`frame_reset_words`]).
pub fn frame_resets(coarse_depth_tiles: u32, coarse_ranges: u32) -> (resets: Vec<FrameReset>)
    ensures
        resets@.len() == frame_reset_order().len(),
        forall|i: int|
            0 <= i < resets@.len() ==> {
                &&& (#[trigger] resets@[i]).buffer == frame_reset_order()[i]
                &&& resets@[i].words@ == frame_reset_words(frame_reset_order()[i], coarse_depth_tiles, coarse_ranges)
            },
{
    let mut resets: Vec<FrameReset> = Vec::new();
    let order = [
        FrameBuffer::PrepassQueue,
        FrameBuffer::BinningQueue,
        FrameBuffer::RasterWorkQueue,
        FrameBuffer::RasterTileRunQueue,
        FrameBuffer::FineSegRefs,
        FrameBuffer::CoarseRangeQueue,
        FrameBuffer::CoarseIntervalRefs,
        FrameBuffer::IndirectArgs,
        FrameBuffer::PrefixIndirectArgs,
        FrameBuffer::FreeHeads,
        FrameBuffer::CoarseIntervalHeads,
        FrameBuffer::CoarseRangeLookup,
    ];
    proof {
        assert(order@ =~= frame_reset_order());
    }
    let mut i: usize = 0;
    while i < 12
        invariant
            0 <= i <= 12,
            order@ == frame_reset_order(),
            resets@.len() == i,
            forall|j: int|
                0 <= j < i ==> {
                    &&& (#[trigger] resets@[j]).buffer == frame_reset_order()[j]
                    &&& resets@[j].words@ == frame_reset_words(frame_reset_order()[j], coarse_depth_tiles, coarse_ranges)
                },
        decreases 12 - i,
    {
        let buffer = order[i];
        let words = match buffer {
            FrameBuffer::FineSegRefs | FrameBuffer::CoarseIntervalRefs => filled(0, 1),
            FrameBuffer::IndirectArgs | FrameBuffer::PrefixIndirectArgs => {
                let mut w = filled(1, 3);
                w.set(0, 0);
                w
            },
            FrameBuffer::FreeHeads => filled(0, BINNING_POOL_NUM_HEADS),
            FrameBuffer::CoarseIntervalHeads => filled(u32::MAX, coarse_depth_tiles),
            FrameBuffer::CoarseRangeLookup => filled(u32::MAX, coarse_ranges),
            _ => filled(0, 2),
        };
        proof {
            assert(words@ =~= frame_reset_words(buffer, coarse_depth_tiles, coarse_ranges));
        }
        resets.push(FrameReset { buffer, words });
        i = i + 1;
    }
    resets
}

} // verus!
