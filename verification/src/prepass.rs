//! The dispatch plan of the strand prepass: grid sizes and element counts
//! of its compute stages, and where its telemetry words sit.
use vstd::prelude::*;
use crate::capacity::{COARSE_DEPTH_SLICES, COARSE_FINE_TILE_EXTENT, MAX_COMPUTE_WORKGROUPS_PER_DIMENSION};
use crate::math::{div_ceil, div_ceil_u32, max, min, saturating_mul_u32, saturating_mul_u32_exec};

verus! {

/// Buckets of the page-candidate histogram in the telemetry buffer.
pub const TELEMETRY_HISTOGRAM_BINS: u32 = 32;
/// First word of the histogram.
pub const TELEMETRY_HISTOGRAM_OFFSET_WORDS: u32 = 8;
/// First word after the histogram: the per-page counts, then the
/// per-frustum records.
pub const TELEMETRY_PAGE_COUNTS_OFFSET_WORDS: u32 = TELEMETRY_HISTOGRAM_OFFSET_WORDS
    + TELEMETRY_HISTOGRAM_BINS;
/// Words of one per-frustum telemetry record.
pub const FRUSTUM_TELEMETRY_STRIDE_WORDS: u32 = 11;
/// Threads per workgroup of the depth-reduce pass.
pub const DEPTH_REDUCE_WORKGROUP_SIZE: u32 = 64;
/// Widest one-dimensional grid of the raster-work emission.
pub const EMIT_RASTER_WORK_MAX_X: u32 = 65_535;

/// A `dispatch_workgroups(x, y, z)` grid.
#[derive(Clone, Copy, Debug, PartialEq, Eq)]
pub struct Grid {
    pub x: u32,
    pub y: u32,
    pub z: u32,
}

/// Grid sizes and element counts of the prepass stages.
#[derive(Clone, Copy, Debug, PartialEq, Eq)]
pub struct PrepassDispatchPlan {
    pub broad_instances: Grid,
    /// Strands per instance that the broad strand stage walks (at least 1).
    pub broad_strand_elements: u32,
    pub broad_strands: Grid,
    /// Workgroup offset pushed to the indirect fine stages.
    pub fine_workgroup_offset: u32,
    pub coarse_intervals: Grid,
    pub depth_warp: Grid,
    pub coarse_count_page_table_capacity: u32,
    pub allocate_count_pages: Grid,
    /// Where the per-frustum telemetry starts, pushed as the scan save base.
    pub scan_save_base: u32,
    /// Fine tiles whose stacks emit raster work.
    pub fine_tile_stack_elements: u32,
    pub emit_raster_work: Grid,
}

/// The one-row grid of `x` workgroups.
pub open spec fn row(x: int) -> Grid {
    Grid { x: x as u32, y: 1, z: 1 }
}

/// The fine tiles of `coarse_depth_tile_capacity` coarse tiles, saturating.
pub open spec fn fine_tile_stack_elements(coarse_depth_tile_capacity: u32) -> int {
    saturating_mul_u32(
        saturating_mul_u32(coarse_depth_tile_capacity as int, COARSE_FINE_TILE_EXTENT as int),
        COARSE_FINE_TILE_EXTENT as int,
    )
}

/// The grid that covers `count` (at least one) workgroups with rows of at
/// most [`EMIT_RASTER_WORK_MAX_X`].
pub open spec fn wrapped_grid(count: int) -> Grid {
    let c = max(count, 1);
    let x = max(min(c, EMIT_RASTER_WORK_MAX_X as int), 1);
    let y = max(div_ceil(c, x), 1);
    Grid { x: x as u32, y: y as u32, z: 1 }
}

/// The prepass plan for the given sizes.
pub open spec fn prepass_dispatch_plan(
    threads_per_workgroup: u32,
    instance_count: u32,
    max_strands_in_instance: u32,
    coarse_depth_tile_capacity: u32,
    coarse_count_page_capacity: u32,
    coarse_range_capacity: u32,
) -> PrepassDispatchPlan {
    let tpw = threads_per_workgroup as int;
    let strands = max(max_strands_in_instance as int, 1);
    let table = saturating_mul_u32(coarse_depth_tile_capacity as int, COARSE_DEPTH_SLICES as int);
    let fine = fine_tile_stack_elements(coarse_depth_tile_capacity);
    PrepassDispatchPlan {
        broad_instances: row(div_ceil(instance_count as int, tpw)),
        broad_strand_elements: strands as u32,
        broad_strands: Grid {
            x: div_ceil(strands, tpw) as u32,
            y: max(instance_count as int, 1) as u32,
            z: 1,
        },
        fine_workgroup_offset: saturating_mul_u32(MAX_COMPUTE_WORKGROUPS_PER_DIMENSION as int, tpw) as u32,
        coarse_intervals: row(coarse_range_capacity as int),
        depth_warp: row(div_ceil(coarse_depth_tile_capacity as int, tpw)),
        coarse_count_page_table_capacity: table as u32,
        allocate_count_pages: row(div_ceil(table, tpw)),
        scan_save_base: (TELEMETRY_PAGE_COUNTS_OFFSET_WORDS + coarse_count_page_capacity) as u32,
        fine_tile_stack_elements: fine as u32,
        emit_raster_work: wrapped_grid(fine),
    }
}

fn wrap_grid(count: u32) -> (g: Grid)
    ensures
        g == wrapped_grid(count as int),
{
    let c = if count < 1 { 1 } else { count };
    let capped = if c < EMIT_RASTER_WORK_MAX_X { c } else { EMIT_RASTER_WORK_MAX_X };
    let x = if capped < 1 { 1 } else { capped };
    let rows = div_ceil_u32(c, x);
    let y = if rows < 1 { 1 } else { rows };
    Grid { x, y, z: 1 }
}

/// Plans the prepass stages for `instance_count` instances of at most
/// `max_strands_in_instance` strands and the given buffer capacities.
pub fn plan_prepass_dispatch(
    threads_per_workgroup: u32,
    instance_count: u32,
    max_strands_in_instance: u32,
    coarse_depth_tile_capacity: u32,
    coarse_count_page_capacity: u32,
    coarse_range_capacity: u32,
) -> (plan: PrepassDispatchPlan)
    requires
        threads_per_workgroup > 0,
        TELEMETRY_PAGE_COUNTS_OFFSET_WORDS + coarse_count_page_capacity <= u32::MAX,
    ensures
        plan == prepass_dispatch_plan(
            threads_per_workgroup,
            instance_count,
            max_strands_in_instance,
            coarse_depth_tile_capacity,
            coarse_count_page_capacity,
            coarse_range_capacity,
        ),
{
    let tpw = threads_per_workgroup;
    let strands = if max_strands_in_instance < 1 { 1 } else { max_strands_in_instance };
    let instances_y = if instance_count < 1 { 1 } else { instance_count };
    let table = saturating_mul_u32_exec(coarse_depth_tile_capacity, COARSE_DEPTH_SLICES);
    let fine = saturating_mul_u32_exec(
        saturating_mul_u32_exec(coarse_depth_tile_capacity, COARSE_FINE_TILE_EXTENT),
        COARSE_FINE_TILE_EXTENT,
    );
    PrepassDispatchPlan {
        broad_instances: Grid { x: div_ceil_u32(instance_count, tpw), y: 1, z: 1 },
        broad_strand_elements: strands,
        broad_strands: Grid { x: div_ceil_u32(strands, tpw), y: instances_y, z: 1 },
        fine_workgroup_offset: saturating_mul_u32_exec(MAX_COMPUTE_WORKGROUPS_PER_DIMENSION, tpw),
        coarse_intervals: Grid { x: coarse_range_capacity, y: 1, z: 1 },
        depth_warp: Grid { x: div_ceil_u32(coarse_depth_tile_capacity, tpw), y: 1, z: 1 },
        coarse_count_page_table_capacity: table,
        allocate_count_pages: Grid { x: div_ceil_u32(table, tpw), y: 1, z: 1 },
        scan_save_base: TELEMETRY_PAGE_COUNTS_OFFSET_WORDS + coarse_count_page_capacity,
        fine_tile_stack_elements: fine,
        emit_raster_work: wrap_grid(fine),
    }
}

/// The raster-work grid covers every fine tile stack: rows of at most
/// [`EMIT_RASTER_WORK_MAX_X`] workgroups, never empty, and at least as
/// many workgroups as stacks.
pub proof fn lemma_wrapped_grid_covers(count: u32)
    ensures
        ({
            let g = wrapped_grid(count as int);
            &&& 1 <= g.x <= EMIT_RASTER_WORK_MAX_X
            &&& g.y >= 1
            &&& g.x * g.y >= count
        }),
{
    let c = max(count as int, 1);
    let x = max(min(c, EMIT_RASTER_WORK_MAX_X as int), 1);
    let q = div_ceil(c, x);
    assert(x * q >= c) by (nonlinear_arith)
        requires
            x >= 1,
            q == (c + x - 1) / x,
    ;
    assert(q <= c) by (nonlinear_arith)
        requires
            x >= 1,
            c >= 1,
            q == (c + x - 1) / x,
    ;
    let y = max(q, 1);
    assert(x * y >= x * q) by (nonlinear_arith)
        requires
            x >= 1,
            y >= q,
    ;
}

/// Workgroups of the depth-reduce pass over `fine_tile_count` tiles (at
/// least one workgroup).
pub fn depth_reduce_workgroups(fine_tile_count: u32) -> (n: u32)
    ensures
        n == div_ceil(max(fine_tile_count as int, 1), DEPTH_REDUCE_WORKGROUP_SIZE as int),
{
    let c = if fine_tile_count < 1 { 1 } else { fine_tile_count };
    div_ceil_u32(c, DEPTH_REDUCE_WORKGROUP_SIZE)
}

/// The telemetry word of histogram bucket `bin`.
pub fn histogram_word(bin: u32) -> (word: u64)
    requires
        bin < TELEMETRY_HISTOGRAM_BINS,
    ensures
        word == TELEMETRY_HISTOGRAM_OFFSET_WORDS + bin,
{
    (TELEMETRY_HISTOGRAM_OFFSET_WORDS + bin) as u64
}

/// The telemetry word of field `field` of frustum `frustum_id`: the
/// per-frustum records follow the per-page counts.
pub fn frustum_telemetry_word(coarse_count_page_capacity: u32, frustum_id: u32, field: u64) -> (word: u64)
    requires
        field < FRUSTUM_TELEMETRY_STRIDE_WORDS,
    ensures
        word == TELEMETRY_PAGE_COUNTS_OFFSET_WORDS + coarse_count_page_capacity + frustum_id
            * FRUSTUM_TELEMETRY_STRIDE_WORDS + field,
{
    let base = TELEMETRY_PAGE_COUNTS_OFFSET_WORDS as u64 + coarse_count_page_capacity as u64;
    let f = frustum_id as u64;
    assert(f * 11 <= 0xffff_ffff * 11) by (nonlinear_arith)
        requires
            f <= 0xffff_ffff,
    ;
    base + f * FRUSTUM_TELEMETRY_STRIDE_WORDS as u64 + field
}

/// How fine binning lays segments out: scatter per segment, or build
/// per-page candidate lists (CSR).
#[derive(Clone, Copy, Debug, PartialEq, Eq, Structural)]
pub enum FineBinningBackend {
    SegmentScatter,
    PageCsr,
}

/// A buffer the prepass clears before it runs.
#[derive(Clone, Copy, Debug, PartialEq, Eq, Structural)]
pub enum PrepassBuffer {
    CoarseDepthLut,
    CoarseCountPageTable,
    CoarseCountPages,
    PageCandidateCounts,
    PageCandidateCursors,
    VirtualPageCandidateCounts,
    Telemetry,
    /// Only the first word (the counter) of the fine segment references.
    FineSegRefsCounter,
}

/// A compute stage of the prepass, in the order they run.
#[derive(Clone, Copy, Debug, PartialEq, Eq, Structural)]
pub enum PrepassStage {
    BroadInstances,
    BroadStrands,
    FinalizeFineDispatch,
    Fine,
    CoarseIntervals,
    DepthWarp,
    FinalizeBinningDispatch,
    MarkCountPages,
    AllocateCountPages,
    FinalizePrefixDispatch,
    Binning,
    PrefixFinePages,
    FillFineSegRefs,
    PrefixPageCandidates,
    ScatterPageCandidates,
    BuildFinePagesCsr,
    FinalizeTelemetry,
    EmitRasterWork,
    FinalizeRasterDispatch,
}

/// The buffers cleared: the coarse tables always, the page-candidate
/// buffers for the CSR backend, the telemetry when it is on, and last the
/// fine segment reference counter.
pub open spec fn prepass_clears(backend: FineBinningBackend, telemetry_enabled: bool) -> Seq<PrepassBuffer> {
    let coarse = seq![
        PrepassBuffer::CoarseDepthLut,
        PrepassBuffer::CoarseCountPageTable,
        PrepassBuffer::CoarseCountPages,
    ];
    let csr = if backend == FineBinningBackend::PageCsr {
        seq![
            PrepassBuffer::PageCandidateCounts,
            PrepassBuffer::PageCandidateCursors,
            PrepassBuffer::VirtualPageCandidateCounts,
        ]
    } else {
        Seq::empty()
    };
    let telemetry = if telemetry_enabled { seq![PrepassBuffer::Telemetry] } else { Seq::empty() };
    coarse + csr + telemetry + seq![PrepassBuffer::FineSegRefsCounter]
}

/// The stages run: the common chain up to the prefix dispatch, the three
/// stages of the backend, the telemetry finalisation when it is on, then
/// raster-work emission.
pub open spec fn prepass_stages(backend: FineBinningBackend, telemetry_enabled: bool) -> Seq<PrepassStage> {
    let common = seq![
        PrepassStage::BroadInstances,
        PrepassStage::BroadStrands,
        PrepassStage::FinalizeFineDispatch,
        PrepassStage::Fine,
        PrepassStage::CoarseIntervals,
        PrepassStage::DepthWarp,
        PrepassStage::FinalizeBinningDispatch,
        PrepassStage::MarkCountPages,
        PrepassStage::AllocateCountPages,
        PrepassStage::FinalizePrefixDispatch,
    ];
    let fine = match backend {
        FineBinningBackend::SegmentScatter => seq![
            PrepassStage::Binning,
            PrepassStage::PrefixFinePages,
            PrepassStage::FillFineSegRefs,
        ],
        FineBinningBackend::PageCsr => seq![
            PrepassStage::PrefixPageCandidates,
            PrepassStage::ScatterPageCandidates,
            PrepassStage::BuildFinePagesCsr,
        ],
    };
    let telemetry = if telemetry_enabled { seq![PrepassStage::FinalizeTelemetry] } else { Seq::empty() };
    common + fine + telemetry + seq![PrepassStage::EmitRasterWork, PrepassStage::FinalizeRasterDispatch]
}

/// The two indirect-dispatch argument buffers of the prepass.
#[derive(Clone, Copy, Debug, PartialEq, Eq, Structural)]
pub enum IndirectArgs {
    /// Sized from the fine and binning work.
    Main,
    /// Sized for the prefix passes.
    Prefix,
}

/// The indirect arguments a stage writes: the finalize stages.
pub open spec fn writes_indirect(stage: PrepassStage) -> Option<IndirectArgs> {
    match stage {
        PrepassStage::FinalizeFineDispatch | PrepassStage::FinalizeBinningDispatch => Some(IndirectArgs::Main),
        PrepassStage::FinalizePrefixDispatch => Some(IndirectArgs::Prefix),
        _ => None,
    }
}

/// The indirect arguments a stage is dispatched with, if it is dispatched
/// indirectly.
pub open spec fn reads_indirect(stage: PrepassStage) -> Option<IndirectArgs> {
    match stage {
        PrepassStage::Fine | PrepassStage::MarkCountPages | PrepassStage::Binning | PrepassStage::FillFineSegRefs
        | PrepassStage::ScatterPageCandidates => Some(IndirectArgs::Main),
        PrepassStage::PrefixFinePages | PrepassStage::BuildFinePagesCsr => Some(IndirectArgs::Prefix),
        _ => None,
    }
}

/// The stage whose arguments an indirect stage is meant to run with: the
/// fine stage with those of the fine work, the binning-side stages with
/// those of the binning work, the prefix stages with the prefix ones.
pub open spec fn finalizer_of(stage: PrepassStage) -> PrepassStage {
    match stage {
        PrepassStage::Fine => PrepassStage::FinalizeFineDispatch,
        PrepassStage::PrefixFinePages | PrepassStage::BuildFinePagesCsr => PrepassStage::FinalizePrefixDispatch,
        _ => PrepassStage::FinalizeBinningDispatch,
    }
}

/// In `stages`, the indirect stage at `j` runs with the arguments its
/// finalizer wrote: the finalizer ran at some `i` before it, and no stage
/// between rewrote that buffer.
pub open spec fn runs_with_finalized_args(stages: Seq<PrepassStage>, j: int) -> bool {
    exists|i: int|
        0 <= i < j && stages[i] == finalizer_of(stages[j]) && forall|k: int|
            i < k < j ==> writes_indirect(#[trigger] stages[k]) != reads_indirect(stages[j])
}

/// Every stage the prepass dispatches indirectly runs after the stage that
/// finalizes its arguments, with nothing rewriting them in between; and
/// every stage runs once.
pub proof fn lemma_indirect_stages_follow_finalizers(backend: FineBinningBackend, telemetry_enabled: bool)
    ensures
        ({
            let stages = prepass_stages(backend, telemetry_enabled);
            &&& forall|j: int|
                0 <= j < stages.len() && (#[trigger] reads_indirect(stages[j])) is Some ==> runs_with_finalized_args(
                    stages,
                    j,
                )
            &&& forall|a: int, b: int| 0 <= a < b < stages.len() ==> #[trigger] stages[a] != #[trigger] stages[b]
        }),
{
    let stages = prepass_stages(backend, telemetry_enabled);
    assert forall|j: int| 0 <= j < stages.len() && (#[trigger] reads_indirect(stages[j])) is Some implies runs_with_finalized_args(
        stages,
        j,
    ) by {
        let i: int = if j == 3 {
            2
        } else if stages[j] == PrepassStage::PrefixFinePages || stages[j] == PrepassStage::BuildFinePagesCsr {
            9
        } else {
            6
        };
        assert(0 <= i < j && stages[i] == finalizer_of(stages[j]));
        assert forall|k: int| i < k < j implies writes_indirect(#[trigger] stages[k]) != reads_indirect(stages[j]) by {
        }
    }
}

/// Whether the prepass runs `stage`: the stages of the chosen backend only,
/// the telemetry finalisation only with telemetry on, every other stage
/// always.
pub open spec fn stage_runs(stage: PrepassStage, backend: FineBinningBackend, telemetry_enabled: bool) -> bool {
    match stage {
        PrepassStage::Binning | PrepassStage::PrefixFinePages | PrepassStage::FillFineSegRefs => backend
            == FineBinningBackend::SegmentScatter,
        PrepassStage::PrefixPageCandidates | PrepassStage::ScatterPageCandidates | PrepassStage::BuildFinePagesCsr => backend
            == FineBinningBackend::PageCsr,
        PrepassStage::FinalizeTelemetry => telemetry_enabled,
        _ => true,
    }
}

/// Whether the prepass clears `buffer`: the page-candidate buffers only for
/// the page-list backend, the telemetry only with telemetry on, every other
/// buffer always.
pub open spec fn buffer_cleared(buffer: PrepassBuffer, backend: FineBinningBackend, telemetry_enabled: bool) -> bool {
    match buffer {
        PrepassBuffer::PageCandidateCounts | PrepassBuffer::PageCandidateCursors
        | PrepassBuffer::VirtualPageCandidateCounts => backend == FineBinningBackend::PageCsr,
        PrepassBuffer::Telemetry => telemetry_enabled,
        _ => true,
    }
}

/// The prepass runs exactly the stages it needs, each once, ending with
/// raster-work emission and then the finalisation of the raster dispatch;
/// and it clears exactly the buffers it needs, each once.
pub proof fn lemma_prepass_runs_what_it_needs(backend: FineBinningBackend, telemetry_enabled: bool)
    ensures
        ({
            let stages = prepass_stages(backend, telemetry_enabled);
            let clears = prepass_clears(backend, telemetry_enabled);
            &&& forall|st: PrepassStage| #[trigger] stages.contains(st) <==> stage_runs(st, backend, telemetry_enabled)
            &&& stages.last() == PrepassStage::FinalizeRasterDispatch
            &&& stages[stages.len() - 2] == PrepassStage::EmitRasterWork
            &&& forall|b: PrepassBuffer| #[trigger] clears.contains(b) <==> buffer_cleared(b, backend, telemetry_enabled)
            &&& forall|a: int, c: int| 0 <= a < c < clears.len() ==> #[trigger] clears[a] != #[trigger] clears[c]
        }),
{
    let stages = prepass_stages(backend, telemetry_enabled);
    let clears = prepass_clears(backend, telemetry_enabled);
    assert forall|st: PrepassStage| #[trigger] stages.contains(st) <==> stage_runs(st, backend, telemetry_enabled) by {
        if stage_runs(st, backend, telemetry_enabled) {
            let i: int = match st {
                PrepassStage::BroadInstances => 0,
                PrepassStage::BroadStrands => 1,
                PrepassStage::FinalizeFineDispatch => 2,
                PrepassStage::Fine => 3,
                PrepassStage::CoarseIntervals => 4,
                PrepassStage::DepthWarp => 5,
                PrepassStage::FinalizeBinningDispatch => 6,
                PrepassStage::MarkCountPages => 7,
                PrepassStage::AllocateCountPages => 8,
                PrepassStage::FinalizePrefixDispatch => 9,
                PrepassStage::Binning | PrepassStage::PrefixPageCandidates => 10,
                PrepassStage::PrefixFinePages | PrepassStage::ScatterPageCandidates => 11,
                PrepassStage::FillFineSegRefs | PrepassStage::BuildFinePagesCsr => 12,
                PrepassStage::FinalizeTelemetry => 13,
                PrepassStage::EmitRasterWork => stages.len() - 2,
                PrepassStage::FinalizeRasterDispatch => stages.len() - 1,
            };
            assert(stages[i] == st);
        }
    }
    assert forall|b: PrepassBuffer| #[trigger] clears.contains(b) <==> buffer_cleared(b, backend, telemetry_enabled) by {
        if buffer_cleared(b, backend, telemetry_enabled) {
            let csr: int = if backend == FineBinningBackend::PageCsr { 3 } else { 0 };
            let i: int = match b {
                PrepassBuffer::CoarseDepthLut => 0,
                PrepassBuffer::CoarseCountPageTable => 1,
                PrepassBuffer::CoarseCountPages => 2,
                PrepassBuffer::PageCandidateCounts => 3,
                PrepassBuffer::PageCandidateCursors => 4,
                PrepassBuffer::VirtualPageCandidateCounts => 5,
                PrepassBuffer::Telemetry => 3 + csr,
                PrepassBuffer::FineSegRefsCounter => clears.len() - 1,
            };
            assert(clears[i] == b);
        }
    }
}

/// Telemetry counters read back: six totals, the histogram, and one record
/// per frustum (none when telemetry is off).
pub open spec fn telemetry_records(telemetry_enabled: bool, frustum_count: u32) -> int {
    if telemetry_enabled {
        6 + TELEMETRY_HISTOGRAM_BINS + frustum_count * FRUSTUM_TELEMETRY_STRIDE_WORDS
    } else {
        0
    }
}

/// What the prepass records this frame.
#[derive(Clone, Debug)]
pub struct PrepassStagePlan {
    pub clears: Vec<PrepassBuffer>,
    pub stages: Vec<PrepassStage>,
    pub telemetry_records: u64,
}

/// The prepass of a frame. Nothing runs until the allocator's bind groups
/// exist. Then the buffers are cleared; the stages run only when every
/// pipeline is ready (`pipelines_ready`, one flag per pipeline), and the
/// telemetry counters are read back only after they ran.
pub fn plan_prepass_stages(
    allocator_ready: bool,
    pipelines_ready: &[bool],
    backend: FineBinningBackend,
    telemetry_enabled: bool,
    frustum_count: u32,
) -> (plan: Option<PrepassStagePlan>)
    ensures
        ({
            let ready = forall|i: int| 0 <= i < pipelines_ready@.len() ==> #[trigger] pipelines_ready@[i];
            match plan {
                None => !allocator_ready,
                Some(p) => {
                    &&& allocator_ready
                    &&& p.clears@ == prepass_clears(backend, telemetry_enabled)
                    &&& p.stages@ == (if ready { prepass_stages(backend, telemetry_enabled) } else { Seq::empty() })
                    &&& p.telemetry_records == (if ready { telemetry_records(telemetry_enabled, frustum_count) } else { 0 })
                },
            }
        }),
{
    if !allocator_ready {
        return None;
    }
    let mut clears: Vec<PrepassBuffer> = Vec::new();
    clears.push(PrepassBuffer::CoarseDepthLut);
    clears.push(PrepassBuffer::CoarseCountPageTable);
    clears.push(PrepassBuffer::CoarseCountPages);
    let csr = matches!(backend, FineBinningBackend::PageCsr);
    if csr {
        clears.push(PrepassBuffer::PageCandidateCounts);
        clears.push(PrepassBuffer::PageCandidateCursors);
        clears.push(PrepassBuffer::VirtualPageCandidateCounts);
    }
    if telemetry_enabled {
        clears.push(PrepassBuffer::Telemetry);
    }
    clears.push(PrepassBuffer::FineSegRefsCounter);
    proof {
        assert(clears@ =~= prepass_clears(backend, telemetry_enabled));
    }
    let mut ready = true;
    let mut i: usize = 0;
    while i < pipelines_ready.len()
        invariant
            0 <= i <= pipelines_ready@.len(),
            ready == forall|k: int| 0 <= k < i ==> #[trigger] pipelines_ready@[k],
        decreases pipelines_ready@.len() - i,
    {
        ready = ready && pipelines_ready[i];
        i = i + 1;
    }
    let mut stages: Vec<PrepassStage> = Vec::new();
    if !ready {
        return Some(PrepassStagePlan { clears, stages, telemetry_records: 0 });
    }
    stages.push(PrepassStage::BroadInstances);
    stages.push(PrepassStage::BroadStrands);
    stages.push(PrepassStage::FinalizeFineDispatch);
    stages.push(PrepassStage::Fine);
    stages.push(PrepassStage::CoarseIntervals);
    stages.push(PrepassStage::DepthWarp);
    stages.push(PrepassStage::FinalizeBinningDispatch);
    stages.push(PrepassStage::MarkCountPages);
    stages.push(PrepassStage::AllocateCountPages);
    stages.push(PrepassStage::FinalizePrefixDispatch);
    if csr {
        stages.push(PrepassStage::PrefixPageCandidates);
        stages.push(PrepassStage::ScatterPageCandidates);
        stages.push(PrepassStage::BuildFinePagesCsr);
    } else {
        stages.push(PrepassStage::Binning);
        stages.push(PrepassStage::PrefixFinePages);
        stages.push(PrepassStage::FillFineSegRefs);
    }
    if telemetry_enabled {
        stages.push(PrepassStage::FinalizeTelemetry);
    }
    stages.push(PrepassStage::EmitRasterWork);
    stages.push(PrepassStage::FinalizeRasterDispatch);
    proof {
        assert(stages@ =~= prepass_stages(backend, telemetry_enabled));
    }
    let f = frustum_count as u64;
    assert(f * 11 <= 0xffff_ffff * 11) by (nonlinear_arith)
        requires
            f <= 0xffff_ffff,
    ;
    let telemetry_records: u64 = if telemetry_enabled {
        6 + TELEMETRY_HISTOGRAM_BINS as u64 + f * FRUSTUM_TELEMETRY_STRIDE_WORDS as u64
    } else {
        0
    };
    Some(PrepassStagePlan { clears, stages, telemetry_records })
}

} // verus!
