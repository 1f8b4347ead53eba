//! Splitting a compute dispatch that is wider than the device allows, and
//! the load/run decisions of the sorting and spatial-hashing passes.
use vstd::prelude::*;
use crate::math::div_ceil;
use crate::math::div_ceil_u32;

verus! {

/// One `dispatch_workgroups(x, y, 1)` call, preceded by writing
/// `workgroup_offset` into the push constants.
#[derive(Clone, Copy, Debug, PartialEq, Eq)]
pub struct WorkgroupDispatch {
    pub workgroup_offset: u32,
    pub x: u32,
    pub y: u32,
}

/// The calls that cover `number_of_workgroups` workgroups: one when it fits
/// in a dimension, else a `max x (n / max)` grid and a one-row tail for
/// the rest, which starts at workgroup `max * (n / max)`.
pub open spec fn workgroup_dispatches(number_of_workgroups: u32, max_per_dimension: u32) -> Seq<
    WorkgroupDispatch,
> {
    if number_of_workgroups <= max_per_dimension {
        seq![WorkgroupDispatch { workgroup_offset: 0, x: number_of_workgroups, y: 1 }]
    } else {
        let d = number_of_workgroups / max_per_dimension;
        let offset = (max_per_dimension * d) as u32;
        seq![
            WorkgroupDispatch { workgroup_offset: 0, x: max_per_dimension, y: d },
            WorkgroupDispatch {
                workgroup_offset: offset,
                x: (number_of_workgroups - offset) as u32,
                y: 1,
            },
        ]
    }
}

/// The workgroups a call covers, counted from its offset.
pub open spec fn covered(d: WorkgroupDispatch) -> int {
    d.x * d.y
}

/// Plans the dispatch of `number_of_workgroups` workgroups on a device that
/// allows `max_per_dimension` per dimension.
pub fn plan_workgroup_dispatch(number_of_workgroups: u32, max_per_dimension: u32) -> (plan: Vec<
    WorkgroupDispatch,
>)
    requires
        max_per_dimension > 0 || number_of_workgroups == 0,
    ensures
        plan@ == workgroup_dispatches(number_of_workgroups, max_per_dimension),
{
    let mut plan: Vec<WorkgroupDispatch> = Vec::new();
    if number_of_workgroups <= max_per_dimension {
        plan.push(WorkgroupDispatch { workgroup_offset: 0, x: number_of_workgroups, y: 1 });
    } else {
        let d = number_of_workgroups / max_per_dimension;
        proof {
            assert(max_per_dimension * d <= number_of_workgroups) by (nonlinear_arith)
                requires
                    max_per_dimension > 0,
                    d == number_of_workgroups / max_per_dimension,
            ;
        }
        let workgroup_offset = max_per_dimension * d;
        plan.push(WorkgroupDispatch { workgroup_offset: 0, x: max_per_dimension, y: d });
        plan.push(
            WorkgroupDispatch {
                workgroup_offset,
                x: number_of_workgroups - workgroup_offset,
                y: 1,
            },
        );
    }
    proof {
        assert(plan@ =~= workgroup_dispatches(number_of_workgroups, max_per_dimension));
    }
    plan
}

/// The planned calls cover every workgroup exactly once: the first starts
/// at 0, each next one starts where the last ended, and together they
/// cover `number_of_workgroups`; no call is wider than the device allows.
pub proof fn lemma_dispatch_covers_all(number_of_workgroups: u32, max_per_dimension: u32)
    requires
        max_per_dimension > 0 || number_of_workgroups == 0,
    ensures
        ({
            let plan = workgroup_dispatches(number_of_workgroups, max_per_dimension);
            &&& plan[0].workgroup_offset == 0
            &&& forall|i: int|
                0 <= i < plan.len() - 1 ==> #[trigger] plan[i + 1].workgroup_offset == plan[i].workgroup_offset
                    + covered(plan[i])
            &&& plan.last().workgroup_offset + covered(plan.last()) == number_of_workgroups
            &&& forall|i: int| 0 <= i < plan.len() ==> #[trigger] plan[i].x <= max_per_dimension
        }),
{
    let n = number_of_workgroups;
    let m = max_per_dimension;
    if n > m {
        let d = n / m;
        assert(m * d <= n && n - m * d < m) by (nonlinear_arith)
            requires
                m > 0,
                d == n / m,
        ;
        let plan = workgroup_dispatches(n, m);
        assert(plan.len() == 2);
        assert(plan[1].workgroup_offset == m * d);
        assert(plan[1].x == n - m * d);
        assert(covered(plan[0]) == m * d);
        let tail = plan[1];
        assert(tail.y == 1);
        assert(tail.x * tail.y == tail.x) by (nonlinear_arith)
            requires
                tail.y == 1,
        ;
        assert(plan.last() == plan[1]);
    } else {
        let plan = workgroup_dispatches(n, m);
        assert(plan.len() == 1);
        assert(plan.last() == plan[0]);
        assert(covered(plan[0]) == n);
    }
}

/// Threads per workgroup of the spatial-hashing passes.
pub const SPATIAL_HASHING_THREADS_PER_WORKGROUP: u32 = 256;

/// Workgroups that the spatial-hashing passes dispatch for `number_of_keys`
/// keys: one thread per key.
pub fn spatial_hashing_workgroups(number_of_keys: u32) -> (n: u32)
    ensures
        n == div_ceil(number_of_keys as int, SPATIAL_HASHING_THREADS_PER_WORKGROUP as int),
{
    div_ceil_u32(number_of_keys, SPATIAL_HASHING_THREADS_PER_WORKGROUP)
}

/// The state of one cached compute pipeline.
#[derive(Clone, Debug, PartialEq, Eq)]
pub enum PipelineStatus {
    /// Still queued or being created.
    Pending,
    Ready,
    /// Creation failed, with the pipeline cache's message.
    Failed(String),
}

/// Whether the spatial-hashing passes can run.
#[derive(Clone, Debug, PartialEq, Eq)]
pub enum SpatialHashingLoadState {
    OnLoad,
    Loaded,
    /// The zeroing pipeline failed, with its message.
    ZeroingFailed(String),
    /// The hashing pipeline failed, with its message.
    HashingFailed(String),
}

/// The load state of the spatial-hashing passes from the states of their
/// two pipelines: a failure of the zeroing pipeline first, then one of the
/// hashing pipeline; loaded when both are ready; else still loading.
pub fn spatial_hashing_load_state(zeroing: PipelineStatus, hashing: PipelineStatus) -> (s:
    SpatialHashingLoadState)
    ensures
        s == (match (zeroing, hashing) {
            (PipelineStatus::Failed(e), _) => SpatialHashingLoadState::ZeroingFailed(e),
            (_, PipelineStatus::Failed(e)) => SpatialHashingLoadState::HashingFailed(e),
            (PipelineStatus::Ready, PipelineStatus::Ready) => SpatialHashingLoadState::Loaded,
            _ => SpatialHashingLoadState::OnLoad,
        }),
{
    match (zeroing, hashing) {
        (PipelineStatus::Failed(e), _) => SpatialHashingLoadState::ZeroingFailed(e),
        (_, PipelineStatus::Failed(e)) => SpatialHashingLoadState::HashingFailed(e),
        (PipelineStatus::Ready, PipelineStatus::Ready) => SpatialHashingLoadState::Loaded,
        _ => SpatialHashingLoadState::OnLoad,
    }
}

/// A request to sort `length` key/value pairs on the GPU.
#[derive(Clone, Copy, Debug, Default, PartialEq, Eq)]
pub struct SortCommand {
    pub requested: bool,
    pub length: usize,
}

/// Whether the radix-sort pipelines have loaded.
#[derive(Clone, Copy, Debug, Default, PartialEq, Eq, Structural)]
pub enum SimpleGpuSortState {
    #[default]
    OnLoad,
    Loaded,
}

/// The radix-sort crate's own load state, without its failure message.
#[derive(Clone, Copy, Debug, PartialEq, Eq, Structural)]
pub enum SortLoadState {
    OnLoad,
    Loaded,
    Failed,
}

/// The render-graph node that sorts keys and values on request.
#[derive(Clone, Copy, Debug, Default, PartialEq, Eq)]
pub struct SimpleGpuSortNode {
    pub state: SimpleGpuSortState,
}

impl SimpleGpuSortNode {
    /// Moves to `Loaded` once the sort pipelines report loaded; a node that
    /// has loaded stays so. A failed load while loading is a fatal error of
    /// the caller's, so it is not accepted here.
    pub fn update(&mut self, load: SortLoadState)
        requires
            old(self).state == SimpleGpuSortState::OnLoad ==> load != SortLoadState::Failed,
        ensures
            final(self).state == (if old(self).state == SimpleGpuSortState::OnLoad && load
                == SortLoadState::Loaded {
                SimpleGpuSortState::Loaded
            } else {
                old(self).state
            }),
    {
        if matches!(self.state, SimpleGpuSortState::OnLoad) && matches!(load, SortLoadState::Loaded) {
            self.state = SimpleGpuSortState::Loaded;
        }
    }

    /// Whether a run sorts: only once loaded, and only when a sort was
    /// requested.
    pub fn should_run(&self, command: SortCommand) -> (run: bool)
        ensures
            run == (self.state == SimpleGpuSortState::Loaded && command.requested),
    {
        self.state == SimpleGpuSortState::Loaded && command.requested
    }
}

/// Bytes copied to and from the sort's staging buffers: four per key.
pub fn sort_copy_bytes(length: usize) -> (bytes: u64)
    requires
        length * 4 <= usize::MAX,
    ensures
        bytes == length * 4,
{
    (length * 4) as u64
}

/// Threads per workgroup of the shading pass (one per binning task).
pub const SHADING_WORKGROUP_SIZE: u32 = 128;

/// Widest grid dimension of the shading pass.
pub const SHADING_MAX_DIMENSION: u32 = 65_535;

/// The shading dispatch: an `x` by `y` grid, and the workgroup offset of a
/// row pushed to the shader.
#[derive(Clone, Copy, Debug, PartialEq, Eq)]
pub struct ShadingDispatch {
    pub x: u32,
    pub y: u32,
    pub workgroup_offset: u32,
}

/// The shading dispatch for `task_capacity` binning tasks: rows of at most
/// [`SHADING_MAX_DIMENSION`] workgroups; nothing when there is no task or
/// the grid would need more rows than a dimension allows.
pub open spec fn shading_dispatch(task_capacity: u32) -> Option<ShadingDispatch> {
    let total = div_ceil(task_capacity as int, SHADING_WORKGROUP_SIZE as int);
    let x = if total < SHADING_MAX_DIMENSION { total } else { SHADING_MAX_DIMENSION as int };
    if task_capacity == 0 || total == 0 {
        None
    } else {
        let y = div_ceil(total, x);
        if y > SHADING_MAX_DIMENSION {
            None
        } else {
            Some(
                ShadingDispatch {
                    x: x as u32,
                    y: y as u32,
                    workgroup_offset: crate::math::saturating_mul_u32(x, SHADING_WORKGROUP_SIZE as int) as u32,
                },
            )
        }
    }
}

/// Plans the shading dispatch (see [`shading_dispatch`]).
pub fn plan_shading_dispatch(task_capacity: u32) -> (d: Option<ShadingDispatch>)
    ensures
        d == shading_dispatch(task_capacity),
{
    if task_capacity == 0 {
        return None;
    }
    let total = div_ceil_u32(task_capacity, SHADING_WORKGROUP_SIZE);
    if total == 0 {
        return None;
    }
    let x = if total < SHADING_MAX_DIMENSION { total } else { SHADING_MAX_DIMENSION };
    let y = div_ceil_u32(total, x);
    if y > SHADING_MAX_DIMENSION {
        return None;
    }
    Some(
        ShadingDispatch {
            x,
            y,
            workgroup_offset: crate::math::saturating_mul_u32_exec(x, SHADING_WORKGROUP_SIZE),
        },
    )
}

/// A planned shading grid runs a thread for every task, in rows no wider
/// than a dimension allows.
pub proof fn lemma_shading_dispatch_covers(task_capacity: u32)
    ensures
        shading_dispatch(task_capacity) matches Some(d) ==> {
            &&& 1 <= d.x <= SHADING_MAX_DIMENSION
            &&& 1 <= d.y <= SHADING_MAX_DIMENSION
            &&& d.x * d.y * SHADING_WORKGROUP_SIZE >= task_capacity
        },
{
    let total = div_ceil(task_capacity as int, SHADING_WORKGROUP_SIZE as int);
    let x = if total < SHADING_MAX_DIMENSION { total } else { SHADING_MAX_DIMENSION as int };
    if task_capacity != 0 && total != 0 {
        let y = div_ceil(total, x);
        assert(total * 128 >= task_capacity) by (nonlinear_arith)
            requires
                total == (task_capacity + 128 - 1) / 128,
        ;
        assert(x * y >= total) by (nonlinear_arith)
            requires
                x >= 1,
                y == (total + x - 1) / x,
        ;
        assert(x * y * 128 >= total * 128) by (nonlinear_arith)
            requires
                x * y >= total,
        ;
        assert(y >= 1) by (nonlinear_arith)
            requires
                x >= 1,
                total >= 1,
                y == (total + x - 1) / x,
        ;
    }
}

/// The shadow-history state of the shading pass: which of the two history
/// textures is current, and whether both must be cleared first.
#[derive(Clone, Copy, Debug, PartialEq, Eq)]
pub struct ShadowHistory {
    pub index: u32,
    pub needs_clear: bool,
}

/// What one shading frame does.
#[derive(Clone, Copy, Debug, PartialEq, Eq)]
pub struct ShadingFrame {
    pub dispatch: ShadingDispatch,
    /// Clear the history textures before dispatching.
    pub clear_history: bool,
}

impl ShadowHistory {
    /// New history textures were made: the first is current and both must
    /// be cleared before use.
    pub fn reset(&mut self)
        ensures
            *final(self) == (ShadowHistory { index: 0, needs_clear: true }),
    {
        self.index = 0;
        self.needs_clear = true;
    }

    /// Runs one shading frame for `task_capacity` binning tasks. With no
    /// dispatch (see [`shading_dispatch`]) nothing happens. Otherwise the
    /// history textures are cleared first if they need it (and then no
    /// longer do), and after the dispatch the other history texture
    /// becomes current (`index ^ 1`).
    pub fn shading_frame(&mut self, task_capacity: u32) -> (frame: Option<ShadingFrame>)
        ensures
            match shading_dispatch(task_capacity) {
                None => frame is None && *final(self) == *old(self),
                Some(d) => {
                    &&& frame == Some(ShadingFrame { dispatch: d, clear_history: old(self).needs_clear })
                    &&& final(self).needs_clear == false
                    &&& final(self).index == old(self).index ^ 1
                },
            },
    {
        match plan_shading_dispatch(task_capacity) {
            None => None,
            Some(d) => {
                let clear_history = self.needs_clear;
                self.needs_clear = false;
                self.index = self.index ^ 1;
                Some(ShadingFrame { dispatch: d, clear_history })
            },
        }
    }
}

} // verus!
