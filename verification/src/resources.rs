//! Compute invocation settings, and when the render passes rebuild their
//! cached pipelines.
use vstd::prelude::*;

verus! {

/// Workgroup and dispatch sizes of the compute passes.
#[derive(Clone, Copy, Debug, PartialEq, Eq, Hash)]
pub struct ComputeInvocationDims {
    pub threads_per_workgroup: u32,
    pub subgroup_size: u32,
    pub dispatch_size: (u32, u32, u32),
}

impl Default for ComputeInvocationDims {
    fn default() -> (dims: Self)
        ensures
            dims.threads_per_workgroup == 256,
            dims.subgroup_size == 32,
            dims.dispatch_size == (32768u32, 1u32, 1u32),
    {
        ComputeInvocationDims { threads_per_workgroup: 256, subgroup_size: 32, dispatch_size: (32768, 1, 1) }
    }
}

/// The workgroup size the raster and shadow pipelines are built with: the
/// configured one, at least 1.
pub fn pipeline_workgroup_size(dims: &ComputeInvocationDims) -> (size: u32)
    ensures
        size == (if dims.threads_per_workgroup < 1 { 1 } else { dims.threads_per_workgroup }),
{
    if dims.threads_per_workgroup < 1 {
        1
    } else {
        dims.threads_per_workgroup
    }
}

/// What a cached pipeline was built for: the allocator's bind-group epoch,
/// the workgroup size and the texture counts of the shadow pools (0 where a
/// pipeline does not depend on one).
#[derive(Clone, Copy, Debug, PartialEq, Eq, Structural)]
pub struct PipelineKey {
    pub allocator_epoch: u64,
    pub workgroup_size: u32,
    pub opacity_count: u32,
    pub depth_count: u32,
}

impl PipelineKey {
    /// The key of a pipeline that was never built: no allocator epoch is
    /// `u64::MAX`.
    pub fn unbuilt() -> (key: PipelineKey)
        ensures
            key == (PipelineKey { allocator_epoch: u64::MAX, workgroup_size: 0, opacity_count: 0, depth_count: 0 }),
    {
        PipelineKey { allocator_epoch: u64::MAX, workgroup_size: 0, opacity_count: 0, depth_count: 0 }
    }
}

/// What to do with a cached pipeline this frame.
#[derive(Clone, Copy, Debug, PartialEq, Eq, Structural)]
pub enum PipelineRefresh {
    /// It is built for the current key.
    Keep,
    /// It is stale, but the allocator's layouts are not ready yet.
    Wait,
    /// Queue it anew for the current key.
    Rebuild,
}

/// Keep a built pipeline whose key is current; else rebuild it once the
/// allocator's bind-group layouts exist.
pub fn pipeline_refresh(has_pipeline: bool, cached: PipelineKey, current: PipelineKey, layouts_ready: bool) -> (r:
    PipelineRefresh)
    ensures
        r == (if has_pipeline && cached == current {
            PipelineRefresh::Keep
        } else if !layouts_ready {
            PipelineRefresh::Wait
        } else {
            PipelineRefresh::Rebuild
        }),
{
    if has_pipeline && cached.allocator_epoch == current.allocator_epoch && cached.workgroup_size
        == current.workgroup_size && cached.opacity_count == current.opacity_count && cached.depth_count
        == current.depth_count {
        PipelineRefresh::Keep
    } else if !layouts_ready {
        PipelineRefresh::Wait
    } else {
        PipelineRefresh::Rebuild
    }
}

/// The prepass's variant: it remembers the invocation settings and epoch it
/// last queued its pipelines for, and queues again (recording the new
/// state) when they changed and the allocator's layouts exist.
pub fn prepass_pipeline_refresh(
    last: &mut Option<(ComputeInvocationDims, u64)>,
    dims: ComputeInvocationDims,
    allocator_epoch: u64,
    layouts_ready: bool,
) -> (requeue: bool)
    ensures
        requeue == (*old(last) != Some((dims, allocator_epoch)) && layouts_ready),
        *final(last) == (if requeue {
            Some((dims, allocator_epoch))
        } else {
            *old(last)
        }),
{
    let same = match last {
        Some((d, e)) => d.threads_per_workgroup == dims.threads_per_workgroup && d.subgroup_size
            == dims.subgroup_size && d.dispatch_size.0 == dims.dispatch_size.0 && d.dispatch_size.1
            == dims.dispatch_size.1 && d.dispatch_size.2 == dims.dispatch_size.2 && *e == allocator_epoch,
        None => false,
    };
    if same || !layouts_ready {
        return false;
    }
    *last = Some((dims, allocator_epoch));
    true
}

} // verus!
