//! Per-frame decisions of the render passes: whether the opaque depth is
//! reduced into fine tiles, and which shadow cascades get the strands'
//! depth stamped back.
use vstd::prelude::*;
use crate::froxel::FroxelConfig;
use crate::frusta::{count_below, frustum_id_of};
use crate::math::{div_ceil, div_ceil_u32, saturating_mul_u32, saturating_mul_u32_exec};

verus! {

/// What the work-preparation pass does with the opaque fine-depth tiles.
#[derive(Clone, Copy, Debug, PartialEq, Eq, Structural)]
pub enum DepthReduceAction {
    /// Reduce the view's prepass depth into `fine_tile_count` tiles of
    /// frustum `frustum_id`.
    Reduce { frustum_id: u32, fine_tile_count: u32 },
    /// Clear the tiles.
    Clear,
    /// Leave them.
    Skip,
}

/// Fine depth tiles of a froxel grid: tiles across times tiles down,
/// capped at `u32::MAX`.
pub open spec fn fine_depth_tiles(config: FroxelConfig) -> int {
    saturating_mul_u32(
        div_ceil(config.screen_width as int, config.froxel_size_x as int),
        div_ceil(config.screen_height as int, config.froxel_size_y as int),
    )
}

fn fine_tile_count(config: &FroxelConfig) -> (n: u32)
    requires
        config.froxel_size_x > 0,
        config.froxel_size_y > 0,
    ensures
        n == fine_depth_tiles(*config),
{
    let x = div_ceil_u32(config.screen_width, config.froxel_size_x);
    let y = div_ceil_u32(config.screen_height, config.froxel_size_y);
    saturating_mul_u32_exec(x, y)
}

/// The depth-reduce decision of a view. With prepass depth, a frustum id
/// and the tile buffer, the view's grid (if it has one) is reduced when the
/// reduce bind group could be made and cleared when not; without all three
/// the buffer is cleared if it exists.
pub fn depth_reduce_action(
    has_prepass_depth: bool,
    frustum_id: Option<u32>,
    has_tile_buffer: bool,
    config: Option<FroxelConfig>,
    bind_group_ready: bool,
) -> (action: DepthReduceAction)
    requires
        config matches Some(c) ==> c.froxel_size_x > 0 && c.froxel_size_y > 0,
    ensures
        action == (if has_prepass_depth && frustum_id is Some && has_tile_buffer {
            match config {
                Some(c) => if bind_group_ready {
                    DepthReduceAction::Reduce {
                        frustum_id: frustum_id->0,
                        fine_tile_count: fine_depth_tiles(c) as u32,
                    }
                } else {
                    DepthReduceAction::Clear
                },
                None => DepthReduceAction::Skip,
            }
        } else if has_tile_buffer {
            DepthReduceAction::Clear
        } else {
            DepthReduceAction::Skip
        }),
{
    match frustum_id {
        Some(id) if has_prepass_depth && has_tile_buffer => match config {
            Some(c) => {
                if bind_group_ready {
                    DepthReduceAction::Reduce { frustum_id: id, fine_tile_count: fine_tile_count(&c) }
                } else {
                    DepthReduceAction::Clear
                }
            },
            None => DepthReduceAction::Skip,
        },
        _ => {
            if has_tile_buffer {
                DepthReduceAction::Clear
            } else {
                DepthReduceAction::Skip
            }
        },
    }
}

/// A shadow cascade whose depth gets the strands stamped back: its
/// frustum, its light (by entity bits) and which cascade of the light.
#[derive(Clone, Copy, Debug, PartialEq, Eq, Structural)]
pub struct ShadowStampTarget {
    pub frustum_id: u32,
    pub light_entity: u64,
    pub cascade_index: u32,
}

/// A directional-light cascade view of the current view that has its
/// shadow and extracted views.
#[derive(Clone, Copy, Debug, PartialEq, Eq, Structural)]
pub struct CascadeView {
    pub light_entity: u64,
    pub cascade_index: u32,
}

/// The view of a target: it matches the light and the cascade.
pub open spec fn is_view_of(t: ShadowStampTarget, v: Option<CascadeView>) -> bool {
    v matches Some(c) && c.light_entity == t.light_entity && c.cascade_index == t.cascade_index
}

/// The first of `views` from `from` on that is a view of `t`.
pub open spec fn first_view_of(t: ShadowStampTarget, views: Seq<Option<CascadeView>>, from: int) -> Option<
    int,
>
    decreases views.len() - from,
{
    if from < 0 || from >= views.len() {
        None
    } else if is_view_of(t, views[from]) {
        Some(from)
    } else {
        first_view_of(t, views, from + 1)
    }
}

/// The stamp passes for `targets`, in order: each target of an existing
/// frustum that has a view, with the first such view.
pub open spec fn stamp_passes(
    targets: Seq<ShadowStampTarget>,
    frustum_count: u32,
    views: Seq<Option<CascadeView>>,
) -> Seq<(int, int)>
    decreases targets.len(),
{
    if targets.len() == 0 {
        Seq::empty()
    } else {
        let before = stamp_passes(targets.drop_last(), frustum_count, views);
        let t = targets.last();
        if t.frustum_id < frustum_count {
            match first_view_of(t, views, 0) {
                Some(j) => before.push((targets.len() - 1, j)),
                None => before,
            }
        } else {
            before
        }
    }
}

fn find_view(t: ShadowStampTarget, views: &[Option<CascadeView>]) -> (found: Option<usize>)
    ensures
        match found {
            Some(j) => first_view_of(t, views@, 0) == Some(j as int),
            None => first_view_of(t, views@, 0) is None,
        },
{
    let mut j: usize = 0;
    while j < views.len()
        invariant
            0 <= j <= views@.len(),
            first_view_of(t, views@, 0) == first_view_of(t, views@, j as int),
        decreases views@.len() - j,
    {
        match views[j] {
            Some(c) => {
                if c.light_entity == t.light_entity && c.cascade_index == t.cascade_index {
                    return Some(j);
                }
            },
            None => {},
        }
        j = j + 1;
    }
    None
}

/// Pairs each stamp target with the cascade view it stamps into: targets
/// whose frustum does not exist this frame, or that have no view, are
/// skipped. Each pair is (target index, view index).
pub fn plan_shadow_stamps(
    targets: &[ShadowStampTarget],
    frustum_count: u32,
    views: &[Option<CascadeView>],
) -> (plan: Vec<(usize, usize)>)
    ensures
        plan@.len() == stamp_passes(targets@, frustum_count, views@).len(),
        forall|i: int|
            0 <= i < plan@.len() ==> (#[trigger] plan@[i]).0 as int == stamp_passes(
                targets@,
                frustum_count,
                views@,
            )[i].0 && plan@[i].1 as int == stamp_passes(targets@, frustum_count, views@)[i].1,
{
    let mut plan: Vec<(usize, usize)> = Vec::new();
    let mut i: usize = 0;
    while i < targets.len()
        invariant
            0 <= i <= targets@.len(),
            plan@.len() == stamp_passes(targets@.take(i as int), frustum_count, views@).len(),
            forall|k: int|
                0 <= k < plan@.len() ==> (#[trigger] plan@[k]).0 as int == stamp_passes(
                    targets@.take(i as int),
                    frustum_count,
                    views@,
                )[k].0 && plan@[k].1 as int == stamp_passes(
                    targets@.take(i as int),
                    frustum_count,
                    views@,
                )[k].1,
        decreases targets@.len() - i,
    {
        let t = targets[i];
        proof {
            assert(targets@.take(i + 1).drop_last() =~= targets@.take(i as int));
            assert(targets@.take(i + 1).last() == t);
        }
        if t.frustum_id < frustum_count {
            match find_view(t, views) {
                Some(j) => {
                    plan.push((i, j));
                },
                None => {},
            }
        }
        i = i + 1;
    }
    proof {
        assert(targets@.take(targets@.len() as int) =~= targets@);
    }
    plan
}

/// The render-graph node that overlays the froxel occupancy of a view.
#[derive(Clone, Copy, Debug, Default)]
pub struct TileDebugNode;

/// The label of [`TileDebugNode`] in the render graph.
#[derive(Clone, Copy, Debug, PartialEq, Eq, Hash, Structural)]
pub struct TileDebugLabel;

impl TileDebugNode {
    /// The frustum whose tiles the overlay shows for the view with entity
    /// index `view`: none while the overlay is disabled or when the view
    /// has no frustum; else its id among `frusta` (entity indices).
    pub fn overlay_frustum(&self, enabled: bool, view: u32, frusta: &[u32]) -> (id: Option<u32>)
        requires
            frusta@.len() <= u32::MAX,
        ensures
            id == (if enabled && frusta@.contains(view) {
                Some(count_below(frusta@, view) as u32)
            } else {
                None
            }),
    {
        if !enabled {
            return None;
        }
        frustum_id_of(view, frusta)
    }
}

} // verus!
