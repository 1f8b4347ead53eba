//! Froxel (frustum voxel) grids: how a view or light is cut into screen
//! tiles and depth slices, how raster targets follow the view size, and
//! how the binning buffers are sized for a grid.
use crate::math::{div_ceil, max, next_power_of_two, next_power_of_two_u32, saturating_mul_u32};
use vstd::prelude::*;

verus! {

/// A two-dimensional size or tile count.
#[derive(Clone, Copy, Debug, PartialEq, Eq, Default)]
pub struct UVec2 {
    pub x: u32,
    pub y: u32,
}

/// The froxel grid of a view: screen size, tile size and depth slices.
#[derive(Clone, Copy, Debug)]
pub struct FroxelConfig {
    pub screen_width: u32,
    pub screen_height: u32,
    pub froxel_size_x: u32,
    pub froxel_size_y: u32,
    pub depth_slices: u32,
}

impl Default for FroxelConfig {
    fn default() -> (config: Self)
        ensures
            config.screen_width == 1920,
            config.screen_height == 1080,
            config.froxel_size_x == 8,
            config.froxel_size_y == 8,
            config.depth_slices == 64,
    {
        FroxelConfig {
            screen_width: 1920,
            screen_height: 1080,
            froxel_size_x: 8,
            froxel_size_y: 8,
            depth_slices: 64,
        }
    }
}

impl FroxelConfig {
    /// The grid can be counted in `u32` without overflow: tile sizes are
    /// positive, screen size plus tile size fits, and so do the tiles
    /// across times the tiles down and that times the depth slices.
    pub open spec fn counts_fit(self) -> bool {
        &&& self.froxel_size_x > 0
        &&& self.froxel_size_y > 0
        &&& self.screen_width + self.froxel_size_x <= u32::MAX
        &&& self.screen_height + self.froxel_size_y <= u32::MAX
        &&& self.spec_tiles_x() * self.spec_tiles_y() <= u32::MAX
        &&& self.spec_tiles_x() * self.spec_tiles_y() * self.depth_slices <= u32::MAX
    }

    /// Whether [`FroxelConfig::counts_fit`] holds.
    pub fn counts_fit_exec(&self) -> (fits: bool)
        ensures
            fits == self.counts_fit(),
    {
        if self.froxel_size_x == 0 || self.froxel_size_y == 0 {
            return false;
        }
        if self.screen_width > u32::MAX - self.froxel_size_x || self.screen_height > u32::MAX
            - self.froxel_size_y {
            return false;
        }
        let tx = ((self.screen_width + self.froxel_size_x - 1) / self.froxel_size_x) as u64;
        let ty = ((self.screen_height + self.froxel_size_y - 1) / self.froxel_size_y) as u64;
        assert(tx * ty <= 0xffff_ffff * 0xffff_ffff) by (nonlinear_arith)
            requires
                tx <= 0xffff_ffff,
                ty <= 0xffff_ffff,
        ;
        let area = tx * ty;
        if area > u32::MAX as u64 {
            return false;
        }
        assert(area * (self.depth_slices as u64) <= 0xffff_ffff * 0xffff_ffff) by (nonlinear_arith)
            requires
                area <= 0xffff_ffff,
                self.depth_slices <= 0xffff_ffff,
        ;
        area * (self.depth_slices as u64) <= u32::MAX as u64
    }

    /// Tiles across: the screen width divided by the tile width, rounded up.
    pub open spec fn spec_tiles_x(self) -> int {
        (self.screen_width + self.froxel_size_x - 1) / self.froxel_size_x as int
    }

    /// Tiles down: the screen height divided by the tile height, rounded up.
    pub open spec fn spec_tiles_y(self) -> int {
        (self.screen_height + self.froxel_size_y - 1) / self.froxel_size_y as int
    }

    /// Tiles across and down, and the number of froxels (tiles times depth
    /// slices).
    pub fn get_num_tiles(&self) -> (tiles: (u32, u32, u32))
        requires
            self.counts_fit(),
        ensures
            tiles.0 == self.spec_tiles_x(),
            tiles.1 == self.spec_tiles_y(),
            tiles.2 == self.spec_tiles_x() * self.spec_tiles_y() * self.depth_slices,
    {
        let num_tiles_x = (self.screen_width + self.froxel_size_x - 1) / self.froxel_size_x;
        let num_tiles_y = (self.screen_height + self.froxel_size_y - 1) / self.froxel_size_y;
        (num_tiles_x, num_tiles_y, num_tiles_x * num_tiles_y * self.depth_slices)
    }
}

/// The tiles of a grid cover its screen: tiles across times tile width
/// reaches the screen width, and one tile fewer would not.
pub proof fn lemma_tiles_cover_screen(config: FroxelConfig)
    requires
        config.froxel_size_x > 0,
        config.froxel_size_y > 0,
    ensures
        config.spec_tiles_x() * config.froxel_size_x >= config.screen_width,
        (config.spec_tiles_x() - 1) * config.froxel_size_x < config.screen_width || config.spec_tiles_x() == 0,
        config.spec_tiles_y() * config.froxel_size_y >= config.screen_height,
        (config.spec_tiles_y() - 1) * config.froxel_size_y < config.screen_height || config.spec_tiles_y() == 0,
{
    let w = config.screen_width as int;
    let fx = config.froxel_size_x as int;
    let h = config.screen_height as int;
    let fy = config.froxel_size_y as int;
    assert((w + fx - 1) / fx * fx >= w && ((w + fx - 1) / fx - 1) * fx < w) by (nonlinear_arith)
        requires
            fx > 0,
            w >= 0,
    ;
    assert((h + fy - 1) / fy * fy >= h && ((h + fy - 1) / fy - 1) * fy < h) by (nonlinear_arith)
        requires
            fy > 0,
            h >= 0,
    ;
}

/// Grown capacities of the binning buffers of a view.
#[derive(Clone, Copy, Debug)]
pub struct FroxelCapacity {
    pub tiles_cap_x: u32,
    pub tiles_cap_y: u32,
    pub depth_cap: u32,
    pub tiles_capacity: u64,
    pub packed_capacity_bytes: u64,
}

/// How the raster resolution follows the view.
#[derive(Clone, Copy, Debug, PartialEq, Eq)]
pub enum TieFroxelsToView {
    /// Raster at exactly the view resolution.
    Native,
    /// Raster at the view resolution times `numerator / denominator`
    /// (a zero denominator counts as one).
    Scaled { numerator: u32, denominator: u32 },
    /// Raster at a fixed internal size.
    Fixed(UVec2),
}

/// The capacity of a grid dimension: `active` rounded up to a power of
/// two, at least 8.
pub open spec fn grown_dim(active: u32) -> int {
    max(next_power_of_two(active as int), 8)
}

/// Ensures the binning capacity covers the active tile counts and depth
/// slices. When a rounded-up dimension or the depth exceeds what `cap`
/// holds, all three are replaced (a dimension can thereby shrink) and the
/// tile capacity recomputed; the result says whether that happened.
pub fn grow_to_capacity(active: UVec2, cap: &mut FroxelCapacity, depth_slices: u32) -> (need_realloc: bool)
    requires
        next_power_of_two(active.x as int) <= u32::MAX,
        next_power_of_two(active.y as int) <= u32::MAX,
        grown_dim(active.x) * grown_dim(active.y) * depth_slices <= u64::MAX,
    ensures
        need_realloc == (grown_dim(active.x) > old(cap).tiles_cap_x || grown_dim(active.y)
            > old(cap).tiles_cap_y || depth_slices > old(cap).depth_cap),
        need_realloc ==> {
            &&& final(cap).tiles_cap_x == grown_dim(active.x)
            &&& final(cap).tiles_cap_y == grown_dim(active.y)
            &&& final(cap).depth_cap == depth_slices
            &&& final(cap).tiles_capacity == grown_dim(active.x) * grown_dim(active.y) * depth_slices
            &&& final(cap).packed_capacity_bytes == old(cap).packed_capacity_bytes
        },
        !need_realloc ==> *final(cap) == *old(cap),
        final(cap).tiles_cap_x >= active.x,
        final(cap).tiles_cap_y >= active.y,
        final(cap).depth_cap >= depth_slices,
{
    proof {
        crate::math::lemma_next_power_of_two(active.x as int);
        crate::math::lemma_next_power_of_two(active.y as int);
    }
    let px = next_power_of_two_u32(active.x);
    let py = next_power_of_two_u32(active.y);
    let target_cap_x = if px >= 8 {
        px
    } else {
        8
    };
    let target_cap_y = if py >= 8 {
        py
    } else {
        8
    };
    if target_cap_x > cap.tiles_cap_x || target_cap_y > cap.tiles_cap_y || depth_slices > cap.depth_cap {
        cap.tiles_cap_x = target_cap_x;
        cap.tiles_cap_y = target_cap_y;
        cap.depth_cap = depth_slices;
        assert((target_cap_x as u64) * (target_cap_y as u64) <= u64::MAX) by (nonlinear_arith)
            requires
                target_cap_x <= u32::MAX,
                target_cap_y <= u32::MAX,
        ;
        cap.tiles_capacity = (cap.tiles_cap_x as u64) * (cap.tiles_cap_y as u64) * (cap.depth_cap as u64);
        true
    } else {
        false
    }
}

/// Tiles of size `tile` needed to cover `size`, per dimension.
pub fn tiles_for(size: UVec2, tile: UVec2) -> (tiles: UVec2)
    requires
        tile.x > 0,
        tile.y > 0,
        size.x + tile.x <= u32::MAX,
        size.y + tile.y <= u32::MAX,
    ensures
        tiles.x == (size.x + tile.x - 1) / tile.x as int,
        tiles.y == (size.y + tile.y - 1) / tile.y as int,
{
    UVec2 { x: (size.x + tile.x - 1) / tile.x, y: (size.y + tile.y - 1) / tile.y }
}

/// `x * numerator / denominator` rounded down, capped at `u32::MAX` and at
/// least 1 (a zero denominator counts as one).
pub open spec fn scaled_down(x: u32, numerator: u32, denominator: u32) -> int {
    let d = if denominator == 0 { 1int } else { denominator as int };
    let v = x as int * numerator as int / d;
    if v > u32::MAX { u32::MAX as int } else if v < 1 { 1 } else { v }
}

fn scale_down(x: u32, numerator: u32, denominator: u32) -> (r: u32)
    ensures
        r == scaled_down(x, numerator, denominator),
{
    let d: u64 = if denominator == 0 {
        1
    } else {
        denominator as u64
    };
    assert((x as u64) * (numerator as u64) <= u64::MAX) by (nonlinear_arith)
        requires
            x <= u32::MAX,
            numerator <= u32::MAX,
    ;
    let v: u64 = (x as u64) * (numerator as u64) / d;
    if v > u32::MAX as u64 {
        u32::MAX
    } else if v < 1 {
        1
    } else {
        v as u32
    }
}

/// The raster size for a view of `view_px` pixels: the view itself, the
/// view scaled (rounded down, at least one pixel), or the fixed size (at
/// least one pixel per dimension).
pub fn compute_active_raster_size(view_px: UVec2, tie: TieFroxelsToView) -> (size: UVec2)
    ensures
        match tie {
            TieFroxelsToView::Native => size == view_px,
            TieFroxelsToView::Scaled { numerator, denominator } => {
                &&& size.x == scaled_down(view_px.x, numerator, denominator)
                &&& size.y == scaled_down(view_px.y, numerator, denominator)
            },
            TieFroxelsToView::Fixed(fixed) => {
                &&& size.x == max(fixed.x as int, 1)
                &&& size.y == max(fixed.y as int, 1)
            },
        },
{
    match tie {
        TieFroxelsToView::Native => view_px,
        TieFroxelsToView::Scaled { numerator, denominator } => UVec2 {
            x: scale_down(view_px.x, numerator, denominator),
            y: scale_down(view_px.y, numerator, denominator),
        },
        TieFroxelsToView::Fixed(fixed) => UVec2 {
            x: if fixed.x >= 1 {
                fixed.x
            } else {
                1
            },
            y: if fixed.y >= 1 {
                fixed.y
            } else {
                1
            },
        },
    }
}

/// `n / d` rounded up is the least count of `d`s that reaches `n`.
pub proof fn lemma_div_ceil_bounds(n: int, d: int)
    requires
        n >= 0,
        d >= 1,
    ensures
        div_ceil(n, d) * d >= n,
        (div_ceil(n, d) - 1) * d < n,
        0 <= div_ceil(n, d) <= n,
{
    let q = (n + d - 1) / d;
    assert(q * d >= n && (q - 1) * d < n && 0 <= q <= n) by (nonlinear_arith)
        requires
            d >= 1,
            n >= 0,
            q == (n + d - 1) / d,
    ;
}

/// `x * numerator` (capped at `u32::MAX`) divided by the denominator
/// (zero counts as one) rounded up, at least 1.
pub open spec fn scaled_up(x: u32, numerator: u32, denominator: u32) -> int {
    let d = if denominator == 0 { 1int } else { denominator as int };
    max(div_ceil(saturating_mul_u32(x as int, numerator as int), d), 1)
}

/// A scaled size is the smallest size, at least 1, that covers the
/// viewport scaled: `size * d` reaches `x * numerator` (capped at
/// `u32::MAX`; `d` the denominator, 0 counting as 1), and one less would
/// not, unless the size is 1.
pub proof fn lemma_scaled_up_rounds_up(x: u32, numerator: u32, denominator: u32)
    ensures
        ({
            let d: int = if denominator == 0 { 1 } else { denominator as int };
            let p: int = if x * numerator > u32::MAX { u32::MAX as int } else { x * numerator };
            let size = scaled_up(x, numerator, denominator);
            &&& size >= 1
            &&& size * d >= p
            &&& size == 1 || (size - 1) * d < p
            &&& size <= u32::MAX
        }),
{
    let d: int = if denominator == 0 { 1 } else { denominator as int };
    let p: int = if x * numerator > u32::MAX { u32::MAX as int } else { x * numerator };
    assert(p == saturating_mul_u32(x as int, numerator as int));
    let q = div_ceil(p, d);
    lemma_div_ceil_bounds(p, d);
    let size = scaled_up(x, numerator, denominator);
    assert(size == max(q, 1));
    if q >= 1 {
        assert(size == q);
    } else {
        assert(size == 1);
        assert(size * d >= p) by (nonlinear_arith)
            requires
                size == 1,
                d >= 1,
                q == 0,
                (q - 1) * d < p,
                q * d >= p,
        ;
    }
}

fn scale_up(x: u32, numerator: u32, denominator: u32) -> (r: u32)
    ensures
        r == scaled_up(x, numerator, denominator),
{
    let d = if denominator >= 1 {
        denominator
    } else {
        1
    };
    let v = crate::math::div_ceil_u32(crate::math::saturating_mul_u32_exec(x, numerator), d);
    if v >= 1 {
        v
    } else {
        1
    }
}

/// The froxel grid size for a viewport: the viewport itself, the viewport
/// scaled (rounded up, at least one pixel), or the fixed size (at least one
/// pixel per dimension).
pub fn froxel_size_from_viewport(viewport: UVec2, tie_mode: TieFroxelsToView) -> (size: UVec2)
    ensures
        match tie_mode {
            TieFroxelsToView::Native => size == viewport,
            TieFroxelsToView::Scaled { numerator, denominator } => {
                &&& size.x == scaled_up(viewport.x, numerator, denominator)
                &&& size.y == scaled_up(viewport.y, numerator, denominator)
            },
            TieFroxelsToView::Fixed(fixed) => {
                &&& size.x == max(fixed.x as int, 1)
                &&& size.y == max(fixed.y as int, 1)
            },
        },
{
    match tie_mode {
        TieFroxelsToView::Native => viewport,
        TieFroxelsToView::Scaled { numerator, denominator } => UVec2 {
            x: scale_up(viewport.x, numerator, denominator),
            y: scale_up(viewport.y, numerator, denominator),
        },
        TieFroxelsToView::Fixed(fixed) => UVec2 {
            x: if fixed.x >= 1 {
                fixed.x
            } else {
                1
            },
            y: if fixed.y >= 1 {
                fixed.y
            } else {
                1
            },
        },
    }
}

/// Makes a grid's screen size follow its camera's viewport. Returns
/// whether the size changed (so that the view's buffers must be
/// reallocated); tile size and depth slices are kept.
pub fn tie_view_to_froxel_config(
    config: &mut FroxelConfig,
    viewport: UVec2,
    tie_mode: TieFroxelsToView,
) -> (changed: bool)
    ensures
        ({
            let desired = match tie_mode {
                TieFroxelsToView::Native => viewport,
                TieFroxelsToView::Scaled { numerator, denominator } => UVec2 {
                    x: scaled_up(viewport.x, numerator, denominator) as u32,
                    y: scaled_up(viewport.y, numerator, denominator) as u32,
                },
                TieFroxelsToView::Fixed(fixed) => UVec2 {
                    x: max(fixed.x as int, 1) as u32,
                    y: max(fixed.y as int, 1) as u32,
                },
            };
            &&& changed == (old(config).screen_width != desired.x || old(config).screen_height
                != desired.y)
            &&& final(config).screen_width == desired.x
            &&& final(config).screen_height == desired.y
            &&& final(config).froxel_size_x == old(config).froxel_size_x
            &&& final(config).froxel_size_y == old(config).froxel_size_y
            &&& final(config).depth_slices == old(config).depth_slices
        }),
{
    let desired = froxel_size_from_viewport(viewport, tie_mode);
    if config.screen_width == desired.x && config.screen_height == desired.y {
        return false;
    }
    config.screen_width = desired.x;
    config.screen_height = desired.y;
    true
}

/// Byte sizes of the binning buffers of a grid.
#[derive(Clone, Copy, Debug, PartialEq, Eq)]
pub struct BinningBufferSizes {
    /// One `u32` count per froxel.
    pub tile_counts: u64,
    /// Two `u32` offsets per froxel and one more.
    pub tile_offsets: u64,
    /// One `u32` write index per froxel.
    pub current_tile_write_indices: u64,
    /// One `u32` per pixel and depth slice.
    pub packed_segments: u64,
}

/// The sizes of the four binning buffers that
/// `prepare_binning_buffers` creates (zero-filled) for a grid.
pub fn prepare_binning_buffers(froxel_config: &FroxelConfig) -> (sizes: BinningBufferSizes)
    requires
        froxel_config.counts_fit(),
        froxel_config.spec_tiles_x() * froxel_config.spec_tiles_y() * froxel_config.depth_slices * 2
            + 1 <= u32::MAX,
        froxel_config.screen_width as int * froxel_config.screen_height as int
            * froxel_config.depth_slices as int * 4 <= u64::MAX,
    ensures
        ({
            let n = froxel_config.spec_tiles_x() * froxel_config.spec_tiles_y()
                * froxel_config.depth_slices;
            &&& sizes.tile_counts == n * 4
            &&& sizes.tile_offsets == (n * 2 + 1) * 4
            &&& sizes.current_tile_write_indices == n * 4
            &&& sizes.packed_segments == froxel_config.screen_width as int
                * froxel_config.screen_height as int * froxel_config.depth_slices as int * 4
        }),
{
    let (_tiles_x, _tiles_y, num_tiles) = froxel_config.get_num_tiles();
    let w = froxel_config.screen_width as u64;
    let h = froxel_config.screen_height as u64;
    let d = froxel_config.depth_slices as u64;
    assert(w * h <= u64::MAX && w * h * d <= u64::MAX) by (nonlinear_arith)
        requires
            w * h * d * 4 <= u64::MAX,
            w <= u32::MAX,
            h <= u32::MAX,
    {
        if d == 0 {
            assert(w * h <= u32::MAX * u32::MAX);
        }
    }
    BinningBufferSizes {
        tile_counts: num_tiles as u64 * 4,
        tile_offsets: (num_tiles * 2 + 1) as u64 * 4,
        current_tile_write_indices: num_tiles as u64 * 4,
        packed_segments: w * h * d * 4,
    }
}

} // verus!
