//! Capacity planning for the strand prepass: totals over the strand
//! geometry in view, the table of frusta (views and lights) with their
//! bucket and depth-tile ranges, and the capacity of every queue and table
//! the prepass kernels write, each capped to fit one storage binding.
use crate::froxel::FroxelConfig;
use crate::math::{
    div_ceil, div_ceil_u32, max, min, next_power_of_two, next_power_of_two_u32,
    saturating_add_u32, saturating_add_u32_exec, saturating_mul_u32, saturating_mul_u32_exec,
};
use vstd::prelude::*;

verus! {

/// Fine tiles per coarse tile, per dimension.
pub const COARSE_FINE_TILE_EXTENT: u32 = 4;
/// Depth slices of a coarse depth tile.
pub const COARSE_DEPTH_SLICES: u32 = 16;
/// Most coarse slices one asset interval may span.
pub const COARSE_MAX_SLICES_PER_ASSET_INTERVAL: u32 = 2;
/// Fine cells in one coarse count page: 4 x 4 tiles x 16 slices.
pub const COARSE_COUNT_PAGE_SIZE: u32 = 256;
/// Count pages are reserved for one in this many page-table slots.
pub const COARSE_COUNT_PAGE_CAPACITY_DIVISOR: u32 = 2;
/// Interval references reserved per coarse depth tile.
pub const COARSE_INTERVAL_REFS_PER_TILE: u32 = 64;
/// Largest shading texture extent.
pub const MAX_TEXTURE_EXTENT: u32 = 8192;
/// Largest workgroup count per dispatch dimension.
pub const MAX_COMPUTE_WORKGROUPS_PER_DIMENSION: u32 = 65_535;
/// Bytes of a queue header (two `u32` words).
pub const QUEUE_HEADER_BYTES: u64 = 8;

/// Deep-opacity-map pages per side, in texels.
pub const DOM_PAGE_XY: u32 = 256;
/// Border of pages fetched around a request.
pub const DOM_PREFETCH_PAGE_BORDER: u32 = 1;
/// One resident page is budgeted per this many tiles.
pub const DOM_RESIDENT_PAGE_BUDGET_DIVISOR: u32 = 8;
pub const DOM_MIN_RESIDENT_PAGES: u32 = 4;
pub const DOM_MAX_RESIDENT_PAGES: u32 = 256;
/// Virtual deep-opacity-map texels per light-view pixel, per dimension.
pub const DOM_VIRTUAL_SCALE: u32 = 2;
/// Largest virtual deep-opacity-map extent.
pub const DOM_MAX_VIRTUAL_EXTENT: u32 = 8192;

/// The number of items of `item_bytes` bytes that fit after a header of
/// `header_bytes` in a binding of `max_binding_bytes` bytes, at most
/// `u32::MAX`; a zero item size imposes no cap.
pub open spec fn storage_cap(header_bytes: u64, item_bytes: u64, max_binding_bytes: u64) -> int {
    let room = if max_binding_bytes >= header_bytes {
        max_binding_bytes - header_bytes
    } else {
        0
    };
    min(room / item_bytes as int, u32::MAX as int)
}

/// `requested` capped to what fits in one storage binding.
pub open spec fn capped_capacity(
    requested: u32,
    header_bytes: u64,
    item_bytes: u64,
    max_binding_bytes: u64,
) -> int {
    if item_bytes == 0 {
        requested as int
    } else {
        min(requested as int, storage_cap(header_bytes, item_bytes, max_binding_bytes))
    }
}

/// Caps a requested item count so that a header and that many items fit
/// in one storage binding.
pub fn cap_storage_capacity(
    requested: u32,
    header_bytes: u64,
    item_bytes: u64,
    max_binding_bytes: u64,
) -> (capped: u32)
    ensures
        capped == capped_capacity(requested, header_bytes, item_bytes, max_binding_bytes),
{
    if item_bytes == 0 {
        return requested;
    }
    let max_items = max_binding_bytes.saturating_sub(header_bytes) / item_bytes;
    let max_items: u32 = if max_items <= u32::MAX as u64 {
        max_items as u32
    } else {
        u32::MAX
    };
    if requested <= max_items {
        requested
    } else {
        max_items
    }
}

/// A capped capacity never exceeds the request, and with a nonzero item
/// size the header and the items fit in the binding (when the header
/// itself does); the cap only bites when one more item would not fit.
pub proof fn lemma_capped_capacity_fits(
    requested: u32,
    header_bytes: u64,
    item_bytes: u64,
    max_binding_bytes: u64,
)
    ensures
        capped_capacity(requested, header_bytes, item_bytes, max_binding_bytes) <= requested,
        item_bytes > 0 && header_bytes <= max_binding_bytes ==> header_bytes + capped_capacity(
            requested,
            header_bytes,
            item_bytes,
            max_binding_bytes,
        ) * item_bytes <= max_binding_bytes,
        item_bytes > 0 && capped_capacity(requested, header_bytes, item_bytes, max_binding_bytes)
            < requested ==> capped_capacity(requested, header_bytes, item_bytes, max_binding_bytes)
            == u32::MAX || header_bytes + (capped_capacity(
            requested,
            header_bytes,
            item_bytes,
            max_binding_bytes,
        ) + 1) * item_bytes > max_binding_bytes,
{
    if item_bytes > 0 {
        let room: int = if max_binding_bytes >= header_bytes {
            max_binding_bytes - header_bytes
        } else {
            0
        };
        let q = room / item_bytes as int;
        assert(q * item_bytes <= room && (q + 1) * item_bytes > room) by (nonlinear_arith)
            requires
                q == room / item_bytes as int,
                item_bytes > 0,
                room >= 0,
        ;
        let c = capped_capacity(requested, header_bytes, item_bytes, max_binding_bytes);
        assert(c <= q);
        assert(c * item_bytes <= q * item_bytes) by (nonlinear_arith)
            requires
                0 <= c <= q,
                item_bytes > 0,
        ;
    }
}

/// The resident-page budget of a virtual surface of `tile_count` pages:
/// one page per eight tiles (rounded up) kept within 4..=256, and never
/// more than the tiles there are (at least one).
pub open spec fn resident_page_budget(tile_count: u32) -> int {
    let v = div_ceil(tile_count as int, DOM_RESIDENT_PAGE_BUDGET_DIVISOR as int);
    let clamped = if v < DOM_MIN_RESIDENT_PAGES {
        DOM_MIN_RESIDENT_PAGES as int
    } else if v > DOM_MAX_RESIDENT_PAGES {
        DOM_MAX_RESIDENT_PAGES as int
    } else {
        v
    };
    min(clamped, max(tile_count as int, 1))
}

/// The resident-page budget of a DOM surface of `tile_count` pages (see
/// [`resident_page_budget`]).
pub fn dom_resident_page_budget(tile_count: u32) -> (pages: u32)
    ensures
        pages == resident_page_budget(tile_count),
        1 <= pages <= DOM_MAX_RESIDENT_PAGES,
        pages <= max(tile_count as int, 1),
{
    let v = div_ceil_u32(tile_count, DOM_RESIDENT_PAGE_BUDGET_DIVISOR);
    let clamped = if v < DOM_MIN_RESIDENT_PAGES {
        DOM_MIN_RESIDENT_PAGES
    } else if v > DOM_MAX_RESIDENT_PAGES {
        DOM_MAX_RESIDENT_PAGES
    } else {
        v
    };
    let bound = if tile_count >= 1 {
        tile_count
    } else {
        1
    };
    if clamped <= bound {
        clamped
    } else {
        bound
    }
}

/// The deep-opacity-map virtual surfaces of a light.
#[derive(Clone, Copy, Debug, PartialEq, Eq)]
pub struct DomSurfaceExtent {
    pub virtual_width: u32,
    pub virtual_height: u32,
    pub depth_tile_count: u32,
    pub opacity_tile_count: u32,
    pub depth_resident_pages: u32,
    pub opacity_resident_pages: u32,
}

/// A light-view dimension scaled to the virtual surface: doubled (capped
/// at `u32::MAX`) and kept within 256..=8192.
pub open spec fn dom_virtual_extent(screen: u32) -> int {
    let v = saturating_mul_u32(screen as int, DOM_VIRTUAL_SCALE as int);
    if v < DOM_PAGE_XY {
        DOM_PAGE_XY as int
    } else if v > DOM_MAX_VIRTUAL_EXTENT {
        DOM_MAX_VIRTUAL_EXTENT as int
    } else {
        v
    }
}

fn virtual_extent(screen: u32) -> (v: u32)
    ensures
        v == dom_virtual_extent(screen),
{
    let v = saturating_mul_u32_exec(screen, DOM_VIRTUAL_SCALE);
    if v < DOM_PAGE_XY {
        DOM_PAGE_XY
    } else if v > DOM_MAX_VIRTUAL_EXTENT {
        DOM_MAX_VIRTUAL_EXTENT
    } else {
        v
    }
}

/// The virtual surfaces of a light whose froxel grid is
/// `screen_width` x `screen_height`: the virtual extent, the pages that
/// cover it (256 x 256 each) and the resident-page budgets.
pub fn dom_surface_extent(screen_width: u32, screen_height: u32) -> (e: DomSurfaceExtent)
    ensures
        e.virtual_width == dom_virtual_extent(screen_width),
        e.virtual_height == dom_virtual_extent(screen_height),
        e.depth_tile_count == max(
            saturating_mul_u32(
                div_ceil(e.virtual_width as int, DOM_PAGE_XY as int),
                div_ceil(e.virtual_height as int, DOM_PAGE_XY as int),
            ),
            1,
        ),
        e.opacity_tile_count == e.depth_tile_count,
        e.depth_resident_pages == resident_page_budget(e.depth_tile_count),
        e.opacity_resident_pages == resident_page_budget(e.opacity_tile_count),
{
    let virtual_width = virtual_extent(screen_width);
    let virtual_height = virtual_extent(screen_height);
    let tiles = saturating_mul_u32_exec(
        div_ceil_u32(virtual_width, DOM_PAGE_XY),
        div_ceil_u32(virtual_height, DOM_PAGE_XY),
    );
    let depth_tile_count = if tiles >= 1 {
        tiles
    } else {
        1
    };
    let opacity_tile_count = depth_tile_count;
    DomSurfaceExtent {
        virtual_width,
        virtual_height,
        depth_tile_count,
        opacity_tile_count,
        depth_resident_pages: dom_resident_page_budget(depth_tile_count),
        opacity_resident_pages: dom_resident_page_budget(opacity_tile_count),
    }
}

/// What the prepass needs to know of one strand geometry in view.
#[derive(Clone, Copy, Debug, PartialEq, Eq)]
pub struct GeometrySummary {
    pub strand_count: u32,
    pub index_count: u32,
    pub max_segments_in_strand: u32,
}

/// Totals over the strand geometry in view.
#[derive(Clone, Copy, Debug, PartialEq, Eq)]
pub struct GeometryTotals {
    /// Strands of all instances (capped at `u32::MAX`).
    pub total_strands: u32,
    /// Segments of all instances: indices minus strands per instance
    /// (capped at `u32::MAX`).
    pub total_segment_budget: u32,
    pub max_strands_in_instance: u32,
    pub max_segments_in_strand: u32,
    /// The most indices of any instance: its shading texel count.
    pub max_shading_texels_in_instance: u32,
    /// Number of instances (as `u32`, truncating).
    pub instance_count: u32,
}

/// Totals over `g`, summed (saturating) and maximised instance by instance.
pub open spec fn geometry_totals(g: Seq<GeometrySummary>) -> GeometryTotals
    decreases g.len(),
{
    if g.len() == 0 {
        GeometryTotals {
            total_strands: 0,
            total_segment_budget: 0,
            max_strands_in_instance: 0,
            max_segments_in_strand: 0,
            max_shading_texels_in_instance: 0,
            instance_count: 0,
        }
    } else {
        let t = geometry_totals(g.drop_last());
        let x = g.last();
        let segments = if x.index_count >= x.strand_count {
            x.index_count - x.strand_count
        } else {
            0
        };
        GeometryTotals {
            total_strands: saturating_add_u32(t.total_strands as int, x.strand_count as int) as u32,
            total_segment_budget: saturating_add_u32(t.total_segment_budget as int, segments) as u32,
            max_strands_in_instance: max(t.max_strands_in_instance as int, x.strand_count as int) as u32,
            max_segments_in_strand: max(t.max_segments_in_strand as int, x.max_segments_in_strand as int) as u32,
            max_shading_texels_in_instance: max(
                t.max_shading_texels_in_instance as int,
                x.index_count as int,
            ) as u32,
            instance_count: g.len() as u32,
        }
    }
}

/// Sums and maxima over the geometry in view, in the order given.
pub fn summarize_geometry(geometry: &[GeometrySummary]) -> (totals: GeometryTotals)
    ensures
        totals == geometry_totals(geometry@),
{
    let mut t = GeometryTotals {
        total_strands: 0,
        total_segment_budget: 0,
        max_strands_in_instance: 0,
        max_segments_in_strand: 0,
        max_shading_texels_in_instance: 0,
        instance_count: 0,
    };
    let mut i: usize = 0;
    while i < geometry.len()
        invariant
            0 <= i <= geometry@.len(),
            t == geometry_totals(geometry@.take(i as int)),
        decreases geometry@.len() - i,
    {
        let x = geometry[i];
        proof {
            let g = geometry@.take(i + 1);
            assert(g.drop_last() =~= geometry@.take(i as int));
            assert(g.last() == x);
        }
        t = GeometryTotals {
            total_strands: saturating_add_u32_exec(t.total_strands, x.strand_count),
            total_segment_budget: saturating_add_u32_exec(
                t.total_segment_budget,
                x.index_count.saturating_sub(x.strand_count),
            ),
            max_strands_in_instance: if t.max_strands_in_instance >= x.strand_count {
                t.max_strands_in_instance
            } else {
                x.strand_count
            },
            max_segments_in_strand: if t.max_segments_in_strand >= x.max_segments_in_strand {
                t.max_segments_in_strand
            } else {
                x.max_segments_in_strand
            },
            max_shading_texels_in_instance: if t.max_shading_texels_in_instance >= x.index_count {
                t.max_shading_texels_in_instance
            } else {
                x.index_count
            },
            instance_count: (i + 1) as u32,
        };
        i = i + 1;
    }
    assert(geometry@.take(geometry@.len() as int) =~= geometry@);
    t
}

/// A frustum (camera view or light) as the prepass sees it.
#[derive(Clone, Copy, Debug)]
pub struct FrustumInput {
    pub config: FroxelConfig,
    pub is_light: bool,
    pub cascade_index: u32,
}

/// One row of the frustum table the prepass kernels read.
#[derive(Clone, Copy, Debug, PartialEq, Eq, Default)]
pub struct GpuFrustumDesc {
    pub screen_width: u32,
    pub screen_height: u32,
    pub froxel_size_x: u32,
    pub froxel_size_y: u32,
    pub depth_slices: u32,
    pub bucket_base: u32,
    pub bucket_count: u32,
    /// 0 for a camera, 1 for a light.
    pub kind: u32,
    pub coarse_depth_tile_base: u32,
    pub coarse_depth_tile_count: u32,
    pub coarse_tiles_x: u32,
    pub coarse_tiles_y: u32,
    pub cascade_index: u32,
    pub fine_depth_tile_base: u32,
    pub _pad1: u32,
    pub _pad2: u32,
}

/// The frustum table and the totals its bases run up to.
#[derive(Clone, Debug)]
pub struct FrustumTable {
    pub descs: Vec<GpuFrustumDesc>,
    pub bucket_total: u32,
    pub coarse_depth_tile_total: u32,
    pub fine_depth_tile_total: u32,
}

/// Coarse tiles across a fine tile count: four fine tiles each, rounded
/// up, at least one.
pub open spec fn coarse_tiles(fine_tiles: int) -> int {
    max(div_ceil(fine_tiles, COARSE_FINE_TILE_EXTENT as int), 1)
}

/// Froxel buckets of a frustum.
pub open spec fn bucket_count_of(f: FrustumInput) -> int {
    f.config.spec_tiles_x() * f.config.spec_tiles_y() * f.config.depth_slices
}

/// Coarse depth tiles of a frustum (capped at `u32::MAX`).
pub open spec fn coarse_depth_tiles_of(f: FrustumInput) -> int {
    saturating_mul_u32(coarse_tiles(f.config.spec_tiles_x()), coarse_tiles(f.config.spec_tiles_y()))
}

/// Fine depth tiles of a frustum (capped at `u32::MAX`).
pub open spec fn fine_depth_tiles_of(f: FrustumInput) -> int {
    saturating_mul_u32(f.config.spec_tiles_x(), f.config.spec_tiles_y())
}

/// The bucket, coarse-tile and fine-tile bases after the frusta `fs`:
/// their counts summed (each sum capped at `u32::MAX`).
pub open spec fn frustum_bases(fs: Seq<FrustumInput>) -> (u32, u32, u32)
    decreases fs.len(),
{
    if fs.len() == 0 {
        (0, 0, 0)
    } else {
        let (b, c, f) = frustum_bases(fs.drop_last());
        let x = fs.last();
        (
            saturating_add_u32(b as int, bucket_count_of(x)) as u32,
            saturating_add_u32(c as int, coarse_depth_tiles_of(x)) as u32,
            saturating_add_u32(f as int, fine_depth_tiles_of(x)) as u32,
        )
    }
}

/// The table row of frustum `f` given the bases of the frusta before it.
pub open spec fn frustum_desc(f: FrustumInput, bases: (u32, u32, u32)) -> GpuFrustumDesc {
    GpuFrustumDesc {
        screen_width: f.config.screen_width,
        screen_height: f.config.screen_height,
        froxel_size_x: f.config.froxel_size_x,
        froxel_size_y: f.config.froxel_size_y,
        depth_slices: f.config.depth_slices,
        bucket_base: bases.0,
        bucket_count: bucket_count_of(f) as u32,
        kind: if f.is_light { 1 } else { 0 },
        coarse_depth_tile_base: bases.1,
        coarse_depth_tile_count: coarse_depth_tiles_of(f) as u32,
        coarse_tiles_x: coarse_tiles(f.config.spec_tiles_x()) as u32,
        coarse_tiles_y: coarse_tiles(f.config.spec_tiles_y()) as u32,
        cascade_index: f.cascade_index,
        fine_depth_tile_base: bases.2,
        _pad1: 0,
        _pad2: 0,
    }
}

/// The row that stands in when there is no frustum: a 1 x 1 camera grid
/// with one bucket and one coarse tile.
pub open spec fn placeholder_frustum_desc() -> GpuFrustumDesc {
    GpuFrustumDesc {
        screen_width: 1,
        screen_height: 1,
        froxel_size_x: 1,
        froxel_size_y: 1,
        depth_slices: 1,
        bucket_base: 0,
        bucket_count: 1,
        kind: 0,
        coarse_depth_tile_base: 0,
        coarse_depth_tile_count: 1,
        coarse_tiles_x: 1,
        coarse_tiles_y: 1,
        cascade_index: 0,
        fine_depth_tile_base: 0,
        _pad1: 0,
        _pad2: 0,
    }
}

/// `table` lays the frusta `fs` out one after another (see
/// [`build_frustum_table`]).
pub open spec fn is_frustum_table(fs: Seq<FrustumInput>, table: FrustumTable) -> bool {
    &&& fs.len() == 0 ==> {
        &&& table.descs@ == seq![placeholder_frustum_desc()]
        &&& table.bucket_total == 1
        &&& table.coarse_depth_tile_total == 1
        &&& table.fine_depth_tile_total == 1
    }
    &&& fs.len() > 0 ==> {
        &&& table.descs@.len() == fs.len()
        &&& forall|i: int|
            #![trigger table.descs@[i]]
            0 <= i < fs.len() ==> table.descs@[i] == frustum_desc(fs[i], frustum_bases(fs.take(i)))
        &&& (table.bucket_total, table.coarse_depth_tile_total, table.fine_depth_tile_total)
            == frustum_bases(fs)
    }
}

/// The rows of a frustum table: every fine tile of a frustum lies in one of
/// its coarse tiles (four fine tiles a side), with no coarse row or column
/// to spare, and there is at least one coarse tile each way; its coarse
/// depth tiles are its coarse tiles across times down, its buckets its
/// fine tiles times its depth slices; it carries its grid, its kind (1 for
/// a light) and its cascade. The ranges lie end to end: the first
/// row starts at 0, each next row where the one before ends (capped at
/// `u32::MAX`), and the totals where the last row ends.
pub proof fn lemma_frustum_table_layout(fs: Seq<FrustumInput>, table: FrustumTable)
    requires
        fs.len() > 0,
        forall|i: int| 0 <= i < fs.len() ==> (#[trigger] fs[i]).config.counts_fit(),
        is_frustum_table(fs, table),
    ensures
        forall|i: int|
            #![trigger table.descs@[i]]
            0 <= i < fs.len() ==> {
                let d = table.descs@[i];
                let tx = fs[i].config.spec_tiles_x();
                let ty = fs[i].config.spec_tiles_y();
                &&& d.coarse_tiles_x >= 1
                &&& d.coarse_tiles_x * COARSE_FINE_TILE_EXTENT >= tx
                &&& d.coarse_tiles_x == 1 || (d.coarse_tiles_x - 1) * COARSE_FINE_TILE_EXTENT < tx
                &&& d.coarse_tiles_y >= 1
                &&& d.coarse_tiles_y * COARSE_FINE_TILE_EXTENT >= ty
                &&& d.coarse_tiles_y == 1 || (d.coarse_tiles_y - 1) * COARSE_FINE_TILE_EXTENT < ty
                &&& d.coarse_depth_tile_count == min(d.coarse_tiles_x * d.coarse_tiles_y, u32::MAX as int)
                &&& d.bucket_count == tx * ty * fs[i].config.depth_slices
                &&& d.screen_width == fs[i].config.screen_width && d.screen_height == fs[i].config.screen_height
                &&& d.froxel_size_x == fs[i].config.froxel_size_x && d.froxel_size_y == fs[i].config.froxel_size_y
                &&& d.depth_slices == fs[i].config.depth_slices
                &&& d.kind == (if fs[i].is_light { 1u32 } else { 0u32 })
                &&& d.cascade_index == fs[i].cascade_index
            },
        table.descs@[0].bucket_base == 0,
        table.descs@[0].coarse_depth_tile_base == 0,
        table.descs@[0].fine_depth_tile_base == 0,
        forall|i: int|
            #![trigger table.descs@[i + 1]]
            0 <= i < fs.len() - 1 ==> {
                let d = table.descs@[i];
                let next = table.descs@[i + 1];
                let fine = fs[i].config.spec_tiles_x() * fs[i].config.spec_tiles_y();
                &&& next.bucket_base == min(d.bucket_base + d.bucket_count, u32::MAX as int)
                &&& next.coarse_depth_tile_base == min(
                    d.coarse_depth_tile_base + d.coarse_depth_tile_count,
                    u32::MAX as int,
                )
                &&& next.fine_depth_tile_base == min(d.fine_depth_tile_base + fine, u32::MAX as int)
            },
        ({
            let n = fs.len() - 1;
            let d = table.descs@[n];
            let fine = fs[n].config.spec_tiles_x() * fs[n].config.spec_tiles_y();
            &&& table.bucket_total == min(d.bucket_base + d.bucket_count, u32::MAX as int)
            &&& table.coarse_depth_tile_total == min(d.coarse_depth_tile_base + d.coarse_depth_tile_count, u32::MAX as int)
            &&& table.fine_depth_tile_total == min(d.fine_depth_tile_base + fine, u32::MAX as int)
        }),
{
    assert forall|i: int| 0 <= i < fs.len() implies {
        let d = #[trigger] table.descs@[i];
        let tx = fs[i].config.spec_tiles_x();
        let ty = fs[i].config.spec_tiles_y();
        &&& d.coarse_tiles_x >= 1
        &&& d.coarse_tiles_x * COARSE_FINE_TILE_EXTENT >= tx
        &&& d.coarse_tiles_x == 1 || (d.coarse_tiles_x - 1) * COARSE_FINE_TILE_EXTENT < tx
        &&& d.coarse_tiles_y >= 1
        &&& d.coarse_tiles_y * COARSE_FINE_TILE_EXTENT >= ty
        &&& d.coarse_tiles_y == 1 || (d.coarse_tiles_y - 1) * COARSE_FINE_TILE_EXTENT < ty
        &&& d.coarse_depth_tile_count == min(d.coarse_tiles_x * d.coarse_tiles_y, u32::MAX as int)
        &&& d.bucket_count == tx * ty * fs[i].config.depth_slices
    } by {
        let c = fs[i].config;
        assert(c.counts_fit());
        crate::froxel::lemma_tiles_cover_screen(c);
        let tx = c.spec_tiles_x();
        let ty = c.spec_tiles_y();
        assert(0 <= tx <= u32::MAX && 0 <= ty <= u32::MAX) by (nonlinear_arith)
            requires
                c.froxel_size_x > 0,
                c.froxel_size_y > 0,
                c.screen_width + c.froxel_size_x <= u32::MAX,
                c.screen_height + c.froxel_size_y <= u32::MAX,
                tx == (c.screen_width + c.froxel_size_x - 1) / c.froxel_size_x as int,
                ty == (c.screen_height + c.froxel_size_y - 1) / c.froxel_size_y as int,
        ;
        crate::froxel::lemma_div_ceil_bounds(tx, COARSE_FINE_TILE_EXTENT as int);
        crate::froxel::lemma_div_ceil_bounds(ty, COARSE_FINE_TILE_EXTENT as int);
    }
    assert forall|i: int| 0 <= i < fs.len() implies #[trigger] frustum_bases(fs.take(i + 1)) == ({
        let (b, c, f) = frustum_bases(fs.take(i));
        (
            saturating_add_u32(b as int, bucket_count_of(fs[i])) as u32,
            saturating_add_u32(c as int, coarse_depth_tiles_of(fs[i])) as u32,
            saturating_add_u32(f as int, fine_depth_tiles_of(fs[i])) as u32,
        )
    }) by {
        assert(fs.take(i + 1).drop_last() =~= fs.take(i));
        assert(fs.take(i + 1).last() == fs[i]);
    }
    assert(fs.take(0) =~= Seq::<FrustumInput>::empty());
    assert(fs.take(fs.len() as int) =~= fs);
    assert forall|i: int| 0 <= i < fs.len() - 1 implies {
        let d = table.descs@[i];
        let next = #[trigger] table.descs@[i + 1];
        let fine = fs[i].config.spec_tiles_x() * fs[i].config.spec_tiles_y();
        &&& next.bucket_base == min(d.bucket_base + d.bucket_count, u32::MAX as int)
        &&& next.coarse_depth_tile_base == min(d.coarse_depth_tile_base + d.coarse_depth_tile_count, u32::MAX as int)
        &&& next.fine_depth_tile_base == min(d.fine_depth_tile_base + fine, u32::MAX as int)
    } by {
        let d = table.descs@[i];
        assert(fs[i].config.counts_fit());
        assert(table.descs@[i + 1] == frustum_desc(fs[i + 1], frustum_bases(fs.take(i + 1))));
        assert(d == frustum_desc(fs[i], frustum_bases(fs.take(i))));
    }
    let n = fs.len() - 1;
    assert(fs[n].config.counts_fit());
    assert(table.descs@[n] == frustum_desc(fs[n], frustum_bases(fs.take(n))));
    assert(table.descs@[0] == frustum_desc(fs[0], frustum_bases(fs.take(0))));
}

/// Lays the frusta out one after another: each row gets the bucket,
/// coarse-tile and fine-tile ranges after those of the rows before it.
/// With no frustum, a placeholder row stands in and every total is 1.
pub fn build_frustum_table(frusta: &[FrustumInput]) -> (table: FrustumTable)
    requires
        forall|i: int| 0 <= i < frusta@.len() ==> (#[trigger] frusta@[i]).config.counts_fit(),
    ensures
        is_frustum_table(frusta@, table),
{
    let mut descs: Vec<GpuFrustumDesc> = Vec::new();
    let mut bucket_base: u32 = 0;
    let mut coarse_depth_tile_base: u32 = 0;
    let mut fine_depth_tile_base: u32 = 0;
    let mut i: usize = 0;
    while i < frusta.len()
        invariant
            0 <= i <= frusta@.len(),
            forall|j: int| 0 <= j < frusta@.len() ==> (#[trigger] frusta@[j]).config.counts_fit(),
            (bucket_base, coarse_depth_tile_base, fine_depth_tile_base) == frustum_bases(
                frusta@.take(i as int),
            ),
            descs@.len() == i,
            forall|j: int|
                #![trigger descs@[j]]
                0 <= j < i ==> descs@[j] == frustum_desc(frusta@[j], frustum_bases(frusta@.take(j))),
        decreases frusta@.len() - i,
    {
        let f = frusta[i];
        proof {
            let fs = frusta@.take(i + 1);
            assert(fs.drop_last() =~= frusta@.take(i as int));
            assert(fs.last() == f);
            assert(f.config.counts_fit());
        }
        let (fine_tiles_x, fine_tiles_y, bucket_count) = f.config.get_num_tiles();
        let fine_depth_tile_count = saturating_mul_u32_exec(fine_tiles_x, fine_tiles_y);
        let cx = div_ceil_u32(fine_tiles_x, COARSE_FINE_TILE_EXTENT);
        let coarse_tiles_x = if cx >= 1 {
            cx
        } else {
            1
        };
        let cy = div_ceil_u32(fine_tiles_y, COARSE_FINE_TILE_EXTENT);
        let coarse_tiles_y = if cy >= 1 {
            cy
        } else {
            1
        };
        let coarse_depth_tile_count = saturating_mul_u32_exec(coarse_tiles_x, coarse_tiles_y);
        let desc = GpuFrustumDesc {
            screen_width: f.config.screen_width,
            screen_height: f.config.screen_height,
            froxel_size_x: f.config.froxel_size_x,
            froxel_size_y: f.config.froxel_size_y,
            depth_slices: f.config.depth_slices,
            bucket_base,
            bucket_count,
            kind: if f.is_light {
                1
            } else {
                0
            },
            coarse_depth_tile_base,
            coarse_depth_tile_count,
            coarse_tiles_x,
            coarse_tiles_y,
            cascade_index: f.cascade_index,
            fine_depth_tile_base,
            _pad1: 0,
            _pad2: 0,
        };
        descs.push(desc);
        bucket_base = saturating_add_u32_exec(bucket_base, bucket_count);
        coarse_depth_tile_base = saturating_add_u32_exec(coarse_depth_tile_base, coarse_depth_tile_count);
        fine_depth_tile_base = saturating_add_u32_exec(fine_depth_tile_base, fine_depth_tile_count);
        i = i + 1;
    }
    if descs.len() == 0 {
        descs.push(
            GpuFrustumDesc {
                screen_width: 1,
                screen_height: 1,
                froxel_size_x: 1,
                froxel_size_y: 1,
                depth_slices: 1,
                bucket_base: 0,
                bucket_count: 1,
                kind: 0,
                coarse_depth_tile_base: 0,
                coarse_depth_tile_count: 1,
                coarse_tiles_x: 1,
                coarse_tiles_y: 1,
                cascade_index: 0,
                fine_depth_tile_base: 0,
                _pad1: 0,
                _pad2: 0,
            },
        );
        bucket_base = 1;
        coarse_depth_tile_base = 1;
        fine_depth_tile_base = 1;
        assert(descs@ =~= seq![placeholder_frustum_desc()]);
    } else {
        assert(frusta@.take(frusta@.len() as int) =~= frusta@);
    }
    FrustumTable {
        descs,
        bucket_total: bucket_base,
        coarse_depth_tile_total: coarse_depth_tile_base,
        fine_depth_tile_total: fine_depth_tile_base,
    }
}

/// Bytes of one item of each queue or table the prepass writes.
#[derive(Clone, Copy, Debug, PartialEq, Eq)]
pub struct PrepassItemSizes {
    pub fine_prepass_task: u64,
    pub binning_task: u64,
    pub coarse_depth_lut_entry: u64,
    pub coarse_asset_range: u64,
    pub coarse_interval_ref: u64,
    pub fine_seg_ref: u64,
    pub raster_work_item: u64,
    pub raster_tile_run: u64,
}

/// Item counts of every queue and table of the prepass; `requested_*` are
/// the counts asked for before capping to one storage binding.
#[derive(Clone, Copy, Debug, PartialEq, Eq)]
pub struct PrepassCapacities {
    pub requested_prepass: u32,
    pub prepass: u32,
    pub requested_binning: u32,
    pub binning: u32,
    pub instance: u32,
    pub frustum: u32,
    pub froxel_bucket: u32,
    pub requested_coarse_depth_tile: u32,
    pub coarse_depth_tile: u32,
    pub coarse_count_page_table: u32,
    pub requested_coarse_range: u32,
    pub coarse_range: u32,
    pub requested_coarse_interval_ref: u32,
    pub coarse_interval_ref: u32,
    pub requested_coarse_count_page: u32,
    pub coarse_count_page: u32,
    pub fine_cell: u32,
    pub requested_fine_seg_ref: u32,
    pub fine_seg_ref: u32,
    pub requested_raster_work: u32,
    pub raster_work: u32,
    pub requested_raster_tile_run: u32,
    pub raster_tile_run: u32,
    pub opaque_fine_depth_tile: u32,
}

/// What the prepass is planned for.
#[derive(Clone, Copy, Debug, PartialEq, Eq)]
pub struct PrepassDemand {
    pub total_strands: u32,
    pub total_segment_budget: u32,
    pub instance_count: u32,
    /// Rows of the frustum table (as `u32`, truncating).
    pub frustum_count: u32,
    pub bucket_total: u32,
    pub coarse_depth_tile_total: u32,
    pub fine_depth_tile_total: u32,
    pub max_storage_binding_bytes: u64,
}

pub open spec fn npot_at_least(x: int, floor: int) -> int {
    max(next_power_of_two(x), floor)
}

/// Capacity of the fine prepass queue before capping: the strands rounded
/// up to a power of two, at least 2048.
pub open spec fn req_prepass(d: PrepassDemand) -> int {
    npot_at_least(d.total_strands as int, 2048)
}

pub open spec fn cap_prepass(d: PrepassDemand, s: PrepassItemSizes) -> int {
    capped_capacity(req_prepass(d) as u32, QUEUE_HEADER_BYTES, s.fine_prepass_task, d.max_storage_binding_bytes)
}

/// Binning tasks per frustum: the segments rounded up to a power of two,
/// at least the prepass capacity.
pub open spec fn base_binning(d: PrepassDemand, s: PrepassItemSizes) -> int {
    npot_at_least(d.total_segment_budget as int, cap_prepass(d, s))
}

pub open spec fn frustum_multiplier(d: PrepassDemand) -> int {
    max(d.frustum_count as int, 1)
}

pub open spec fn req_binning(d: PrepassDemand, s: PrepassItemSizes) -> int {
    npot_at_least(
        saturating_mul_u32(base_binning(d, s), frustum_multiplier(d)),
        base_binning(d, s),
    )
}

pub open spec fn cap_binning(d: PrepassDemand, s: PrepassItemSizes) -> int {
    capped_capacity(req_binning(d, s) as u32, QUEUE_HEADER_BYTES, s.binning_task, d.max_storage_binding_bytes)
}

pub open spec fn cap_instance(d: PrepassDemand) -> int {
    npot_at_least(d.instance_count as int, 2048)
}

pub open spec fn cap_frustum(d: PrepassDemand) -> int {
    npot_at_least(d.frustum_count as int, 1)
}

pub open spec fn req_coarse_depth_tile(d: PrepassDemand) -> int {
    npot_at_least(d.coarse_depth_tile_total as int, 1)
}

pub open spec fn cap_coarse_depth_tile(d: PrepassDemand, s: PrepassItemSizes) -> int {
    capped_capacity(
        req_coarse_depth_tile(d) as u32,
        0,
        (COARSE_DEPTH_SLICES as int * s.coarse_depth_lut_entry) as u64,
        d.max_storage_binding_bytes,
    )
}

pub open spec fn cap_coarse_count_page_table(d: PrepassDemand, s: PrepassItemSizes) -> int {
    npot_at_least(saturating_mul_u32(cap_coarse_depth_tile(d, s), COARSE_DEPTH_SLICES as int), 1)
}

pub open spec fn req_coarse_range(d: PrepassDemand) -> int {
    npot_at_least(saturating_mul_u32(cap_instance(d), cap_frustum(d)), 1)
}

pub open spec fn cap_coarse_range(d: PrepassDemand, s: PrepassItemSizes) -> int {
    capped_capacity(req_coarse_range(d) as u32, QUEUE_HEADER_BYTES, s.coarse_asset_range, d.max_storage_binding_bytes)
}

pub open spec fn req_coarse_interval_ref(d: PrepassDemand, s: PrepassItemSizes) -> int {
    npot_at_least(
        saturating_mul_u32(cap_coarse_depth_tile(d, s), COARSE_INTERVAL_REFS_PER_TILE as int),
        cap_coarse_range(d, s),
    )
}

pub open spec fn cap_coarse_interval_ref(d: PrepassDemand, s: PrepassItemSizes) -> int {
    capped_capacity(req_coarse_interval_ref(d, s) as u32, 4, s.coarse_interval_ref, d.max_storage_binding_bytes)
}

pub open spec fn req_coarse_count_page(d: PrepassDemand, s: PrepassItemSizes) -> int {
    max(div_ceil(cap_coarse_count_page_table(d, s), COARSE_COUNT_PAGE_CAPACITY_DIVISOR as int), 1)
}

pub open spec fn cap_coarse_count_page(d: PrepassDemand, s: PrepassItemSizes) -> int {
    capped_capacity(
        req_coarse_count_page(d, s) as u32,
        4,
        (COARSE_COUNT_PAGE_SIZE as int * 4) as u64,
        d.max_storage_binding_bytes,
    )
}

pub open spec fn req_fine_seg_ref(d: PrepassDemand, s: PrepassItemSizes) -> int {
    npot_at_least(saturating_mul_u32(cap_binning(d, s), 4), max(cap_binning(d, s), 1024))
}

pub open spec fn req_raster_work(d: PrepassDemand, s: PrepassItemSizes) -> int {
    npot_at_least(saturating_mul_u32(cap_binning(d, s), 2), max(cap_binning(d, s), 1024))
}

pub open spec fn req_raster_tile_run(d: PrepassDemand, s: PrepassItemSizes) -> int {
    npot_at_least(
        saturating_mul_u32(
            saturating_mul_u32(cap_coarse_depth_tile(d, s), COARSE_FINE_TILE_EXTENT as int),
            COARSE_FINE_TILE_EXTENT as int,
        ),
        1024,
    )
}

/// Every value rounded up to a power of two on the way fits in `u32`
/// (no rounding overflows), and the coarse depth entries of a tile can be
/// counted in bytes.
pub open spec fn prepass_demand_in_range(d: PrepassDemand, s: PrepassItemSizes) -> bool {
    let limit = 0x8000_0000int;
    &&& s.coarse_depth_lut_entry * COARSE_DEPTH_SLICES <= u64::MAX
    &&& d.total_strands <= limit
    &&& d.total_segment_budget <= limit
    &&& saturating_mul_u32(base_binning(d, s), frustum_multiplier(d)) <= limit
    &&& d.instance_count <= limit
    &&& d.frustum_count <= limit
    &&& d.bucket_total <= limit
    &&& d.coarse_depth_tile_total <= limit
    &&& saturating_mul_u32(cap_coarse_depth_tile(d, s), COARSE_DEPTH_SLICES as int) <= limit
    &&& saturating_mul_u32(cap_instance(d), cap_frustum(d)) <= limit
    &&& saturating_mul_u32(cap_coarse_depth_tile(d, s), COARSE_INTERVAL_REFS_PER_TILE as int) <= limit
    &&& saturating_mul_u32(cap_binning(d, s), 4) <= limit
    &&& saturating_mul_u32(cap_binning(d, s), 2) <= limit
    &&& saturating_mul_u32(
        saturating_mul_u32(cap_coarse_depth_tile(d, s), COARSE_FINE_TILE_EXTENT as int),
        COARSE_FINE_TILE_EXTENT as int,
    ) <= limit
    &&& d.fine_depth_tile_total <= limit
}

/// The planned capacities: each request rounded up to a power of two
/// with its floor, then capped to one storage binding.
pub open spec fn prepass_plan(d: PrepassDemand, s: PrepassItemSizes) -> PrepassCapacities {
    PrepassCapacities {
        requested_prepass: req_prepass(d) as u32,
        prepass: cap_prepass(d, s) as u32,
        requested_binning: req_binning(d, s) as u32,
        binning: cap_binning(d, s) as u32,
        instance: cap_instance(d) as u32,
        frustum: cap_frustum(d) as u32,
        froxel_bucket: npot_at_least(d.bucket_total as int, 1024) as u32,
        requested_coarse_depth_tile: req_coarse_depth_tile(d) as u32,
        coarse_depth_tile: cap_coarse_depth_tile(d, s) as u32,
        coarse_count_page_table: cap_coarse_count_page_table(d, s) as u32,
        requested_coarse_range: req_coarse_range(d) as u32,
        coarse_range: cap_coarse_range(d, s) as u32,
        requested_coarse_interval_ref: req_coarse_interval_ref(d, s) as u32,
        coarse_interval_ref: cap_coarse_interval_ref(d, s) as u32,
        requested_coarse_count_page: req_coarse_count_page(d, s) as u32,
        coarse_count_page: cap_coarse_count_page(d, s) as u32,
        fine_cell: saturating_mul_u32(cap_coarse_count_page(d, s), COARSE_COUNT_PAGE_SIZE as int) as u32,
        requested_fine_seg_ref: req_fine_seg_ref(d, s) as u32,
        fine_seg_ref: capped_capacity(
            req_fine_seg_ref(d, s) as u32,
            4,
            s.fine_seg_ref,
            d.max_storage_binding_bytes,
        ) as u32,
        requested_raster_work: req_raster_work(d, s) as u32,
        raster_work: capped_capacity(
            req_raster_work(d, s) as u32,
            QUEUE_HEADER_BYTES,
            s.raster_work_item,
            d.max_storage_binding_bytes,
        ) as u32,
        requested_raster_tile_run: req_raster_tile_run(d, s) as u32,
        raster_tile_run: capped_capacity(
            req_raster_tile_run(d, s) as u32,
            QUEUE_HEADER_BYTES,
            s.raster_tile_run,
            d.max_storage_binding_bytes,
        ) as u32,
        opaque_fine_depth_tile: npot_at_least(d.fine_depth_tile_total as int, 1) as u32,
    }
}

fn npot_at_least_u32(x: u32, floor: u32) -> (r: u32)
    requires
        x <= 0x8000_0000,
    ensures
        r == npot_at_least(x as int, floor as int),
{
    proof {
        lemma_npot_bound(x as int);
    }
    let p = next_power_of_two_u32(x);
    if p >= floor {
        p
    } else {
        floor
    }
}

/// Rounding up to a power of two stays below `2 * x` (and is 1 for 0).
pub proof fn lemma_npot_bound(x: int)
    requires
        0 <= x,
    ensures
        next_power_of_two(x) <= max(2 * x - 1, 1),
        next_power_of_two(x) >= 1,
{
    crate::math::lemma_next_power_of_two(x);
    let p = next_power_of_two(x);
    if p != 1 {
        assert(p % 2 == 0);
    }
}

/// Plans the capacity of every queue and table of the prepass for the
/// demand (see [`prepass_plan`]).
pub fn plan_prepass_capacities(d: &PrepassDemand, s: &PrepassItemSizes) -> (plan: PrepassCapacities)
    requires
        prepass_demand_in_range(*d, *s),
    ensures
        plan == prepass_plan(*d, *s),
{
    let m = d.max_storage_binding_bytes;
    let requested_prepass = npot_at_least_u32(d.total_strands, 2048);
    let prepass = cap_storage_capacity(requested_prepass, QUEUE_HEADER_BYTES, s.fine_prepass_task, m);
    let base_binning = npot_at_least_u32(d.total_segment_budget, prepass);
    let multiplier = if d.frustum_count >= 1 {
        d.frustum_count
    } else {
        1
    };
    let requested_binning = npot_at_least_u32(
        saturating_mul_u32_exec(base_binning, multiplier),
        base_binning,
    );
    let binning = cap_storage_capacity(requested_binning, QUEUE_HEADER_BYTES, s.binning_task, m);
    let instance = npot_at_least_u32(d.instance_count, 2048);
    let frustum = npot_at_least_u32(d.frustum_count, 1);
    let froxel_bucket = npot_at_least_u32(d.bucket_total, 1024);
    let requested_coarse_depth_tile = npot_at_least_u32(d.coarse_depth_tile_total, 1);
    let coarse_depth_tile = cap_storage_capacity(
        requested_coarse_depth_tile,
        0,
        (COARSE_DEPTH_SLICES as u64) * s.coarse_depth_lut_entry,
        m,
    );
    let coarse_count_page_table = npot_at_least_u32(
        saturating_mul_u32_exec(coarse_depth_tile, COARSE_DEPTH_SLICES),
        1,
    );
    let requested_coarse_range = npot_at_least_u32(saturating_mul_u32_exec(instance, frustum), 1);
    let coarse_range = cap_storage_capacity(requested_coarse_range, QUEUE_HEADER_BYTES, s.coarse_asset_range, m);
    let requested_coarse_interval_ref = npot_at_least_u32(
        saturating_mul_u32_exec(coarse_depth_tile, COARSE_INTERVAL_REFS_PER_TILE),
        coarse_range,
    );
    let coarse_interval_ref = cap_storage_capacity(requested_coarse_interval_ref, 4, s.coarse_interval_ref, m);
    let half = div_ceil_u32(coarse_count_page_table, COARSE_COUNT_PAGE_CAPACITY_DIVISOR);
    let requested_coarse_count_page = if half >= 1 {
        half
    } else {
        1
    };
    let coarse_count_page = cap_storage_capacity(
        requested_coarse_count_page,
        4,
        (COARSE_COUNT_PAGE_SIZE as u64) * 4,
        m,
    );
    let fine_cell = saturating_mul_u32_exec(coarse_count_page, COARSE_COUNT_PAGE_SIZE);
    let binning_floor = if binning >= 1024 {
        binning
    } else {
        1024
    };
    let requested_fine_seg_ref = npot_at_least_u32(saturating_mul_u32_exec(binning, 4), binning_floor);
    let fine_seg_ref = cap_storage_capacity(requested_fine_seg_ref, 4, s.fine_seg_ref, m);
    let requested_raster_work = npot_at_least_u32(saturating_mul_u32_exec(binning, 2), binning_floor);
    let raster_work = cap_storage_capacity(requested_raster_work, QUEUE_HEADER_BYTES, s.raster_work_item, m);
    let requested_raster_tile_run = npot_at_least_u32(
        saturating_mul_u32_exec(
            saturating_mul_u32_exec(coarse_depth_tile, COARSE_FINE_TILE_EXTENT),
            COARSE_FINE_TILE_EXTENT,
        ),
        1024,
    );
    let raster_tile_run = cap_storage_capacity(
        requested_raster_tile_run,
        QUEUE_HEADER_BYTES,
        s.raster_tile_run,
        m,
    );
    let opaque_fine_depth_tile = npot_at_least_u32(d.fine_depth_tile_total, 1);
    PrepassCapacities {
        requested_prepass,
        prepass,
        requested_binning,
        binning,
        instance,
        frustum,
        froxel_bucket,
        requested_coarse_depth_tile,
        coarse_depth_tile,
        coarse_count_page_table,
        requested_coarse_range,
        coarse_range,
        requested_coarse_interval_ref,
        coarse_interval_ref,
        requested_coarse_count_page,
        coarse_count_page,
        fine_cell,
        requested_fine_seg_ref,
        fine_seg_ref,
        requested_raster_work,
        raster_work,
        requested_raster_tile_run,
        raster_tile_run,
        opaque_fine_depth_tile,
    }
}

/// The current capacities hold the planned ones: every capacity that
/// sizes a buffer is at least as large as planned.
pub open spec fn capacities_cover(current: PrepassCapacities, planned: PrepassCapacities) -> bool {
    &&& current.prepass >= planned.prepass
    &&& current.binning >= planned.binning
    &&& current.instance >= planned.instance
    &&& current.frustum >= planned.frustum
    &&& current.froxel_bucket >= planned.froxel_bucket
    &&& current.raster_work >= planned.raster_work
    &&& current.raster_tile_run >= planned.raster_tile_run
    &&& current.coarse_depth_tile >= planned.coarse_depth_tile
    &&& current.coarse_range >= planned.coarse_range
    &&& current.coarse_interval_ref >= planned.coarse_interval_ref
    &&& current.coarse_count_page >= planned.coarse_count_page
    &&& current.fine_seg_ref >= planned.fine_seg_ref
    &&& current.opaque_fine_depth_tile >= planned.opaque_fine_depth_tile
}

/// Whether the prepass buffers must be (re)created: some buffer is
/// missing, or a planned capacity exceeds the current one. So buffers that
/// are kept cover the frame's plan.
pub fn needs_prepass_realloc(
    any_buffer_missing: bool,
    current: &PrepassCapacities,
    planned: &PrepassCapacities,
) -> (realloc: bool)
    ensures
        realloc == (any_buffer_missing || !capacities_cover(*current, *planned)),
{
    any_buffer_missing || current.prepass < planned.prepass || current.binning < planned.binning
        || current.instance < planned.instance || current.frustum < planned.frustum
        || current.froxel_bucket < planned.froxel_bucket || current.raster_work < planned.raster_work
        || current.raster_tile_run < planned.raster_tile_run || current.coarse_depth_tile
        < planned.coarse_depth_tile || current.coarse_range < planned.coarse_range
        || current.coarse_interval_ref < planned.coarse_interval_ref || current.coarse_count_page
        < planned.coarse_count_page || current.fine_seg_ref < planned.fine_seg_ref
        || current.opaque_fine_depth_tile < planned.opaque_fine_depth_tile
}

/// Whether the shading targets must be recreated: there is none yet, or
/// the texels per instance or the instance count changed.
pub fn needs_shading_realloc(
    has_output_texture: bool,
    current_max_texels: Option<u32>,
    current_layer_count: Option<u32>,
    max_shading_texels_in_instance: u32,
    instance_count: u32,
) -> (realloc: bool)
    ensures
        realloc == (!has_output_texture || current_max_texels != Some(max_shading_texels_in_instance)
            || current_layer_count != Some(instance_count)),
{
    let texels_differ = match current_max_texels {
        Some(t) => t != max_shading_texels_in_instance,
        None => true,
    };
    let layers_differ = match current_layer_count {
        Some(l) => l != instance_count,
        None => true,
    };
    !has_output_texture || texels_differ || layers_differ
}

/// The prepass demand that geometry `g` and frusta `fs` make.
pub open spec fn planned_demand(
    g: Seq<GeometrySummary>,
    fs: Seq<FrustumInput>,
    max_storage_binding_bytes: u64,
) -> PrepassDemand {
    let t = geometry_totals(g);
    let (bucket_total, coarse_total, fine_total) = if fs.len() == 0 {
        (1u32, 1u32, 1u32)
    } else {
        frustum_bases(fs)
    };
    PrepassDemand {
        total_strands: t.total_strands,
        total_segment_budget: t.total_segment_budget,
        instance_count: t.instance_count,
        frustum_count: (if fs.len() == 0 { 1 } else { fs.len() }) as u32,
        bucket_total,
        coarse_depth_tile_total: coarse_total,
        fine_depth_tile_total: fine_total,
        max_storage_binding_bytes,
    }
}

/// The plan of one prepass frame.
#[derive(Clone, Debug)]
pub struct PrepassPlan {
    pub totals: GeometryTotals,
    pub frusta: FrustumTable,
    pub demand: PrepassDemand,
    pub capacities: PrepassCapacities,
}

/// Plans a prepass frame: totals over the geometry in view, the frustum
/// table, and every capacity. There is nothing to plan, `None`, when no
/// strand is in view.
pub fn plan_prepass(
    geometry: &[GeometrySummary],
    frusta: &[FrustumInput],
    max_storage_binding_bytes: u64,
    sizes: &PrepassItemSizes,
) -> (plan: Option<PrepassPlan>)
    requires
        geometry_totals(geometry@).total_strands != 0 ==> {
            &&& forall|i: int| 0 <= i < frusta@.len() ==> (#[trigger] frusta@[i]).config.counts_fit()
            &&& prepass_demand_in_range(planned_demand(geometry@, frusta@, max_storage_binding_bytes), *sizes)
        },
    ensures
        plan is None <==> geometry_totals(geometry@).total_strands == 0,
        plan matches Some(p) ==> {
            &&& p.totals == geometry_totals(geometry@)
            &&& is_frustum_table(frusta@, p.frusta)
            &&& p.demand == planned_demand(geometry@, frusta@, max_storage_binding_bytes)
            &&& p.capacities == prepass_plan(p.demand, *sizes)
        },
{
    let totals = summarize_geometry(geometry);
    if totals.total_strands == 0 {
        return None;
    }
    let table = build_frustum_table(frusta);
    let demand = PrepassDemand {
        total_strands: totals.total_strands,
        total_segment_budget: totals.total_segment_budget,
        instance_count: totals.instance_count,
        frustum_count: table.descs.len() as u32,
        bucket_total: table.bucket_total,
        coarse_depth_tile_total: table.coarse_depth_tile_total,
        fine_depth_tile_total: table.fine_depth_tile_total,
        max_storage_binding_bytes,
    };
    assert(demand == planned_demand(geometry@, frusta@, max_storage_binding_bytes));
    let capacities = plan_prepass_capacities(&demand, sizes);
    Some(PrepassPlan { totals, frusta: table, demand, capacities })
}

/// Whether planning for `d` stays in range (see
/// [`prepass_demand_in_range`]): computed as the planner would, stopping at
/// the first value that is too large to round up.
pub fn prepass_demand_fits(d: &PrepassDemand, s: &PrepassItemSizes) -> (fits: bool)
    ensures
        fits == prepass_demand_in_range(*d, *s),
{
    let limit: u32 = 0x8000_0000;
    if s.coarse_depth_lut_entry > u64::MAX / 16 {
        return false;
    }
    if d.total_strands > limit || d.total_segment_budget > limit || d.instance_count > limit
        || d.frustum_count > limit || d.bucket_total > limit || d.coarse_depth_tile_total > limit
        || d.fine_depth_tile_total > limit {
        return false;
    }
    let m = d.max_storage_binding_bytes;
    let requested_prepass = npot_at_least_u32(d.total_strands, 2048);
    let prepass = cap_storage_capacity(requested_prepass, QUEUE_HEADER_BYTES, s.fine_prepass_task, m);
    let base_binning = npot_at_least_u32(d.total_segment_budget, prepass);
    let multiplier = if d.frustum_count >= 1 {
        d.frustum_count
    } else {
        1
    };
    let scaled = saturating_mul_u32_exec(base_binning, multiplier);
    if scaled > limit {
        return false;
    }
    let requested_binning = npot_at_least_u32(scaled, base_binning);
    let binning = cap_storage_capacity(requested_binning, QUEUE_HEADER_BYTES, s.binning_task, m);
    let instance = npot_at_least_u32(d.instance_count, 2048);
    let frustum = npot_at_least_u32(d.frustum_count, 1);
    let requested_coarse_depth_tile = npot_at_least_u32(d.coarse_depth_tile_total, 1);
    let coarse_depth_tile = cap_storage_capacity(
        requested_coarse_depth_tile,
        0,
        (COARSE_DEPTH_SLICES as u64) * s.coarse_depth_lut_entry,
        m,
    );
    saturating_mul_u32_exec(coarse_depth_tile, COARSE_DEPTH_SLICES) <= limit
        && saturating_mul_u32_exec(instance, frustum) <= limit
        && saturating_mul_u32_exec(coarse_depth_tile, COARSE_INTERVAL_REFS_PER_TILE) <= limit
        && saturating_mul_u32_exec(binning, 4) <= limit
        && saturating_mul_u32_exec(binning, 2) <= limit
        && saturating_mul_u32_exec(
        saturating_mul_u32_exec(coarse_depth_tile, COARSE_FINE_TILE_EXTENT),
        COARSE_FINE_TILE_EXTENT,
    ) <= limit
}

/// The outcome of planning a prepass frame on unchecked input.
#[derive(Clone, Debug)]
pub enum PrepassPlanning {
    /// No strand is in view.
    Idle,
    /// A froxel grid cannot be counted in `u32`, or a capacity would not
    /// round up to a power of two in `u32`.
    OutOfRange,
    Planned(PrepassPlan),
}

/// Plans a prepass frame like [`plan_prepass`]: idle when no strand is in
/// view, before anything else is looked at; else it first checks what
/// planning requires (every froxel grid countable in `u32`, the demand in
/// range).
pub fn plan_prepass_checked(
    geometry: &[GeometrySummary],
    frusta: &[FrustumInput],
    max_storage_binding_bytes: u64,
    sizes: &PrepassItemSizes,
) -> (r: PrepassPlanning)
    ensures
        ({
            let grids_fit = forall|i: int| 0 <= i < frusta@.len() ==> (#[trigger] frusta@[i]).config.counts_fit();
            let demand = planned_demand(geometry@, frusta@, max_storage_binding_bytes);
            let idle = geometry_totals(geometry@).total_strands == 0;
            match r {
                PrepassPlanning::Idle => idle,
                PrepassPlanning::OutOfRange => !idle && (!grids_fit || !prepass_demand_in_range(demand, *sizes)),
                PrepassPlanning::Planned(p) => {
                    &&& !idle
                    &&& grids_fit
                    &&& prepass_demand_in_range(demand, *sizes)
                    &&& p.totals == geometry_totals(geometry@)
                    &&& is_frustum_table(frusta@, p.frusta)
                    &&& p.demand == demand
                    &&& p.capacities == prepass_plan(p.demand, *sizes)
                },
            }
        }),
{
    let totals = summarize_geometry(geometry);
    if totals.total_strands == 0 {
        return PrepassPlanning::Idle;
    }
    let mut i: usize = 0;
    while i < frusta.len()
        invariant
            0 <= i <= frusta@.len(),
            forall|k: int| 0 <= k < i ==> (#[trigger] frusta@[k]).config.counts_fit(),
            geometry_totals(geometry@).total_strands != 0,
        decreases frusta@.len() - i,
    {
        if !frusta[i].config.counts_fit_exec() {
            return PrepassPlanning::OutOfRange;
        }
        i = i + 1;
    }
    let table = build_frustum_table(frusta);
    let demand = PrepassDemand {
        total_strands: totals.total_strands,
        total_segment_budget: totals.total_segment_budget,
        instance_count: totals.instance_count,
        frustum_count: table.descs.len() as u32,
        bucket_total: table.bucket_total,
        coarse_depth_tile_total: table.coarse_depth_tile_total,
        fine_depth_tile_total: table.fine_depth_tile_total,
        max_storage_binding_bytes,
    };
    assert(demand == planned_demand(geometry@, frusta@, max_storage_binding_bytes));
    if !prepass_demand_fits(&demand, sizes) {
        return PrepassPlanning::OutOfRange;
    }
    match plan_prepass(geometry, frusta, max_storage_binding_bytes, sizes) {
        Some(p) => PrepassPlanning::Planned(p),
        None => PrepassPlanning::Idle,
    }
}

/// Each planned request covers what the frame demands: the fine-prepass
/// queue the strands (at least 2048), the binning queue the segment budget
/// (at least the fine-prepass capacity), the instances, frusta, froxel
/// buckets (at least 1024), coarse and fine depth tiles their totals; and
/// no capped capacity exceeds its request.
pub proof fn lemma_plan_covers_demand(d: PrepassDemand, s: PrepassItemSizes)
    requires
        prepass_demand_in_range(d, s),
    ensures
        ({
            let p = prepass_plan(d, s);
            &&& p.requested_prepass >= d.total_strands && p.requested_prepass >= 2048
            &&& p.prepass <= p.requested_prepass
            &&& p.requested_binning >= d.total_segment_budget && p.requested_binning >= p.prepass
            &&& p.binning <= p.requested_binning
            &&& p.instance >= d.instance_count && p.instance >= 2048
            &&& p.frustum >= d.frustum_count && p.frustum >= 1
            &&& p.froxel_bucket >= d.bucket_total && p.froxel_bucket >= 1024
            &&& p.requested_coarse_depth_tile >= d.coarse_depth_tile_total
            &&& p.coarse_depth_tile <= p.requested_coarse_depth_tile
            &&& p.opaque_fine_depth_tile >= d.fine_depth_tile_total
        }),
{
    let limit = 0x8000_0000int;
    crate::math::lemma_next_power_of_two(d.total_strands as int);
    lemma_npot_bound(d.total_strands as int);
    crate::math::lemma_next_power_of_two(d.total_segment_budget as int);
    lemma_npot_bound(d.total_segment_budget as int);
    crate::math::lemma_next_power_of_two(d.instance_count as int);
    lemma_npot_bound(d.instance_count as int);
    crate::math::lemma_next_power_of_two(d.frustum_count as int);
    lemma_npot_bound(d.frustum_count as int);
    crate::math::lemma_next_power_of_two(d.bucket_total as int);
    lemma_npot_bound(d.bucket_total as int);
    crate::math::lemma_next_power_of_two(d.coarse_depth_tile_total as int);
    lemma_npot_bound(d.coarse_depth_tile_total as int);
    crate::math::lemma_next_power_of_two(d.fine_depth_tile_total as int);
    lemma_npot_bound(d.fine_depth_tile_total as int);
    let bm = saturating_mul_u32(base_binning(d, s), frustum_multiplier(d));
    crate::math::lemma_next_power_of_two(bm);
    lemma_npot_bound(bm);
    lemma_capped_capacity_fits(req_prepass(d) as u32, QUEUE_HEADER_BYTES, s.fine_prepass_task, d.max_storage_binding_bytes);
    lemma_capped_capacity_fits(req_binning(d, s) as u32, QUEUE_HEADER_BYTES, s.binning_task, d.max_storage_binding_bytes);
    lemma_capped_capacity_fits(
        req_coarse_depth_tile(d) as u32,
        0,
        (COARSE_DEPTH_SLICES as int * s.coarse_depth_lut_entry) as u64,
        d.max_storage_binding_bytes,
    );
    assert(limit <= u32::MAX);
}

} // verus!
