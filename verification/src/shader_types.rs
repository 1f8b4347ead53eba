//! Host-side mirrors of the records the strand shaders read.
use vstd::prelude::*;

verus! {

/// Push constants shared by the compute passes.
#[derive(Clone, Copy, Debug, Default, PartialEq, Eq)]
pub struct PushConstants {
    /// Workgroup offset of a continuation dispatch.
    pub workgroup_offset: u32,
    /// Generic element count (strands, tiles, ...).
    pub num_elements: u32,
    pub scan_load_base: u32,
    pub scan_save_base: u32,
}

/// One strand of a packed geometry: `count` vertices whose indices start
/// at `offset` in the index buffer.
#[derive(Clone, Copy, Debug, PartialEq, Eq)]
pub struct StrandMeta {
    pub count: u32,
    pub offset: u32,
    pub material_idx: u32,
    /// Padding to the shader's 16-byte stride; always zero.
    pub pad1: u32,
}

impl StrandMeta {
    /// The record of a strand with material 0.
    pub open spec fn spec_of(count: u32, offset: u32) -> StrandMeta {
        StrandMeta { count, offset, material_idx: 0, pad1: 0 }
    }
}

impl From<(u32, u32)> for StrandMeta {
    fn from(v: (u32, u32)) -> (meta: Self) {
        StrandMeta { count: v.0, offset: v.1, material_idx: 0, pad1: 0 }
    }
}

impl vstd::std_specs::convert::FromSpecImpl<(u32, u32)> for StrandMeta {
    open spec fn obeys_from_spec() -> bool {
        true
    }

    open spec fn from_spec(v: (u32, u32)) -> StrandMeta {
        StrandMeta::spec_of(v.0, v.1)
    }
}

/// A fine prepass work item: a geometry and how many strands it has.
#[derive(Clone, Copy, Debug, Default, PartialEq, Eq)]
pub struct FinePrepassTask {
    geo_id: u32,
    strand_count: u32,
}

/// A binning work item: a segment of a strand of a geometry, for a view or
/// a light. Bit 0 of `view_idx` is 0 for a view and 1 for a light; bits
/// 1..2 give the light type (point 0, spot 1, directional 2); the rest
/// index the light buffer.
#[derive(Clone, Copy, Debug, Default, PartialEq, Eq)]
pub struct BinningTask {
    seg_idx: u32,
    strand_idx: u32,
    geo_idx: u32,
    view_idx: u32,
}

} // verus!
