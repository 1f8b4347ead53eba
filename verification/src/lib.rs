//! Verified core of a software strand (hair) rasterizer: the queue/task
//! ABI, the strand cache file format, GPU paging-allocator bookkeeping and
//! the capacity and dispatch planning that the render passes rely on.

pub mod allocator;
pub mod binning;
pub mod buffer_sizes;
pub mod capacity;
pub mod dispatch;
pub mod dson;
pub mod froxel;
pub mod frusta;
pub mod geometry;
pub mod instances;
pub mod math;
pub mod passes;
pub mod prepass;
pub mod resources;
pub mod shader_types;
pub mod strand_cache;
pub mod task_contract;
