# strand_software_rasterizer

The CPU side of a GPU software rasterizer for hair and fur strands,
verified with Verus. The renderer itself (compute pipelines, bind groups,
command recording) runs in a game engine; this crate holds the parts that
decide what it uploads and dispatches, each with a contract.

## Layout

- `src/` — the verified library.
  - `strand_cache` — the binary and JSON strand cache formats: decoding,
    validation, laying JSON strands out.
  - `geometry` — packing strands into the index and strand-meta buffers.
  - `allocator` — the paging allocator: slab pools with best-fit placement
    (through `range-alloc`), page tables and bind-group layouts.
  - `capacity` — totals over the geometry in view, the frustum table and the
    capacity of every prepass queue and table.
  - `instances` — the instances of a frame, in entity order, with their
    buffer table ids.
  - `buffer_sizes` — the byte size of every prepass buffer and what each
    frame writes into them first.
  - `froxel`, `frusta` — froxel grids, raster sizes, and frustum numbering.
  - `binning`, `prepass`, `dispatch`, `passes`, `resources` — dispatch plans
    and per-frame decisions of the render passes.
  - `task_contract`, `shader_types`, `dson` — records shared with the
    shaders and the DSON scene format.
- `tests/` — tests of the library on concrete values.
- `app/` — a command-line front end: file I/O, serde models, byte-exact
  GPU records and the floating-point pieces.
