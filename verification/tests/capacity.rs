use strand_software_rasterizer::buffer_sizes::{frame_resets, prepass_buffer_bytes, prepass_buffer_bytes_fit_exec, FrameBuffer, PrepassBufferItemSizes};
use strand_software_rasterizer::frusta::{build_frustum_table_by_id, order_by_rank};
use strand_software_rasterizer::capacity::{plan_prepass_checked, prepass_demand_fits, PrepassDemand, PrepassPlanning};
use strand_software_rasterizer::capacity::{
    build_frustum_table, cap_storage_capacity, dom_resident_page_budget, dom_surface_extent,
    needs_prepass_realloc, needs_shading_realloc, plan_prepass, summarize_geometry, FrustumInput,
    GeometrySummary, PrepassItemSizes, QUEUE_HEADER_BYTES,
};
use strand_software_rasterizer::froxel::{
    compute_active_raster_size, froxel_size_from_viewport, grow_to_capacity, prepare_binning_buffers,
    tie_view_to_froxel_config, tiles_for, FroxelCapacity, FroxelConfig, TieFroxelsToView, UVec2,
};

fn grid(w: u32, h: u32, fx: u32, fy: u32, d: u32) -> FroxelConfig {
    FroxelConfig { screen_width: w, screen_height: h, froxel_size_x: fx, froxel_size_y: fy, depth_slices: d }
}

#[test]
fn storage_capacity_is_capped_to_one_binding() {
    // 1000 bytes, 8 of header, 16 per item: 62 items fit.
    assert_eq!(cap_storage_capacity(100, 8, 16, 1000), 62);
    assert_eq!(cap_storage_capacity(10, 8, 16, 1000), 10);
    // A header larger than the binding leaves room for nothing.
    assert_eq!(cap_storage_capacity(10, 2000, 16, 1000), 0);
    // A zero item size imposes no cap.
    assert_eq!(cap_storage_capacity(10, 8, 0, 1000), 10);
    // The capped count and its header fit.
    let c = cap_storage_capacity(u32::MAX, QUEUE_HEADER_BYTES, 12, 1 << 20) as u64;
    assert!(QUEUE_HEADER_BYTES + c * 12 <= 1 << 20);
    assert!(QUEUE_HEADER_BYTES + (c + 1) * 12 > 1 << 20);
}

#[test]
fn dom_page_budgets() {
    assert_eq!(dom_resident_page_budget(0), 1);
    assert_eq!(dom_resident_page_budget(3), 3);
    assert_eq!(dom_resident_page_budget(16), 4);
    assert_eq!(dom_resident_page_budget(800), 100);
    assert_eq!(dom_resident_page_budget(100_000), 256);

    let e = dom_surface_extent(1000, 10);
    assert_eq!(e.virtual_width, 2000);
    assert_eq!(e.virtual_height, 256);
    assert_eq!(e.depth_tile_count, 8);
    assert_eq!(e.opacity_tile_count, 8);
    assert_eq!(e.depth_resident_pages, 4);
    let big = dom_surface_extent(u32::MAX, 5000);
    assert_eq!(big.virtual_width, 8192);
    assert_eq!(big.virtual_height, 8192);
    assert_eq!(big.depth_tile_count, 1024);
    assert_eq!(big.depth_resident_pages, 128);
}

#[test]
fn geometry_totals_sum_and_maximise() {
    let g = [
        GeometrySummary { strand_count: 10, index_count: 50, max_segments_in_strand: 6 },
        GeometrySummary { strand_count: 4, index_count: 40, max_segments_in_strand: 12 },
    ];
    let t = summarize_geometry(&g);
    assert_eq!(t.total_strands, 14);
    assert_eq!(t.total_segment_budget, 76);
    assert_eq!(t.max_strands_in_instance, 10);
    assert_eq!(t.max_segments_in_strand, 12);
    assert_eq!(t.max_shading_texels_in_instance, 50);
    assert_eq!(t.instance_count, 2);
}

#[test]
fn frustum_table_lays_frusta_end_to_end() {
    let frusta = [
        FrustumInput { config: grid(64, 32, 8, 8, 4), is_light: false, cascade_index: 0 },
        FrustumInput { config: grid(16, 16, 8, 8, 2), is_light: true, cascade_index: 3 },
    ];
    let table = build_frustum_table(&frusta);
    assert_eq!(table.descs.len(), 2);
    let a = table.descs[0];
    assert_eq!((a.bucket_base, a.bucket_count), (0, 8 * 4 * 4));
    assert_eq!((a.coarse_tiles_x, a.coarse_tiles_y, a.coarse_depth_tile_count), (2, 1, 2));
    assert_eq!(a.kind, 0);
    let b = table.descs[1];
    assert_eq!(b.bucket_base, 128);
    assert_eq!(b.bucket_count, 8);
    assert_eq!(b.coarse_depth_tile_base, 2);
    assert_eq!(b.fine_depth_tile_base, 32);
    assert_eq!((b.kind, b.cascade_index), (1, 3));
    assert_eq!(table.bucket_total, 136);
    assert_eq!(table.coarse_depth_tile_total, 3);
    assert_eq!(table.fine_depth_tile_total, 36);

    let empty = build_frustum_table(&[]);
    assert_eq!(empty.descs.len(), 1);
    assert_eq!(empty.descs[0].bucket_count, 1);
    assert_eq!(empty.bucket_total, 1);
}

fn sizes() -> PrepassItemSizes {
    PrepassItemSizes {
        fine_prepass_task: 8,
        binning_task: 16,
        coarse_depth_lut_entry: 4,
        coarse_asset_range: 8,
        coarse_interval_ref: 4,
        fine_seg_ref: 4,
        raster_work_item: 8,
        raster_tile_run: 16,
    }
}

#[test]
fn prepass_plan_rounds_and_caps() {
    let g = [GeometrySummary { strand_count: 3000, index_count: 30000, max_segments_in_strand: 10 }];
    let frusta = [FrustumInput { config: grid(64, 64, 8, 8, 4), is_light: false, cascade_index: 0 }];
    let plan = plan_prepass(&g, &frusta, 1 << 30, &sizes()).unwrap();
    let c = plan.capacities;
    assert_eq!(c.requested_prepass, 4096);
    assert_eq!(c.prepass, 4096);
    // 27000 segments round up to 32768 per frustum.
    assert_eq!(c.binning, 32768);
    assert_eq!(c.instance, 2048);
    assert_eq!(c.frustum, 1);
    assert_eq!(c.froxel_bucket, 1024);
    assert_eq!(c.coarse_depth_tile, 4);
    assert_eq!(c.coarse_count_page_table, 64);
    assert_eq!(c.coarse_count_page, 32);
    assert_eq!(c.fine_cell, 32 * 256);
    assert_eq!(c.opaque_fine_depth_tile, 64);

    // A tight binding caps the queues.
    let tight = plan_prepass(&g, &frusta, 8 + 8 * 100, &sizes()).unwrap();
    assert_eq!(tight.capacities.requested_prepass, 4096);
    assert_eq!(tight.capacities.prepass, 100);

    // Nothing in view: nothing to plan.
    assert!(plan_prepass(&[], &frusta, 1 << 30, &sizes()).is_none());
}

#[test]
fn realloc_decisions() {
    let g = [GeometrySummary { strand_count: 10, index_count: 30, max_segments_in_strand: 3 }];
    let plan = plan_prepass(&g, &[], 1 << 30, &sizes()).unwrap();
    let c = plan.capacities;
    assert!(!needs_prepass_realloc(false, &c, &c));
    assert!(needs_prepass_realloc(true, &c, &c));
    let mut smaller = c;
    smaller.binning = c.binning - 1;
    assert!(needs_prepass_realloc(false, &smaller, &c));
    assert!(!needs_prepass_realloc(false, &c, &smaller));

    assert!(needs_shading_realloc(false, Some(4), Some(1), 4, 1));
    assert!(!needs_shading_realloc(true, Some(4), Some(1), 4, 1));
    assert!(needs_shading_realloc(true, Some(4), Some(2), 4, 1));
    assert!(needs_shading_realloc(true, None, Some(1), 4, 1));
}

#[test]
fn froxel_grids() {
    let config = FroxelConfig::default();
    assert_eq!(config.get_num_tiles(), (240, 135, 240 * 135 * 64));
    assert_eq!(grid(17, 9, 8, 8, 2).get_num_tiles(), (3, 2, 12));
    assert_eq!(tiles_for(UVec2 { x: 17, y: 8 }, UVec2 { x: 8, y: 8 }), UVec2 { x: 3, y: 1 });

    let sizes = prepare_binning_buffers(&grid(17, 9, 8, 8, 2));
    assert_eq!(sizes.tile_counts, 48);
    assert_eq!(sizes.tile_offsets, 100);
    assert_eq!(sizes.current_tile_write_indices, 48);
    assert_eq!(sizes.packed_segments, 17 * 9 * 2 * 4);
}

#[test]
fn capacity_grows_to_powers_of_two() {
    let mut cap = FroxelCapacity { tiles_cap_x: 0, tiles_cap_y: 0, depth_cap: 0, tiles_capacity: 0, packed_capacity_bytes: 7 };
    assert!(grow_to_capacity(UVec2 { x: 5, y: 20 }, &mut cap, 16));
    assert_eq!((cap.tiles_cap_x, cap.tiles_cap_y, cap.depth_cap), (8, 32, 16));
    assert_eq!(cap.tiles_capacity, 8 * 32 * 16);
    assert_eq!(cap.packed_capacity_bytes, 7);
    // Already big enough: unchanged.
    assert!(!grow_to_capacity(UVec2 { x: 8, y: 30 }, &mut cap, 16));
    assert_eq!((cap.tiles_cap_x, cap.tiles_cap_y), (8, 32));
}

#[test]
fn raster_sizes_follow_the_view() {
    let view = UVec2 { x: 1920, y: 1080 };
    assert_eq!(compute_active_raster_size(view, TieFroxelsToView::Native), view);
    assert_eq!(
        compute_active_raster_size(view, TieFroxelsToView::Scaled { numerator: 1, denominator: 2 }),
        UVec2 { x: 960, y: 540 }
    );
    assert_eq!(
        compute_active_raster_size(UVec2 { x: 1, y: 1 }, TieFroxelsToView::Scaled { numerator: 1, denominator: 4 }),
        UVec2 { x: 1, y: 1 }
    );
    assert_eq!(
        compute_active_raster_size(view, TieFroxelsToView::Fixed(UVec2 { x: 0, y: 7 })),
        UVec2 { x: 1, y: 7 }
    );
    assert_eq!(
        froxel_size_from_viewport(UVec2 { x: 5, y: 3 }, TieFroxelsToView::Scaled { numerator: 1, denominator: 2 }),
        UVec2 { x: 3, y: 2 }
    );

    let mut config = FroxelConfig::default();
    assert!(tie_view_to_froxel_config(&mut config, UVec2 { x: 800, y: 600 }, TieFroxelsToView::Native));
    assert_eq!((config.screen_width, config.screen_height), (800, 600));
    assert_eq!(config.froxel_size_x, 8);
    assert!(!tie_view_to_froxel_config(&mut config, UVec2 { x: 800, y: 600 }, TieFroxelsToView::Native));
}

#[test]
fn checked_planning_refuses_what_cannot_be_rounded() {
    let g = [GeometrySummary { strand_count: 10, index_count: 30, max_segments_in_strand: 3 }];
    let frusta = [FrustumInput { config: grid(64, 64, 8, 8, 4), is_light: false, cascade_index: 0 }];
    assert!(matches!(plan_prepass_checked(&g, &frusta, 1 << 30, &sizes()), PrepassPlanning::Planned(_)));
    assert!(matches!(plan_prepass_checked(&[], &frusta, 1 << 30, &sizes()), PrepassPlanning::Idle));
    let huge = [GeometrySummary { strand_count: u32::MAX, index_count: u32::MAX, max_segments_in_strand: 3 }];
    assert!(matches!(plan_prepass_checked(&huge, &frusta, 1 << 30, &sizes()), PrepassPlanning::OutOfRange));
    let bad_grid = [FrustumInput { config: grid(64, 64, 0, 8, 4), is_light: false, cascade_index: 0 }];
    assert!(matches!(plan_prepass_checked(&g, &bad_grid, 1 << 30, &sizes()), PrepassPlanning::OutOfRange));
    // With no strand in view the frame is idle before any grid is looked at.
    assert!(matches!(plan_prepass_checked(&[], &bad_grid, 1 << 30, &sizes()), PrepassPlanning::Idle));
    assert!(plan_prepass(&[], &bad_grid, 1 << 30, &sizes()).is_none());

    let d = PrepassDemand {
        total_strands: 0x8000_0001,
        total_segment_budget: 0,
        instance_count: 1,
        frustum_count: 1,
        bucket_total: 1,
        coarse_depth_tile_total: 1,
        fine_depth_tile_total: 1,
        max_storage_binding_bytes: 1 << 30,
    };
    assert!(!prepass_demand_fits(&d, &sizes()));
    assert!(prepass_demand_fits(&PrepassDemand { total_strands: 0x8000_0000, ..d }, &sizes()));

    assert!(grid(64, 64, 8, 8, 4).counts_fit_exec());
    assert!(!grid(u32::MAX, 64, 8, 8, 4).counts_fit_exec());
    assert!(!grid(64, 64, 1, 1, u32::MAX).counts_fit_exec());
}

#[test]
fn frustum_rows_sit_at_their_ids() {
    let camera = FrustumInput { config: grid(64, 32, 8, 8, 4), is_light: false, cascade_index: 0 };
    let light = FrustumInput { config: grid(16, 16, 8, 8, 2), is_light: true, cascade_index: 3 };
    // The light has the smaller entity index, so it is frustum 0.
    let (ordered, table) = build_frustum_table_by_id(&[40, 7], &[camera, light]);
    assert_eq!(ordered.len(), 2);
    assert!(ordered[0].is_light && !ordered[1].is_light);
    assert_eq!(table.descs[0].kind, 1);
    assert_eq!(table.descs[0].bucket_base, 0);
    assert_eq!(table.descs[0].bucket_count, 8);
    assert_eq!(table.descs[1].kind, 0);
    assert_eq!(table.descs[1].bucket_base, 8);
    assert_eq!(table.descs[1].coarse_depth_tile_base, 1);
    assert_eq!(table.bucket_total, 136);
    assert!(order_by_rank::<u32>(&[], &[]).is_empty());
}

fn caps(raster_work: u32) -> strand_software_rasterizer::capacity::PrepassCapacities {
    strand_software_rasterizer::capacity::PrepassCapacities {
        requested_prepass: 2048,
        prepass: 2048,
        requested_binning: 4096,
        binning: 4096,
        instance: 3,
        frustum: 2,
        froxel_bucket: 100,
        requested_coarse_depth_tile: 10,
        coarse_depth_tile: 10,
        coarse_count_page_table: 64,
        requested_coarse_range: 32,
        coarse_range: 32,
        requested_coarse_interval_ref: 640,
        coarse_interval_ref: 640,
        requested_coarse_count_page: 32,
        coarse_count_page: 32,
        fine_cell: 8192,
        requested_fine_seg_ref: 1024,
        fine_seg_ref: 1024,
        requested_raster_work: raster_work,
        raster_work: raster_work,
        requested_raster_tile_run: 256,
        raster_tile_run: 256,
        opaque_fine_depth_tile: 16,
    }
}

fn buffer_item_sizes() -> PrepassBufferItemSizes {
    PrepassBufferItemSizes { projected_segment: 32, strand_instance: 160, frustum_desc: 96, fine_page_meta: 16 }
}

#[test]
fn prepass_buffer_bytes_follow_capacities() {
    let c = caps(100);
    assert!(prepass_buffer_bytes_fit_exec(&c, &sizes(), &buffer_item_sizes()));
    let b = prepass_buffer_bytes(&c, &sizes(), &buffer_item_sizes(), 1 << 20);
    assert_eq!(b.prepass_queue, 8 + 2048 * 8);
    assert_eq!(b.binning_queue, 8 + 4096 * 16);
    assert_eq!(b.projected_segments, 4096 * 32);
    assert_eq!(b.instance_ids, 12);
    assert_eq!(b.instance_prefix, 16);
    assert_eq!(b.strand_instances, 480);
    // Fewer raster work items than the pool's minimum: the minimum.
    assert_eq!(b.chunk_count, 16_384);
    assert_eq!(b.chunk_pool, 16_384 * 136);
    assert_eq!(b.free_heads, 256);
    assert_eq!(b.frustum_table, 192);
    assert_eq!(b.shadow_dom_surface_ids, 16);
    assert_eq!(b.broad_instance_meta, 48);
    assert_eq!(b.froxel_bucket_heads, 400);
    assert_eq!(b.raster_work_queue, 8 + 100 * 8);
    assert_eq!(b.raster_tile_run_queue, 8 + 256 * 16);
    assert_eq!(b.indirect_args, 12);
    assert_eq!(b.coarse_depth_lut, 10 * 16 * 4);
    assert_eq!(b.coarse_range_queue, 8 + 32 * 8);
    assert_eq!(b.coarse_interval_heads, 40);
    assert_eq!(b.coarse_interval_refs, 4 + 640 * 4);
    assert_eq!(b.coarse_range_lookup, 128);
    assert_eq!(b.coarse_count_page_table, 256);
    assert_eq!(b.coarse_count_pages, 4 + 32 * 256 * 4);
    assert_eq!(b.fine_page_meta, 512);
    assert_eq!(b.fine_cells, 8192 * 4);
    assert_eq!(b.fine_seg_refs, 4 + 1024 * 4);
    assert_eq!(b.opaque_fine_depth_tiles, 128);
    assert_eq!(b.telemetry, (40 + 32) * 4);
}

#[test]
fn binning_pool_chunks_are_clamped() {
    let s = sizes();
    let e = buffer_item_sizes();
    assert_eq!(prepass_buffer_bytes(&caps(50_000), &s, &e, 1 << 20).chunk_count, 50_000);
    assert_eq!(prepass_buffer_bytes(&caps(50_000), &s, &e, 40_000).chunk_count, 40_000);
    // A ceiling below the minimum wins.
    assert_eq!(prepass_buffer_bytes(&caps(10), &s, &e, 1000).chunk_count, 1000);
}

#[test]
fn oversized_buffer_items_do_not_fit() {
    let mut e = buffer_item_sizes();
    e.strand_instance = u64::MAX;
    assert!(!prepass_buffer_bytes_fit_exec(&caps(100), &sizes(), &e));
    let mut c = caps(100);
    c.coarse_count_page = u32::MAX;
    assert!(!prepass_buffer_bytes_fit_exec(&c, &sizes(), &buffer_item_sizes()));
}

#[test]
fn frame_resets_zero_queues_and_invalidate_heads() {
    let r = frame_resets(3, 2);
    assert_eq!(r.len(), 12);
    assert_eq!(r[0].buffer, FrameBuffer::PrepassQueue);
    assert_eq!(r[0].words, vec![0, 0]);
    assert_eq!(r[4].buffer, FrameBuffer::FineSegRefs);
    assert_eq!(r[4].words, vec![0]);
    assert_eq!(r[5].buffer, FrameBuffer::CoarseRangeQueue);
    assert_eq!(r[5].words, vec![0, 0]);
    assert_eq!(r[7].buffer, FrameBuffer::IndirectArgs);
    assert_eq!(r[7].words, vec![0, 1, 1]);
    assert_eq!(r[9].buffer, FrameBuffer::FreeHeads);
    assert_eq!(r[9].words, vec![0; 64]);
    assert_eq!(r[10].buffer, FrameBuffer::CoarseIntervalHeads);
    assert_eq!(r[10].words, vec![u32::MAX; 3]);
    assert_eq!(r[11].buffer, FrameBuffer::CoarseRangeLookup);
    assert_eq!(r[11].words, vec![u32::MAX; 2]);
}
