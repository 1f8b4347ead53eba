use strand_software_rasterizer::dispatch::{plan_shading_dispatch, ShadingDispatch, ShadingFrame, ShadowHistory};
use strand_software_rasterizer::frusta::{lights_by_layer, stale_entities};
use strand_software_rasterizer::binning::{plan_binning_pass, ScanRound};
use strand_software_rasterizer::dispatch::{
    plan_workgroup_dispatch, sort_copy_bytes, spatial_hashing_load_state, spatial_hashing_workgroups,
    PipelineStatus, SimpleGpuSortNode, SimpleGpuSortState, SortCommand, SortLoadState, SpatialHashingLoadState,
    WorkgroupDispatch,
};
use strand_software_rasterizer::froxel::FroxelConfig;
use strand_software_rasterizer::frusta::{frame_frusta, frustum_id_of, frustum_layers, FrustumEntry};
use strand_software_rasterizer::passes::{
    depth_reduce_action, plan_shadow_stamps, CascadeView, DepthReduceAction, ShadowStampTarget, TileDebugNode,
};
use strand_software_rasterizer::prepass::{
    depth_reduce_workgroups, frustum_telemetry_word, histogram_word, plan_prepass_dispatch, plan_prepass_stages,
    FineBinningBackend, Grid, PrepassBuffer, PrepassStage,
};
use strand_software_rasterizer::resources::{
    pipeline_refresh, pipeline_workgroup_size, prepass_pipeline_refresh, ComputeInvocationDims, PipelineKey,
    PipelineRefresh,
};

fn grid(w: u32, h: u32, fx: u32, fy: u32, d: u32) -> FroxelConfig {
    FroxelConfig { screen_width: w, screen_height: h, froxel_size_x: fx, froxel_size_y: fy, depth_slices: d }
}

#[test]
fn small_dispatch_is_one_call() {
    assert_eq!(plan_workgroup_dispatch(10, 65535), vec![WorkgroupDispatch { workgroup_offset: 0, x: 10, y: 1 }]);
    assert_eq!(plan_workgroup_dispatch(0, 0), vec![WorkgroupDispatch { workgroup_offset: 0, x: 0, y: 1 }]);
}

#[test]
fn wide_dispatch_is_a_grid_and_a_tail() {
    let plan = plan_workgroup_dispatch(250, 100);
    assert_eq!(
        plan,
        vec![
            WorkgroupDispatch { workgroup_offset: 0, x: 100, y: 2 },
            WorkgroupDispatch { workgroup_offset: 200, x: 50, y: 1 },
        ]
    );
    // Every workgroup is covered once.
    let covered: u32 = plan.iter().map(|d| d.x * d.y).sum();
    assert_eq!(covered, 250);
    assert_eq!(plan[1].workgroup_offset, plan[0].x * plan[0].y);
    // An exact multiple leaves an empty tail.
    assert_eq!(plan_workgroup_dispatch(300, 100)[1], WorkgroupDispatch { workgroup_offset: 300, x: 0, y: 1 });
}

#[test]
fn spatial_hashing_dispatch_and_load() {
    assert_eq!(spatial_hashing_workgroups(0), 0);
    assert_eq!(spatial_hashing_workgroups(256), 1);
    assert_eq!(spatial_hashing_workgroups(257), 2);

    assert_eq!(
        spatial_hashing_load_state(PipelineStatus::Ready, PipelineStatus::Ready),
        SpatialHashingLoadState::Loaded
    );
    assert_eq!(
        spatial_hashing_load_state(PipelineStatus::Pending, PipelineStatus::Ready),
        SpatialHashingLoadState::OnLoad
    );
    assert_eq!(
        spatial_hashing_load_state(PipelineStatus::Failed("a".to_string()), PipelineStatus::Failed("b".to_string())),
        SpatialHashingLoadState::ZeroingFailed("a".to_string())
    );
    assert_eq!(
        spatial_hashing_load_state(PipelineStatus::Pending, PipelineStatus::Failed("b".to_string())),
        SpatialHashingLoadState::HashingFailed("b".to_string())
    );
}

#[test]
fn sort_node_loads_then_runs_on_request() {
    let mut node = SimpleGpuSortNode::default();
    assert_eq!(node.state, SimpleGpuSortState::OnLoad);
    let request = SortCommand { requested: true, length: 10 };
    assert!(!node.should_run(request));
    node.update(SortLoadState::OnLoad);
    assert_eq!(node.state, SimpleGpuSortState::OnLoad);
    node.update(SortLoadState::Loaded);
    assert_eq!(node.state, SimpleGpuSortState::Loaded);
    assert!(node.should_run(request));
    assert!(!node.should_run(SortCommand::default()));
    // Once loaded it stays so.
    node.update(SortLoadState::Failed);
    assert_eq!(node.state, SimpleGpuSortState::Loaded);
    assert_eq!(sort_copy_bytes(10), 40);
}

#[test]
fn binning_scan_is_a_chain_of_rounds() {
    // 160 x 80 pixels of 8 x 8 tiles, 64 slices: 20 * 10 * 64 = 12800 froxels.
    let plan = plan_binning_pass(&grid(160, 80, 8, 8, 64), 1000);
    assert_eq!(plan.num_tiles, 12800);
    assert_eq!(plan.segment_workgroups, 16);
    assert_eq!(plan.total_count_offset, 51200);
    assert_eq!(
        plan.sum_rounds,
        vec![ScanRound { load_base: 0, save_base: 12800, workgroups: 50 }]
    );
    assert_eq!((plan.last_load_base, plan.last_save_base), (12800, 12850));
    assert_eq!(plan.prefix_rounds, vec![ScanRound { load_base: 12800, save_base: 0, workgroups: 50 }]);
    assert_eq!(plan.init_workgroups, 50);

    // 1920 x 1080 at 8 x 8 with 64 slices needs two reduction rounds.
    let plan = plan_binning_pass(&FroxelConfig::default(), 0);
    let n = 240 * 135 * 64;
    assert_eq!(plan.num_tiles, n);
    assert_eq!(plan.segment_workgroups, 0);
    assert_eq!(
        plan.sum_rounds,
        vec![
            ScanRound { load_base: 0, save_base: n, workgroups: 8100 },
            ScanRound { load_base: n, save_base: n + 8100, workgroups: 32 },
        ]
    );
    assert_eq!((plan.last_load_base, plan.last_save_base), (n + 8100, n + 8132));
    assert_eq!(plan.prefix_rounds[0], ScanRound { load_base: n + 8100, save_base: n, workgroups: 32 });
    assert_eq!(plan.prefix_rounds[1], ScanRound { load_base: n, save_base: 0, workgroups: 8100 });

    // A grid that one workgroup scans has no reduction round.
    let plan = plan_binning_pass(&grid(16, 16, 8, 8, 8), 64);
    assert!(plan.sum_rounds.is_empty());
    assert_eq!((plan.last_load_base, plan.last_save_base), (0, 32));
}

#[test]
fn prepass_dispatch_plan() {
    let p = plan_prepass_dispatch(256, 1000, 300, 10, 64, 7);
    assert_eq!(p.broad_instances, Grid { x: 4, y: 1, z: 1 });
    assert_eq!(p.broad_strand_elements, 300);
    assert_eq!(p.broad_strands, Grid { x: 2, y: 1000, z: 1 });
    assert_eq!(p.fine_workgroup_offset, 65535 * 256);
    assert_eq!(p.coarse_intervals, Grid { x: 7, y: 1, z: 1 });
    assert_eq!(p.depth_warp, Grid { x: 1, y: 1, z: 1 });
    assert_eq!(p.coarse_count_page_table_capacity, 160);
    assert_eq!(p.allocate_count_pages, Grid { x: 1, y: 1, z: 1 });
    assert_eq!(p.scan_save_base, 40 + 64);
    assert_eq!(p.fine_tile_stack_elements, 160);
    assert_eq!(p.emit_raster_work, Grid { x: 160, y: 1, z: 1 });

    // No instances and no strands still dispatch one row.
    let p = plan_prepass_dispatch(64, 0, 0, 0, 0, 0);
    assert_eq!(p.broad_instances, Grid { x: 0, y: 1, z: 1 });
    assert_eq!(p.broad_strands, Grid { x: 1, y: 1, z: 1 });
    assert_eq!(p.emit_raster_work, Grid { x: 1, y: 1, z: 1 });

    // Wide raster-work grids wrap into rows of 65535.
    let p = plan_prepass_dispatch(256, 1, 1, 10_000, 0, 0);
    assert_eq!(p.fine_tile_stack_elements, 160_000);
    assert_eq!(p.emit_raster_work, Grid { x: 65535, y: 3, z: 1 });
    assert!(p.emit_raster_work.x as u64 * p.emit_raster_work.y as u64 >= 160_000);
    // Saturating products.
    let p = plan_prepass_dispatch(u32::MAX, 1, 1, u32::MAX, 0, 0);
    assert_eq!(p.fine_workgroup_offset, u32::MAX);
    assert_eq!(p.coarse_count_page_table_capacity, u32::MAX);
}

#[test]
fn prepass_side_passes() {
    assert_eq!(depth_reduce_workgroups(0), 1);
    assert_eq!(depth_reduce_workgroups(64), 1);
    assert_eq!(depth_reduce_workgroups(65), 2);
    assert_eq!(histogram_word(0), 8);
    assert_eq!(histogram_word(31), 39);
    assert_eq!(frustum_telemetry_word(100, 0, 0), 140);
    assert_eq!(frustum_telemetry_word(100, 2, 10), 140 + 22 + 10);
}

#[test]
fn depth_reduce_decisions() {
    let cfg = grid(17, 9, 8, 8, 4);
    assert_eq!(
        depth_reduce_action(true, Some(3), true, Some(cfg), true),
        DepthReduceAction::Reduce { frustum_id: 3, fine_tile_count: 6 }
    );
    assert_eq!(depth_reduce_action(true, Some(3), true, Some(cfg), false), DepthReduceAction::Clear);
    assert_eq!(depth_reduce_action(true, Some(3), true, None, true), DepthReduceAction::Skip);
    assert_eq!(depth_reduce_action(false, Some(3), true, Some(cfg), true), DepthReduceAction::Clear);
    assert_eq!(depth_reduce_action(true, None, false, Some(cfg), true), DepthReduceAction::Skip);
}

#[test]
fn shadow_stamps_pair_targets_with_cascades() {
    let targets = [
        ShadowStampTarget { frustum_id: 0, light_entity: 7, cascade_index: 1 },
        ShadowStampTarget { frustum_id: 5, light_entity: 7, cascade_index: 0 },
        ShadowStampTarget { frustum_id: 1, light_entity: 9, cascade_index: 0 },
        ShadowStampTarget { frustum_id: 2, light_entity: 7, cascade_index: 0 },
    ];
    let views = [
        None,
        Some(CascadeView { light_entity: 7, cascade_index: 0 }),
        Some(CascadeView { light_entity: 7, cascade_index: 1 }),
        Some(CascadeView { light_entity: 7, cascade_index: 1 }),
    ];
    // Target 1's frustum does not exist; target 2's light has no view.
    assert_eq!(plan_shadow_stamps(&targets, 3, &views), vec![(0, 2), (3, 1)]);
    assert!(plan_shadow_stamps(&targets, 0, &views).is_empty());
}

#[test]
fn frusta_are_numbered_by_entity_index() {
    assert_eq!(frustum_id_of(40, &[90, 40, 12]), Some(1));
    assert_eq!(frustum_id_of(12, &[90, 40, 12]), Some(0));
    assert_eq!(frustum_id_of(90, &[90, 40, 12]), Some(2));
    assert_eq!(frustum_id_of(41, &[90, 40, 12]), None);

    let node = TileDebugNode;
    assert_eq!(node.overlay_frustum(true, 40, &[90, 40, 12]), Some(1));
    assert_eq!(node.overlay_frustum(false, 40, &[90, 40, 12]), None);

    let entries = [
        FrustumEntry { entity: 30, entity_bits: 300, is_light: true, shadow_maps_enabled: true, cascade_index: 2, dom_surface_ids: Some([4, 5]) },
        FrustumEntry { entity: 10, entity_bits: 100, is_light: false, shadow_maps_enabled: false, cascade_index: 0, dom_surface_ids: None },
        FrustumEntry { entity: 20, entity_bits: 200, is_light: true, shadow_maps_enabled: false, cascade_index: 0, dom_surface_ids: None },
    ];
    let layers = frustum_layers(&entries);
    assert_eq!(layers.len(), 3);
    assert_eq!((layers[0].frustum_id, layers[0].light_layer, layers[0].stamp), (2, Some(1), true));
    assert_eq!(layers[0].dom_surface_ids, [4, 5]);
    assert_eq!((layers[1].frustum_id, layers[1].light_layer, layers[1].stamp), (0, None, false));
    assert_eq!(layers[1].dom_surface_ids, [u32::MAX, u32::MAX]);
    assert_eq!((layers[2].frustum_id, layers[2].light_layer, layers[2].stamp), (1, Some(0), false));
}

#[test]
fn pipelines_rebuild_when_their_key_changes() {
    let dims = ComputeInvocationDims::default();
    assert_eq!(dims.threads_per_workgroup, 256);
    assert_eq!(dims.subgroup_size, 32);
    assert_eq!(dims.dispatch_size, (32768, 1, 1));
    assert_eq!(pipeline_workgroup_size(&dims), 256);
    assert_eq!(pipeline_workgroup_size(&ComputeInvocationDims { threads_per_workgroup: 0, ..dims }), 1);

    let key = PipelineKey { allocator_epoch: 3, workgroup_size: 256, opacity_count: 2, depth_count: 1 };
    assert_eq!(pipeline_refresh(true, key, key, false), PipelineRefresh::Keep);
    assert_eq!(pipeline_refresh(false, key, key, false), PipelineRefresh::Wait);
    assert_eq!(pipeline_refresh(true, PipelineKey::unbuilt(), key, true), PipelineRefresh::Rebuild);
    assert_eq!(PipelineKey::unbuilt().allocator_epoch, u64::MAX);

    let mut last = None;
    assert!(!prepass_pipeline_refresh(&mut last, dims, 1, false));
    assert_eq!(last, None);
    assert!(prepass_pipeline_refresh(&mut last, dims, 1, true));
    assert_eq!(last, Some((dims, 1)));
    assert!(!prepass_pipeline_refresh(&mut last, dims, 1, true));
    assert!(prepass_pipeline_refresh(&mut last, dims, 2, true));
    assert_eq!(last, Some((dims, 2)));
}

#[test]
fn shading_grid_covers_every_task() {
    assert_eq!(plan_shading_dispatch(0), None);
    assert_eq!(plan_shading_dispatch(1), Some(ShadingDispatch { x: 1, y: 1, workgroup_offset: 128 }));
    assert_eq!(plan_shading_dispatch(1000), Some(ShadingDispatch { x: 8, y: 1, workgroup_offset: 1024 }));
    let d = plan_shading_dispatch(u32::MAX).unwrap();
    assert_eq!((d.x, d.y), (65535, 513));
    assert_eq!(d.workgroup_offset, 65535 * 128);
    assert!(d.x as u64 * d.y as u64 * 128 >= u32::MAX as u64);
}

#[test]
fn light_layers_and_stale_proxies() {
    assert_eq!(lights_by_layer(&[30, 10, 20]), vec![10, 20, 30]);
    assert_eq!(lights_by_layer(&[]), Vec::<u32>::new());
    assert_eq!(stale_entities(&[5, 6, 7, 8], &[6, 8, 9]), vec![5, 7]);
    assert!(stale_entities(&[1], &[1]).is_empty());
}

#[test]
fn frame_frusta_are_laid_out_by_id() {
    let entries = [
        FrustumEntry { entity: 30, entity_bits: 300, is_light: true, shadow_maps_enabled: true, cascade_index: 2, dom_surface_ids: Some([4, 5]) },
        FrustumEntry { entity: 10, entity_bits: 100, is_light: false, shadow_maps_enabled: false, cascade_index: 0, dom_surface_ids: None },
        FrustumEntry { entity: 20, entity_bits: 200, is_light: true, shadow_maps_enabled: true, cascade_index: 1, dom_surface_ids: Some([6, 7]) },
        FrustumEntry { entity: 25, entity_bits: 250, is_light: true, shadow_maps_enabled: false, cascade_index: 0, dom_surface_ids: None },
    ];
    let frame = frame_frusta(&entries);
    assert_eq!(frame.layers.len(), 4);
    // Ids by entity index: 10 -> 0, 20 -> 1, 25 -> 2, 30 -> 3.
    assert_eq!(frame.dom_surface_ids, vec![[u32::MAX, u32::MAX], [6, 7], [u32::MAX, u32::MAX], [4, 5]]);
    assert_eq!(frame.light_layers, vec![None, Some(0), Some(1), Some(2)]);
    assert_eq!(
        frame.stamp_targets,
        vec![
            ShadowStampTarget { frustum_id: 1, light_entity: 200, cascade_index: 1 },
            ShadowStampTarget { frustum_id: 3, light_entity: 300, cascade_index: 2 },
        ]
    );
}

#[test]
fn shading_frame_flips_history_and_clears_once() {
    let mut h = ShadowHistory { index: 0, needs_clear: true };
    let f = h.shading_frame(300).unwrap();
    assert_eq!(f, ShadingFrame { dispatch: ShadingDispatch { x: 3, y: 1, workgroup_offset: 384 }, clear_history: true });
    assert_eq!(h, ShadowHistory { index: 1, needs_clear: false });
    let g = h.shading_frame(300).unwrap();
    assert!(!g.clear_history);
    assert_eq!(h, ShadowHistory { index: 0, needs_clear: false });
}

#[test]
fn shading_frame_without_tasks_keeps_history() {
    let mut h = ShadowHistory { index: 1, needs_clear: true };
    assert_eq!(h.shading_frame(0), None);
    assert_eq!(h, ShadowHistory { index: 1, needs_clear: true });
}

#[test]
fn prepass_stages_scatter_with_telemetry() {
    let p = plan_prepass_stages(true, &[true, true, true], FineBinningBackend::SegmentScatter, true, 2).unwrap();
    assert_eq!(
        p.clears,
        vec![
            PrepassBuffer::CoarseDepthLut,
            PrepassBuffer::CoarseCountPageTable,
            PrepassBuffer::CoarseCountPages,
            PrepassBuffer::Telemetry,
            PrepassBuffer::FineSegRefsCounter,
        ]
    );
    assert_eq!(p.stages.len(), 16);
    assert_eq!(p.stages[10], PrepassStage::Binning);
    assert_eq!(p.stages[13], PrepassStage::FinalizeTelemetry);
    assert_eq!(p.stages[15], PrepassStage::FinalizeRasterDispatch);
    assert_eq!(p.telemetry_records, 6 + 32 + 2 * 11);
}

#[test]
fn prepass_stages_csr_without_telemetry() {
    let p = plan_prepass_stages(true, &[], FineBinningBackend::PageCsr, false, 5).unwrap();
    assert_eq!(
        p.clears,
        vec![
            PrepassBuffer::CoarseDepthLut,
            PrepassBuffer::CoarseCountPageTable,
            PrepassBuffer::CoarseCountPages,
            PrepassBuffer::PageCandidateCounts,
            PrepassBuffer::PageCandidateCursors,
            PrepassBuffer::VirtualPageCandidateCounts,
            PrepassBuffer::FineSegRefsCounter,
        ]
    );
    assert_eq!(p.stages.len(), 15);
    assert_eq!(p.stages[10], PrepassStage::PrefixPageCandidates);
    assert_eq!(p.stages[12], PrepassStage::BuildFinePagesCsr);
    assert_eq!(p.telemetry_records, 0);
}

#[test]
fn prepass_stages_wait_for_pipelines_and_allocator() {
    assert!(plan_prepass_stages(false, &[true], FineBinningBackend::PageCsr, true, 1).is_none());
    let p = plan_prepass_stages(true, &[true, false], FineBinningBackend::PageCsr, true, 1).unwrap();
    assert_eq!(p.clears.len(), 8);
    assert!(p.stages.is_empty());
    assert_eq!(p.telemetry_records, 0);
}

#[test]
fn shadow_history_reset_restarts_and_clears() {
    let mut h = ShadowHistory { index: 1, needs_clear: false };
    h.reset();
    assert_eq!(h, ShadowHistory { index: 0, needs_clear: true });
    assert!(h.shading_frame(128).unwrap().clear_history);
}
