use strand_software_rasterizer::capacity::GeometrySummary;
use strand_software_rasterizer::instances::{collect_instances, InstanceEntry, InstanceTables};

fn tables(base: u32) -> InstanceTables {
    InstanceTables { vertex_id: base, index_id: base + 1, meta_id: base + 2, geo_id: base + 3, material_id: base + 4 }
}

fn geom(strands: u32, indices: u32, segs: u32) -> GeometrySummary {
    GeometrySummary { strand_count: strands, index_count: indices, max_segments_in_strand: segs }
}

#[test]
fn instances_follow_entity_order_and_skip_unresolved() {
    let entries = [
        InstanceEntry { entity: 9, tables: Some(tables(90)), geometry: geom(3, 12, 4) },
        InstanceEntry { entity: 2, tables: None, geometry: geom(100, 400, 9) },
        InstanceEntry { entity: 5, tables: Some(tables(50)), geometry: geom(7, 20, 2) },
        InstanceEntry { entity: 1, tables: Some(tables(10)), geometry: geom(1, 5, 6) },
    ];
    let r = collect_instances(&entries);
    assert_eq!(r.tables, vec![tables(10), tables(50), tables(90)]);
    assert_eq!(r.geometry, vec![geom(1, 5, 6), geom(7, 20, 2), geom(3, 12, 4)]);
    assert_eq!(r.totals.total_strands, 11);
    assert_eq!(r.totals.total_segment_budget, 4 + 13 + 9);
    assert_eq!(r.totals.max_strands_in_instance, 7);
    assert_eq!(r.totals.max_segments_in_strand, 6);
    assert_eq!(r.totals.max_shading_texels_in_instance, 20);
    assert_eq!(r.totals.instance_count, 3);
}

#[test]
fn instances_all_unresolved_is_empty() {
    let entries = [InstanceEntry { entity: 4, tables: None, geometry: geom(8, 16, 2) }];
    let r = collect_instances(&entries);
    assert!(r.tables.is_empty());
    assert!(r.geometry.is_empty());
    assert_eq!(r.totals.total_strands, 0);
    assert_eq!(r.totals.instance_count, 0);
    assert!(collect_instances(&[]).tables.is_empty());
}
