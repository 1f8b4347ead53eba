use strand_software_rasterizer::dson::DsonAssetLoader;
use strand_software_rasterizer::geometry::{pack_indexed_strands, pack_strands};
use strand_software_rasterizer::shader_types::StrandMeta;
use strand_software_rasterizer::strand_cache::{validate_cache, StrandCacheFile, StrandCacheStrand};
use strand_software_rasterizer::task_contract::{
    pack_binning_field, unpack_binning_frustum, unpack_binning_level, unpack_binning_shadow, QueueHeader,
    QUEUE_HEADER_WORDS,
};

#[test]
fn strand_lists_are_packed_end_to_end() {
    let strands = vec![vec![0, 1, 2], vec![3], vec![], vec![4, 5], vec![6, 7, 8, 9]];
    let packed = pack_strands(10, &strands).unwrap();
    assert_eq!(packed.indices, vec![0, 1, 2, 4, 5, 6, 7, 8, 9]);
    assert_eq!(packed.meta, vec![StrandMeta::from((3, 0)), StrandMeta::from((2, 3)), StrandMeta::from((4, 5))]);
    assert_eq!(packed.strand_count, 3);
    assert_eq!(packed.index_count, 9);
    assert_eq!(packed.max_segments_in_strand, 4);
    assert_eq!(packed.meta[1].material_idx, 0);
    assert_eq!(packed.meta[1].pad1, 0);
}

#[test]
fn nothing_to_pack() {
    assert!(pack_strands(0, &[vec![0, 1]]).is_none());
    assert!(pack_strands(4, &[vec![0], vec![]]).is_none());
    assert!(pack_strands(4, &[]).is_none());
}

#[test]
fn cache_strands_keep_their_ranges() {
    let strands = [
        StrandCacheStrand { count: 3, offset: 0 },
        StrandCacheStrand { count: 1, offset: 3 },
        StrandCacheStrand { count: 2, offset: 4 },
    ];
    let indices = [0, 1, 2, 3, 4, 5];
    let packed = pack_indexed_strands(6, &strands, &indices).unwrap();
    assert_eq!(packed.indices, indices.to_vec());
    assert_eq!(packed.meta, vec![StrandMeta::from((3, 0)), StrandMeta::from((2, 4))]);
    assert_eq!(packed.strand_count, 2);
    assert_eq!(packed.index_count, 6);
    assert_eq!(packed.max_segments_in_strand, 3);

    assert!(pack_indexed_strands(0, &strands, &indices).is_none());
    assert!(pack_indexed_strands(6, &[], &indices).is_none());
    assert!(pack_indexed_strands(6, &[StrandCacheStrand { count: 1, offset: 0 }], &indices).is_none());
}

#[test]
fn a_valid_cache_packs_every_strand_in_bounds() {
    let cache = StrandCacheFile {
        version: 1,
        source: None,
        scale_bits: 0,
        vertex_bits: vec![[0, 0, 0]; 3],
        strands: vec![StrandCacheStrand { count: 2, offset: 0 }, StrandCacheStrand { count: 3, offset: 1 }],
        indices: vec![0, 1, 2, 0],
    };
    assert_eq!(validate_cache(&cache), Ok(()));
    let packed = pack_indexed_strands(cache.vertex_bits.len(), &cache.strands, &cache.indices).unwrap();
    assert_eq!(packed.meta.len(), cache.strands.len());
    for m in &packed.meta {
        assert!((m.offset + m.count) as usize <= packed.indices.len());
        for j in m.offset..m.offset + m.count {
            assert!((packed.indices[j as usize] as usize) < cache.vertex_bits.len());
        }
    }
}

#[test]
fn binning_field_round_trips() {
    let p = pack_binning_field(2, true, 1234);
    assert_eq!(p, 2 | 4 | (1234 << 3));
    assert_eq!(unpack_binning_level(p), 2);
    assert!(unpack_binning_shadow(p));
    assert_eq!(unpack_binning_frustum(p), 1234);

    // Levels keep two bits, frustum indices 29.
    let q = pack_binning_field(7, false, (1 << 29) + 5);
    assert_eq!(unpack_binning_level(q), 3);
    assert!(!unpack_binning_shadow(q));
    assert_eq!(unpack_binning_frustum(q), 5);

    // Every word is a packed field.
    let w = 0xdead_beef;
    assert_eq!(
        pack_binning_field(unpack_binning_level(w), unpack_binning_shadow(w), unpack_binning_frustum(w)),
        w
    );
}

#[test]
fn queue_header_layout() {
    let h = QueueHeader::default();
    assert_eq!((h.head, h.tail), (0, 0));
    assert_eq!(QUEUE_HEADER_WORDS, 2);
}

#[test]
fn dson_loader_extensions() {
    assert_eq!(DsonAssetLoader.extensions(), vec!["duf", "dsf"]);
}
