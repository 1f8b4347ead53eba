use strand_software_rasterizer::allocator::{GpuPagingAllocatorSettings, PageTableWrite, PoolBinding};
use strand_software_rasterizer::allocator::{
    default_binding, default_label, kind_of_index, DevicePtr, GpuPagingAllocator, SlabId, SlabKind, SlabPool,
    DEFAULT_SLAB_SIZE,
};

#[test]
fn pool_places_best_fit_then_new_slabs() {
    let mut pool = SlabPool::new(DEFAULT_SLAB_SIZE, 7);
    assert_eq!(pool.slab_count_exec(), 0);
    assert_eq!(pool.usages(), 7);

    let a = pool.allocate(100, 64);
    assert_eq!(a.slab_index, 0);
    assert_eq!(a.range, 0..100);
    assert_eq!(a.device_ptr, DevicePtr { slab: 0, offset: 0, size: 100 });
    assert_eq!(pool.slab_capacity(0), Some(2048));
    // Nothing was recorded before the first allocation: no table yet.
    assert_eq!(pool.page_table_size(), None);

    // Too big for what is left of slab 0: a slab of exactly the request.
    let b = pool.allocate(3000, 64);
    assert_eq!(b.slab_index, 1);
    assert_eq!(b.range, 0..3000);
    assert_eq!(pool.slab_capacity(1), Some(3000));
    assert_eq!(pool.slab_capacity(2), None);
    // One entry (12 bytes) recorded before: the minimum table of 4 MiB.
    assert_eq!(pool.page_table_size(), Some(1 << 22));

    let c = pool.allocate(48, 64);
    assert_eq!(c.slab_index, 0);
    assert_eq!(c.range, 100..148);
    // Two entries (24 bytes) still fit: the table keeps its size.
    assert_eq!(pool.page_table_size(), Some(1 << 22));
    assert_eq!(pool.slab_count_exec(), 2);
}

#[test]
fn free_undoes_allocate() {
    let mut pool = SlabPool::new(DEFAULT_SLAB_SIZE, 0);
    let first = pool.allocate(100, 64);
    let again = pool.allocate(200, 64);
    assert_eq!(again.range, 100..300);

    let freed = pool.free(SlabId(0)).unwrap();
    assert_eq!(freed.range, again.range);
    assert_eq!(freed.device_ptr, DevicePtr { slab: 0, offset: 100, size: 200 });
    assert!(pool.free(SlabId(0)).is_none());
    assert!(pool.free(SlabId(9)).is_none());

    // The freed bytes are free again: the same request lands in the same place.
    let third = pool.allocate(200, 64);
    assert_eq!(third.range, 100..300);
    assert_eq!(first.range, 0..100);
}

#[test]
fn page_table_lists_entries_by_id() {
    let mut pool = SlabPool::new(DEFAULT_SLAB_SIZE, 0);
    pool.allocate(100, 64);
    pool.allocate(3000, 64);
    pool.allocate(48, 64);
    let entries = pool.write_table();
    assert_eq!(
        entries,
        vec![DevicePtr { slab: 0, offset: 100, size: 48 }, DevicePtr { slab: 1, offset: 0, size: 3000 }]
    );
    assert_eq!(pool.page_table_size(), Some(1 << 22));
}

#[test]
fn allocator_keeps_one_pool_per_kind() {
    let mut allocator = GpuPagingAllocator::new(3, 0, 1);
    assert_eq!(allocator.buffer_group_idx(), 0);
    assert_eq!(allocator.table_group_idx(), 1);
    assert!(allocator.pool(SlabKind::Vert).is_none());

    let (key, alloc) = allocator.allocate(SlabKind::Vert, &[0u8; 16]);
    assert_eq!(key, (SlabId(0), SlabKind::Vert));
    assert_eq!(alloc.range, 0..16);
    let (key, alloc) = allocator.allocate(SlabKind::StrandMeta, &[1u8; 32]);
    assert_eq!(key, (SlabId(0), SlabKind::StrandMeta));
    assert_eq!(alloc.device_ptr, DevicePtr { slab: 0, offset: 0, size: 32 });

    assert_eq!(allocator.pool(SlabKind::Vert).unwrap().usages(), 3);
    assert!(allocator.pool(SlabKind::Index).is_none());

    let tables = allocator.write_tables();
    assert_eq!(
        tables,
        vec![
            (SlabKind::Vert, vec![DevicePtr { slab: 0, offset: 0, size: 16 }]),
            (SlabKind::StrandMeta, vec![DevicePtr { slab: 0, offset: 0, size: 32 }]),
        ]
    );
}

#[test]
fn kinds_bindings_and_labels() {
    assert_eq!(default_binding(SlabKind::Vert), 0);
    assert_eq!(default_binding(SlabKind::StrandMeta), 7);
    assert_eq!(default_label(SlabKind::StrandMeta), "STRAND_METADATA");
    assert_eq!(default_label(SlabKind::Index), "INDICES");
    for i in 0..8u32 {
        assert_eq!(kind_of_index(i).index(), i);
    }
    assert_eq!(kind_of_index(6), SlabKind::StrandGeo);
}

#[test]
fn bind_group_layout_follows_the_pools() {
    let settings = GpuPagingAllocatorSettings::default();
    assert_eq!(settings.bindings, [0, 1, 2, 3, 4, 5, 6, 7]);
    assert_eq!((settings.buffer_group_idx, settings.table_group_idx), (5, 6));

    let custom = GpuPagingAllocatorSettings { bindings: [10, 11, 12, 13, 14, 15, 16, 17], ..settings };
    let mut allocator = GpuPagingAllocator::from_settings(&custom, 0);
    assert_eq!(allocator.buffer_group_idx(), 5);
    assert!(allocator.layout_entries().is_empty());

    allocator.allocate(SlabKind::Index, &[0u8; 4000]);
    allocator.allocate(SlabKind::Index, &[0u8; 4000]);
    allocator.allocate(SlabKind::Vert, &[0u8; 8]);
    assert_eq!(
        allocator.layout_entries(),
        vec![
            PoolBinding { kind: SlabKind::Vert, binding: 10, slab_count: 1 },
            PoolBinding { kind: SlabKind::Index, binding: 11, slab_count: 2 },
        ]
    );
    // Only the index pool has grown a page table so far.
    assert_eq!(allocator.page_table_entries(), vec![(SlabKind::Index, 11)]);
    allocator.write_tables();
    assert_eq!(allocator.page_table_entries(), vec![(SlabKind::Vert, 10), (SlabKind::Index, 11)]);
}

#[test]
fn freeing_invalidates_the_page_table_record() {
    let mut pool = SlabPool::new(DEFAULT_SLAB_SIZE, 0);
    let first = pool.allocate(100, 64);
    // No page table yet: nothing to write.
    assert_eq!(pool.invalidation_write(&first), None);
    pool.allocate(3000, 64);
    let freed = pool.free(SlabId(1)).unwrap();
    assert_eq!(
        pool.invalidation_write(&freed),
        Some(PageTableWrite { offset_bytes: 0, entry: DevicePtr { slab: u32::MAX, offset: 0, size: 0 } })
    );
    let again = pool.allocate(48, 64);
    assert_eq!(again.range, 100..148);
    assert_eq!(pool.invalidation_write(&again).unwrap().offset_bytes, 100 * 12);
}

#[test]
fn every_pool_gets_its_table_once() {
    let mut allocator = GpuPagingAllocator::new(0, 5, 6);
    allocator.allocate(SlabKind::StrandMeta, &[0u8; 8]);
    allocator.allocate(SlabKind::Vert, &[0u8; 8]);
    allocator.allocate(SlabKind::Index, &[0u8; 8]);
    let kinds: Vec<SlabKind> = allocator.write_tables().into_iter().map(|(k, _)| k).collect();
    assert_eq!(kinds, vec![SlabKind::Vert, SlabKind::Index, SlabKind::StrandMeta]);
}
