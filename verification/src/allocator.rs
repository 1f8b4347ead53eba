//! Bookkeeping of the GPU paging allocator: pools of slabs per kind of
//! data, best-fit sub-allocation inside each slab (by the `range-alloc`
//! crate), and the page table of device pointers that shaders read.
//!
//! The GPU buffers themselves live outside this module; a slab here is its
//! capacity, buffer usage bits and free space, and the page table is its
//! current size.
use range_alloc::RangeAllocator;
use std::collections::HashMap;
use std::ops::Range;
use vstd::prelude::*;
use crate::math::{next_power_of_two, next_power_of_two_u64, lemma_next_power_of_two};

verus! {

broadcast use vstd::std_specs::hash::group_hash_axioms;

#[verifier::external_type_specification]
#[verifier::external_body]
#[verifier::reject_recursive_types(T)]
pub struct ExRangeAllocator<T>(RangeAllocator<T>);

/// The addresses that a `RangeAllocator<u64>` holds as free.
pub uninterp spec fn range_allocator_free_set(a: RangeAllocator<u64>) -> Set<int>;

/// The range (start, end) that a `RangeAllocator<u64>` was made with.
pub uninterp spec fn range_allocator_span(a: RangeAllocator<u64>) -> (u64, u64);

/// The addresses `start..end`.
pub open spec fn interval(start: int, end: int) -> Set<int> {
    Set::new(|x: int| start <= x < end)
}

/// `start..start + len` is a free run that cannot be extended on either
/// side: one of the free ranges an allocator keeps.
pub open spec fn maximal_run(free: Set<int>, start: int, len: int) -> bool {
    &&& len > 0
    &&& forall|x: int| #![trigger free.contains(x)] start <= x < start + len ==> free.contains(x)
    &&& !free.contains(start - 1)
    &&& !free.contains(start + len)
}

/// Some free range holds at least `len` addresses.
pub open spec fn has_run_of(free: Set<int>, len: int) -> bool {
    exists|s: int, l: int| #[trigger] maximal_run(free, s, l) && l >= len
}

/// `start` begins a free range of at least `len` addresses, no free range
/// that holds `len` addresses is shorter than it (best fit), and none as
/// short starts lower (the first of the best fits).
pub open spec fn best_fit_start(free: Set<int>, len: int, start: int) -> bool {
    exists|l: int|
        #![trigger maximal_run(free, start, l)]
        maximal_run(free, start, l) && l >= len && forall|s2: int, l2: int|
            #[trigger] maximal_run(free, s2, l2) && l2 >= len ==> l2 > l || (l2 == l && s2 >= start)
}

/// `RangeAllocator::new(start..end)`: an allocator over `start..end` with
/// all of it free.
#[verifier::external_body]
fn range_allocator_new(start: u64, end: u64) -> (a: RangeAllocator<u64>)
    requires
        start <= end,
    ensures
        range_allocator_span(a) == (start, end),
        range_allocator_free_set(a) == interval(start as int, end as int),
{
    RangeAllocator::new(start..end)
}

/// `RangeAllocator::allocate_range(length)`. The crate keeps its free
/// ranges apart (adjacent ones are merged when freed) and hands out the
/// start of the smallest free range that holds `length` (best fit); of
/// equally small ones the lowest, as it keeps them by ascending start and
/// switches only to a strictly smaller one. It fails, leaving the
/// allocator as it was, exactly when no free range holds `length`. A zero
/// length, or one whose double overflows, panics.
#[verifier::external_body]
fn range_allocator_allocate(a: &mut RangeAllocator<u64>, length: u64) -> (r: Option<(u64, u64)>)
    requires
        0 < length <= u64::MAX / 2,
    ensures
        range_allocator_span(*final(a)) == range_allocator_span(*old(a)),
        match r {
            Some((start, end)) => {
                &&& end == start + length
                &&& best_fit_start(range_allocator_free_set(*old(a)), length as int, start as int)
                &&& range_allocator_free_set(*final(a)) == range_allocator_free_set(
                    *old(a),
                ).difference(interval(start as int, end as int))
            },
            None => {
                &&& !has_run_of(range_allocator_free_set(*old(a)), length as int)
                &&& range_allocator_free_set(*final(a)) == range_allocator_free_set(*old(a))
            },
        },
{
    match a.allocate_range(length) {
        Ok(range) => Some((range.start, range.end)),
        Err(_) => None,
    }
}

/// `RangeAllocator::free_range(start..end)`: the range becomes free again.
/// It panics on a range outside the allocator's span, an empty range, or
/// (in debug builds) one that overlaps free space.
#[verifier::external_body]
fn range_allocator_release(a: &mut RangeAllocator<u64>, start: u64, end: u64)
    requires
        range_allocator_span(*old(a)).0 <= start < end <= range_allocator_span(*old(a)).1,
        interval(start as int, end as int).disjoint(range_allocator_free_set(*old(a))),
    ensures
        range_allocator_span(*final(a)) == range_allocator_span(*old(a)),
        range_allocator_free_set(*final(a)) == range_allocator_free_set(*old(a)).union(
            interval(start as int, end as int),
        ),
{
    a.free_range(start..end)
}


/// The kinds of data the allocator keeps apart, one pool each.
#[derive(Clone, Copy, Debug, PartialEq, Eq, Hash)]
pub enum SlabKind {
    Vert,
    Index,
    Meshlet,
    MeshletCull,
    Bvh,
    StrandMaterial,
    StrandGeo,
    StrandMeta,
}

impl SlabKind {
    /// The position of the kind in declaration order.
    pub open spec fn spec_index(self) -> u32 {
        match self {
            SlabKind::Vert => 0,
            SlabKind::Index => 1,
            SlabKind::Meshlet => 2,
            SlabKind::MeshletCull => 3,
            SlabKind::Bvh => 4,
            SlabKind::StrandMaterial => 5,
            SlabKind::StrandGeo => 6,
            SlabKind::StrandMeta => 7,
        }
    }

    /// The position of the kind in declaration order.
    pub fn index(self) -> (i: u32)
        ensures
            i == self.spec_index(),
            i < 8,
    {
        match self {
            SlabKind::Vert => 0,
            SlabKind::Index => 1,
            SlabKind::Meshlet => 2,
            SlabKind::MeshletCull => 3,
            SlabKind::Bvh => 4,
            SlabKind::StrandMaterial => 5,
            SlabKind::StrandGeo => 6,
            SlabKind::StrandMeta => 7,
        }
    }
}

/// The default shader binding of each kind's pool: its position in
/// declaration order.
pub fn default_binding(kind: SlabKind) -> (binding: u32)
    ensures
        binding == kind.spec_index(),
{
    kind.index()
}

/// The default debug label of each kind's pool.
pub open spec fn spec_default_label(kind: SlabKind) -> Seq<char> {
    match kind {
        SlabKind::Vert => "VERTICES"@,
        SlabKind::Index => "INDICES"@,
        SlabKind::Meshlet => "MESHLETS"@,
        SlabKind::MeshletCull => "MESHLET_CULL"@,
        SlabKind::Bvh => "BVH"@,
        SlabKind::StrandMaterial => "STRAND_MATERIALS"@,
        SlabKind::StrandGeo => "STRAND_GEOS"@,
        SlabKind::StrandMeta => "STRAND_METADATA"@,
    }
}

/// The default debug label of each kind's pool (see [`spec_default_label`]).
pub fn default_label(kind: SlabKind) -> (label: &'static str)
    ensures
        label@ == spec_default_label(kind),
{
    match kind {
        SlabKind::Vert => "VERTICES",
        SlabKind::Index => "INDICES",
        SlabKind::Meshlet => "MESHLETS",
        SlabKind::MeshletCull => "MESHLET_CULL",
        SlabKind::Bvh => "BVH",
        SlabKind::StrandMaterial => "STRAND_MATERIALS",
        SlabKind::StrandGeo => "STRAND_GEOS",
        SlabKind::StrandMeta => "STRAND_METADATA",
    }
}

/// Capacity in bytes of a slab created for a request no larger than it.
pub const DEFAULT_SLAB_SIZE: u64 = 2048;

/// Bytes of one page-table entry (a [`DevicePtr`]).
pub const DEVICE_PTR_BYTES: u64 = 12;

/// The smallest page table ever created, in bytes: 4 MiB (2^22).
pub const MIN_PAGE_TABLE_BYTES: u64 = 4_194_304;

/// Identifies an allocation in a pool's page table.
#[derive(Clone, Copy, Debug, PartialEq, Eq, Hash)]
pub struct SlabId(pub u32);

pub type AllocKey = (SlabId, SlabKind);

/// A page-table entry: the slab, byte offset and byte size of an
/// allocation.
#[derive(Clone, Copy, Debug, PartialEq, Eq)]
pub struct DevicePtr {
    pub slab: u32,
    pub offset: u32,
    pub size: u32,
}

/// An allocation within a slab.
#[derive(Debug)]
pub struct SlabAllocation {
    pub slab_index: usize,
    pub device_ptr: DevicePtr,
    pub range: Range<u64>,
}

impl Clone for SlabAllocation {
    fn clone(&self) -> (copy: Self)
        ensures
            copy == *self,
    {
        SlabAllocation {
            slab_index: self.slab_index,
            device_ptr: self.device_ptr,
            range: self.range.start..self.range.end,
        }
    }
}

/// One device buffer slab: its capacity, its buffer usage bits and which
/// of its bytes are free.
struct Slab {
    free: RangeAllocator<u64>,
    capacity_bytes: u64,
    usage: u32,
}

/// A pool of slabs for one kind of data.
pub struct SlabPool {
    slabs: Vec<Slab>,
    pointer_table: HashMap<u32, SlabAllocation>,
    default_slab_size: u64,
    usages: u32,
    page_table_size: Option<u64>,
}

/// The page table entry of an allocation of `start..end` in slab `slab`
/// (each field truncated to `u32`).
pub open spec fn device_ptr_of(slab: int, start: u64, end: u64) -> DevicePtr {
    DevicePtr { slab: slab as u32, offset: start as u32, size: (end - start) as u32 }
}

/// The page-table size after making room for `entries` entries, given the
/// current size (`None` before any table exists): unchanged while it fits,
/// else the next power of two of the bytes needed, at least
/// [`MIN_PAGE_TABLE_BYTES`].
pub open spec fn page_table_size_for(entries: int, current: Option<u64>) -> Option<u64> {
    let needed = entries * DEVICE_PTR_BYTES;
    let have = match current {
        Some(s) => s as int,
        None => 0,
    };
    if needed > have {
        let p = next_power_of_two(needed);
        Some((if p >= MIN_PAGE_TABLE_BYTES { p } else { MIN_PAGE_TABLE_BYTES as int }) as u64)
    } else {
        current
    }
}

/// The index of the first slab, counting from `from`, with a free range
/// of at least `len` bytes, if any.
pub open spec fn first_fitting_slab(frees: Seq<Set<int>>, len: int, from: int) -> Option<int>
    decreases frees.len() - from,
{
    if from < 0 || from >= frees.len() {
        None
    } else if has_run_of(frees[from], len) {
        Some(from)
    } else {
        first_fitting_slab(frees, len, from + 1)
    }
}

impl SlabPool {
    /// Number of slabs.
    pub closed spec fn slab_count(&self) -> nat {
        self.slabs@.len()
    }

    /// Free bytes of every slab, by slab index.
    pub closed spec fn free_spaces(&self) -> Seq<Set<int>> {
        self.slabs@.map_values(|s: Slab| range_allocator_free_set(s.free))
    }

    /// Capacity in bytes of every slab, by slab index.
    pub closed spec fn capacities(&self) -> Seq<u64> {
        self.slabs@.map_values(|s: Slab| s.capacity_bytes)
    }

    /// Buffer usage bits of every slab, by slab index.
    pub closed spec fn slab_usages(&self) -> Seq<u32> {
        self.slabs@.map_values(|s: Slab| s.usage)
    }

    /// The page table: live allocations by id.
    pub closed spec fn table(&self) -> Map<u32, SlabAllocation> {
        self.pointer_table@
    }

    pub closed spec fn spec_default_slab_size(&self) -> u64 {
        self.default_slab_size
    }

    pub closed spec fn spec_usages(&self) -> u32 {
        self.usages
    }

    /// Size in bytes of the page table, `None` before one exists.
    pub closed spec fn spec_page_table_size(&self) -> Option<u64> {
        self.page_table_size
    }

    /// Every slab spans `0..capacity` with its free space inside; every
    /// page-table entry `k` is an allocation in slab `k`, inside the slab
    /// and not free, with the device pointer that describes it.
    pub closed spec fn wf(&self) -> bool {
        &&& self.slabs@.len() <= u32::MAX
        &&& forall|i: int|
            #![trigger self.slabs@[i]]
            0 <= i < self.slabs@.len() ==> {
                let s = self.slabs@[i];
                &&& s.capacity_bytes > 0
                &&& range_allocator_span(s.free) == (0u64, s.capacity_bytes)
                &&& range_allocator_free_set(s.free).subset_of(interval(0, s.capacity_bytes as int))
            }
        &&& forall|k: u32|
            #![trigger self.pointer_table@[k]]
            self.pointer_table@.contains_key(k) ==> {
                let a = self.pointer_table@[k];
                &&& a.slab_index == k as int
                &&& a.slab_index < self.slabs@.len()
                &&& a.range.start < a.range.end <= self.slabs@[k as int].capacity_bytes
                &&& interval(a.range.start as int, a.range.end as int).disjoint(
                    range_allocator_free_set(self.slabs@[k as int].free),
                )
                &&& a.device_ptr == device_ptr_of(k as int, a.range.start, a.range.end)
            }
    }

    /// An empty pool: no slabs, no allocations, no page table.
    pub fn new(default_slab_size: u64, usages: u32) -> (pool: Self)
        ensures
            pool.wf(),
            pool.slab_count() == 0,
            pool.table() == Map::<u32, SlabAllocation>::empty(),
            pool.spec_page_table_size() is None,
            pool.spec_default_slab_size() == default_slab_size,
            pool.spec_usages() == usages,
    {
        SlabPool {
            slabs: Vec::new(),
            pointer_table: HashMap::new(),
            default_slab_size,
            usages,
            page_table_size: None,
        }
    }

    /// Number of slabs.
    pub fn slab_count_exec(&self) -> (n: usize)
        ensures
            n == self.slab_count(),
    {
        self.slabs.len()
    }

    /// Capacity in bytes of slab `index`.
    pub fn slab_capacity(&self, index: usize) -> (cap: Option<u64>)
        ensures
            match cap {
                Some(c) => index < self.slab_count() && c == self.capacities()[index as int],
                None => index >= self.slab_count(),
            },
    {
        if index < self.slabs.len() {
            Some(self.slabs[index].capacity_bytes)
        } else {
            None
        }
    }

    /// Buffer usage bits that new slabs are created with.
    pub fn usages(&self) -> (u: u32)
        ensures
            u == self.spec_usages(),
    {
        self.usages
    }

    /// Size in bytes of the page table, `None` before one exists.
    pub fn page_table_size(&self) -> (size: Option<u64>)
        ensures
            size == self.spec_page_table_size(),
    {
        self.page_table_size
    }
}

proof fn lemma_first_fitting_slab(frees: Seq<Set<int>>, len: int, from: int)
    requires
        0 <= from,
    ensures
        match first_fitting_slab(frees, len, from) {
            Some(j) => 0 <= from <= j < frees.len() && has_run_of(frees[j], len),
            None => forall|k: int| from <= k < frees.len() ==> !has_run_of(#[trigger] frees[k], len),
        },
    decreases frees.len() - from,
{
    if 0 <= from < frees.len() && !has_run_of(frees[from], len) {
        lemma_first_fitting_slab(frees, len, from + 1);
    }
}

/// The device pointers recorded under ids `0..n`, by ascending id.
pub open spec fn table_entries(table: Map<u32, SlabAllocation>, n: int) -> Seq<DevicePtr>
    decreases n,
{
    if n <= 0 {
        Seq::empty()
    } else if table.contains_key((n - 1) as u32) {
        table_entries(table, n - 1).push(table[(n - 1) as u32].device_ptr)
    } else {
        table_entries(table, n - 1)
    }
}

/// The ids below `n`.
pub open spec fn ids_below(n: int) -> Set<u32> {
    Set::new(|k: u32| (k as int) < n)
}

proof fn lemma_ids_below_len(n: int)
    requires
        0 <= n <= u32::MAX + 1,
    ensures
        ids_below(n).finite(),
        ids_below(n).len() == n,
    decreases n,
{
    if n == 0 {
        assert(ids_below(n) =~= Set::empty());
    } else {
        lemma_ids_below_len(n - 1);
        assert(ids_below(n - 1).insert((n - 1) as u32) =~= ids_below(n));
    }
}

/// A fresh slab's single free range is the whole slab.
proof fn lemma_fresh_slab_run(cap: int, len: int)
    requires
        0 < len <= cap,
    ensures
        maximal_run(interval(0, cap), 0, cap),
        has_run_of(interval(0, cap), len),
        forall|s: int| best_fit_start(interval(0, cap), len, s) ==> s == 0,
{
    let free = interval(0, cap);
    assert(maximal_run(free, 0, cap));
    assert forall|s: int| best_fit_start(free, len, s) implies s == 0 by {
        let l = choose|l: int| maximal_run(free, s, l) && l >= len && forall|s2: int, l2: int|
            #[trigger] maximal_run(free, s2, l2) && l2 >= len ==> l2 >= l;
        assert(free.contains(s));
        assert(!free.contains(s - 1));
    }
}

impl SlabPool {
    /// The well-formedness facts of slab `i`.
    proof fn lemma_slab_wf(&self, i: int)
        requires
            self.wf(),
            0 <= i < self.slabs@.len(),
        ensures
            self.slabs@[i].capacity_bytes > 0,
            range_allocator_span(self.slabs@[i].free) == (0u64, self.slabs@[i].capacity_bytes),
            range_allocator_free_set(self.slabs@[i].free).subset_of(
                interval(0, self.slabs@[i].capacity_bytes as int),
            ),
    {
    }

    /// What a well-formed pool guarantees: one free space and one capacity
    /// per slab; each slab is non-empty with its free space inside it; every
    /// recorded allocation lies inside the slab it is recorded under, is not
    /// free, and carries the device pointer that describes it.
    pub proof fn lemma_wf_layout(&self)
        requires
            self.wf(),
        ensures
            self.free_spaces().len() == self.slab_count(),
            self.capacities().len() == self.slab_count(),
            self.slab_usages().len() == self.slab_count(),
            self.slab_count() <= u32::MAX,
            forall|i: int|
                0 <= i < self.slab_count() ==> #[trigger] self.capacities()[i] > 0
                    && self.free_spaces()[i].subset_of(interval(0, self.capacities()[i] as int)),
            forall|k: u32|
                #![trigger self.table()[k]]
                self.table().contains_key(k) ==> {
                    let a = self.table()[k];
                    &&& a.slab_index == k as int
                    &&& a.slab_index < self.slab_count()
                    &&& a.range.start < a.range.end <= self.capacities()[k as int]
                    &&& interval(a.range.start as int, a.range.end as int).disjoint(
                        self.free_spaces()[k as int],
                    )
                    &&& a.device_ptr == device_ptr_of(k as int, a.range.start, a.range.end)
                },
    {
        assert forall|i: int| 0 <= i < self.slab_count() implies #[trigger] self.capacities()[i] > 0
            && self.free_spaces()[i].subset_of(interval(0, self.capacities()[i] as int)) by {
            self.lemma_slab_wf(i);
        }
        assert forall|k: u32| #![trigger self.table()[k]] self.table().contains_key(k) implies {
            let a = self.table()[k];
            &&& a.slab_index == k as int
            &&& a.slab_index < self.slab_count()
            &&& a.range.start < a.range.end <= self.capacities()[k as int]
            &&& interval(a.range.start as int, a.range.end as int).disjoint(self.free_spaces()[k as int])
            &&& a.device_ptr == device_ptr_of(k as int, a.range.start, a.range.end)
        } by {
            let a = self.pointer_table@[k];
        }
    }

    proof fn lemma_table_len(&self)
        requires
            self.wf(),
        ensures
            self.pointer_table@.len() <= self.slabs@.len(),
    {
        lemma_ids_below_len(self.slabs@.len() as int);
        assert forall|k: u32| #[trigger] self.pointer_table@.dom().contains(k) implies ids_below(
            self.slabs@.len() as int,
        ).contains(k) by {
            let a = self.pointer_table@[k];
        }
        vstd::set_lib::lemma_len_subset(
            self.pointer_table@.dom(),
            ids_below(self.slabs@.len() as int),
        );
    }

    /// Grows the page table, if needed, to hold one entry per allocation in
    /// the table.
    fn ensure_page_table(&mut self)
        requires
            old(self).wf(),
        ensures
            final(self).wf(),
            final(self).slabs == old(self).slabs,
            final(self).pointer_table == old(self).pointer_table,
            final(self).default_slab_size == old(self).default_slab_size,
            final(self).usages == old(self).usages,
            final(self).page_table_size == page_table_size_for(
                old(self).pointer_table@.len() as int,
                old(self).page_table_size,
            ),
    {
        proof {
            self.lemma_table_len();
        }
        let entries = self.pointer_table.len();
        let needed_bytes: u64 = (entries as u64) * DEVICE_PTR_BYTES;
        let current_bytes: u64 = match self.page_table_size {
            Some(size) => size,
            None => 0,
        };
        if needed_bytes > current_bytes {
            proof {
                lemma_next_power_of_two(needed_bytes as int);
            }
            let p = next_power_of_two_u64(needed_bytes);
            let new_size = if p >= MIN_PAGE_TABLE_BYTES {
                p
            } else {
                MIN_PAGE_TABLE_BYTES
            };
            self.page_table_size = Some(new_size);
        }
    }

    /// Finds room for `min_size` bytes: in the first slab that has a free
    /// range that large (best fit inside it), else in a new slab of
    /// `max(default_slab_size, min_size)` bytes, whose first `min_size`
    /// bytes are taken. Returns the slab index and the byte range.
    pub fn ensure_slab(&mut self, min_size: u64) -> (r: (usize, Range<u64>))
        requires
            old(self).wf(),
            0 < min_size <= u64::MAX / 2,
            old(self).slab_count() < u32::MAX,
        ensures
            final(self).wf(),
            final(self).table() == old(self).table(),
            final(self).spec_page_table_size() == old(self).spec_page_table_size(),
            final(self).spec_default_slab_size() == old(self).spec_default_slab_size(),
            final(self).spec_usages() == old(self).spec_usages(),
            slab_placement(*old(self), *final(self), min_size, r.0, r.1),
            r.0 < final(self).slab_count(),
            r.1.start < r.1.end <= final(self).capacities()[r.0 as int],
    {
        let ghost frees = self.free_spaces();
        let ghost caps = self.capacities();
        let ghost uses = self.slab_usages();
        let n = self.slabs.len();
        let mut i: usize = 0;
        while i < n
            invariant
                self.wf(),
                n == self.slabs@.len(),
                0 <= i <= n,
                self.free_spaces() == frees,
                self.capacities() == caps,
                self.slab_usages() == uses,
                frees == old(self).free_spaces(),
                caps == old(self).capacities(),
                uses == old(self).slab_usages(),
                self.pointer_table == old(self).pointer_table,
                self.page_table_size == old(self).page_table_size,
                self.default_slab_size == old(self).default_slab_size,
                self.usages == old(self).usages,
                first_fitting_slab(frees, min_size as int, 0) == first_fitting_slab(
                    frees,
                    min_size as int,
                    i as int,
                ),
                0 < min_size <= u64::MAX / 2,
            decreases n - i,
        {
            let ghost before = self.slabs@;
            proof {
                self.lemma_slab_wf(i as int);
            }
            let got = range_allocator_allocate(&mut self.slabs[i].free, min_size);
            proof {
                assert(self.slabs@.len() == before.len());
                assert(self.free_spaces()[i as int] == range_allocator_free_set(self.slabs@[i as int].free));
                assert(frees[i as int] == range_allocator_free_set(before[i as int].free));
            }
            match got {
                Some((start, end)) => {
                    proof {
                        assert(first_fitting_slab(frees, min_size as int, i as int) == Some(i as int));
                        assert(self.free_spaces() =~= frees.update(
                            i as int,
                            frees[i as int].difference(interval(start as int, end as int)),
                        ));
                        assert(self.capacities() =~= caps);
                        assert(self.slab_usages() =~= uses);
                        assert forall|k: u32| #[trigger] self.pointer_table@.contains_key(k) implies {
                            let a = self.pointer_table@[k];
                            interval(a.range.start as int, a.range.end as int).disjoint(
                                range_allocator_free_set(self.slabs@[k as int].free),
                            )
                        } by {
                            let a = self.pointer_table@[k];
                            if k as int != i as int {
                                assert(self.slabs@[k as int] == before[k as int]);
                            }
                        }
                    }
                    assert(best_fit_start(frees[i as int], min_size as int, start as int));
                    proof {
                        let l = choose|l: int|
                            #![trigger maximal_run(frees[i as int], start as int, l)]
                            maximal_run(frees[i as int], start as int, l) && l >= min_size;
                        assert(frees[i as int].contains(end - 1));
                        assert(interval(0, before[i as int].capacity_bytes as int).contains(end - 1));
                        assert(self.capacities()[i as int] == before[i as int].capacity_bytes);
                    }
                    assert(self.slab_count() == n);
                    assert(self.wf());
                    let r = start..end;
                    assert(r.start == start && r.end == end);
                    assert(frees == old(self).free_spaces());
                    assert(first_fitting_slab(frees, min_size as int, 0) == Some(i as int));
                    assert(self.capacities() == old(self).capacities());
                    assert(self.slab_usages() == old(self).slab_usages());
                    assert(self.free_spaces() == frees.update(
                        i as int,
                        frees[i as int].difference(interval(r.start as int, r.end as int)),
                    ));
                    return (i, r);
                },
                None => {
                    proof {
                        assert(self.free_spaces() =~= frees);
                        assert(self.capacities() =~= caps);
                        assert(self.slab_usages() =~= uses);
                        assert(first_fitting_slab(frees, min_size as int, i as int)
                            == first_fitting_slab(frees, min_size as int, i + 1));
                    }
                },
            }
            i = i + 1;
        }
        let slab_capacity = if self.default_slab_size >= min_size {
            self.default_slab_size
        } else {
            min_size
        };
        let mut allocator = range_allocator_new(0, slab_capacity);
        proof {
            lemma_fresh_slab_run(slab_capacity as int, min_size as int);
        }
        let range = match range_allocator_allocate(&mut allocator, min_size) {
            Some((start, end)) => start..end,
            None => {
                proof {
                    assert(false);
                }
                0..min_size
            },
        };
        let ghost before = self.slabs@;
        assert forall|k: u32| #[trigger] self.pointer_table@.contains_key(k) implies (k as int)
            < before.len() by {
            let a = self.pointer_table@[k];
        }
        self.slabs.push(Slab { free: allocator, capacity_bytes: slab_capacity, usage: self.usages });
        proof {
            assert(self.free_spaces() =~= frees.push(
                interval(0, slab_capacity as int).difference(interval(0, min_size as int)),
            ));
            assert(self.capacities() =~= caps.push(slab_capacity));
            assert(self.slab_usages() =~= uses.push(self.usages));
            assert forall|k: u32| #[trigger] self.pointer_table@.contains_key(k) implies {
                let a = self.pointer_table@[k];
                interval(a.range.start as int, a.range.end as int).disjoint(
                    range_allocator_free_set(self.slabs@[k as int].free),
                )
            } by {
                assert(self.slabs@[k as int] == before[k as int]);
            }
        }
        (n, range)
    }
}

/// What [`SlabPool::ensure_slab`] does with a request for `min_size`
/// bytes: the slabs' capacities and usages stay, and `range` is taken from
/// the free space of slab `index`, which is the first slab with a free
/// range that large (the best-fitting range in it), or else a new slab of
/// `max(default_slab_size, min_size)` bytes that gives its first
/// `min_size` bytes.
pub open spec fn slab_placement(
    pre: SlabPool,
    post: SlabPool,
    min_size: u64,
    index: usize,
    range: Range<u64>,
) -> bool {
    let frees = pre.free_spaces();
    &&& range.end == range.start + min_size
    &&& match first_fitting_slab(frees, min_size as int, 0) {
        Some(i) => {
            &&& index == i
            &&& best_fit_start(frees[i], min_size as int, range.start as int)
            &&& post.slab_count() == pre.slab_count()
            &&& post.capacities() == pre.capacities()
            &&& post.slab_usages() == pre.slab_usages()
            &&& post.free_spaces() == frees.update(
                i,
                frees[i].difference(interval(range.start as int, range.end as int)),
            )
        },
        None => {
            let cap = if pre.spec_default_slab_size() >= min_size {
                pre.spec_default_slab_size()
            } else {
                min_size
            };
            &&& index == pre.slab_count()
            &&& range.start == 0
            &&& post.slab_count() == pre.slab_count() + 1
            &&& post.capacities() == pre.capacities().push(cap)
            &&& post.slab_usages() == pre.slab_usages().push(pre.spec_usages())
            &&& post.free_spaces() == frees.push(
                interval(0, cap as int).difference(interval(0, min_size as int)),
            )
        },
    }
}

impl SlabPool {
    /// Allocates `size` bytes (see [`slab_placement`]) and records the
    /// allocation in the page table under its slab's index, replacing what
    /// was recorded there. The page table is grown first, for the entries
    /// recorded before this one. The alignment is not used.
    pub fn allocate(&mut self, size: u64, _align: u64) -> (alloc: SlabAllocation)
        requires
            old(self).wf(),
            0 < size <= u64::MAX / 2,
            old(self).slab_count() < u32::MAX,
        ensures
            final(self).wf(),
            allocate_effect(*old(self), size, alloc, *final(self)),
    {
        let ghost pre = *self;
        let (slab_index, range) = self.ensure_slab(size);
        proof {
            let frees = pre.free_spaces();
            let i = slab_index as int;
            self.lemma_slab_wf(i);
            lemma_first_fitting_slab(frees, size as int, 0);
            match first_fitting_slab(frees, size as int, 0) {
                Some(j) => {
                    let l = choose|l: int|
                        #![trigger maximal_run(frees[j], range.start as int, l)]
                        maximal_run(frees[j], range.start as int, l) && l >= size && forall|
                            s2: int,
                            l2: int,
                        | #[trigger] maximal_run(frees[j], s2, l2) && l2 >= size ==> l2 >= l;
                    assert(frees[j] == range_allocator_free_set(pre.slabs@[j].free));
                    pre.lemma_slab_wf(j);
                    assert(frees[j].contains(range.end - 1));
                    assert(interval(0, pre.slabs@[j].capacity_bytes as int).contains(range.end - 1));
                    assert(self.capacities()[j] == pre.capacities()[j]);
                },
                None => {},
            }
            assert(self.capacities()[i] == self.slabs@[i].capacity_bytes);
            assert(range.end <= self.slabs@[i].capacity_bytes);
            assert(interval(range.start as int, range.end as int).disjoint(
                range_allocator_free_set(self.slabs@[i].free),
            )) by {
                assert(self.free_spaces()[i] == range_allocator_free_set(self.slabs@[i].free));
            }
        }
        let device_ptr = DevicePtr {
            slab: slab_index as u32,
            offset: range.start as u32,
            size: (range.end - range.start) as u32,
        };
        let alloc = SlabAllocation { slab_index, device_ptr, range };
        self.ensure_page_table();
        let entry = alloc.clone();
        self.pointer_table.insert(slab_index as u32, entry);
        proof {
            assert forall|k: u32| #[trigger] self.pointer_table@.contains_key(k) implies {
                let a = self.pointer_table@[k];
                &&& a.slab_index == k as int
                &&& a.slab_index < self.slabs@.len()
                &&& a.range.start < a.range.end <= self.slabs@[k as int].capacity_bytes
                &&& interval(a.range.start as int, a.range.end as int).disjoint(
                    range_allocator_free_set(self.slabs@[k as int].free),
                )
                &&& a.device_ptr == device_ptr_of(k as int, a.range.start, a.range.end)
            } by {
                if k != slab_index as u32 {
                    let a = self.pointer_table@[k];
                    assert(pre.pointer_table@.contains_key(k));
                    assert(pre.pointer_table@[k] == a);
                    assert(a.slab_index < pre.slabs@.len());
                    if k as int != slab_index as int {
                        assert(self.free_spaces()[k as int] == pre.free_spaces()[k as int]);
                        assert(self.free_spaces()[k as int] == range_allocator_free_set(
                            self.slabs@[k as int].free,
                        ));
                        assert(pre.free_spaces()[k as int] == range_allocator_free_set(
                            pre.slabs@[k as int].free,
                        ));
                        assert(self.capacities()[k as int] == pre.capacities()[k as int]);
                    } else {
                        assert(self.free_spaces()[k as int].subset_of(
                            pre.free_spaces()[k as int],
                        ));
                        assert(self.free_spaces()[k as int] == range_allocator_free_set(
                            self.slabs@[k as int].free,
                        ));
                        assert(pre.free_spaces()[k as int] == range_allocator_free_set(
                            pre.slabs@[k as int].free,
                        ));
                        assert(self.capacities()[k as int] == pre.capacities()[k as int]);
                    }
                }
            }
        }
        alloc
    }

    /// Frees the allocation recorded under `slab_id`: its bytes become free
    /// in its slab and its page-table record is dropped. Returns it, or
    /// `None` when nothing is recorded under that id.
    pub fn free(&mut self, slab_id: SlabId) -> (freed: Option<SlabAllocation>)
        requires
            old(self).wf(),
        ensures
            final(self).wf(),
            free_effect(*old(self), slab_id, freed, *final(self)),
    {
        let ghost pre = *self;
        match self.pointer_table.remove(&slab_id.0) {
            Some(allocation) => {
                let index = slab_id.0 as usize;
                proof {
                    assert(pre.pointer_table@.contains_key(slab_id.0));
                    assert(pre.pointer_table@[slab_id.0] == allocation);
                    pre.lemma_slab_wf(index as int);
                }
                range_allocator_release(
                    &mut self.slabs[index].free,
                    allocation.range.start,
                    allocation.range.end,
                );
                proof {
                    assert(self.free_spaces() =~= pre.free_spaces().update(
                        index as int,
                        pre.free_spaces()[index as int].union(
                            interval(allocation.range.start as int, allocation.range.end as int),
                        ),
                    ));
                    assert(self.capacities() =~= pre.capacities());
                    assert(self.slab_usages() =~= pre.slab_usages());
                    assert forall|k: u32| #[trigger] self.pointer_table@.contains_key(k) implies {
                        let a = self.pointer_table@[k];
                        &&& a.slab_index == k as int
                        &&& a.slab_index < self.slabs@.len()
                        &&& a.range.start < a.range.end <= self.slabs@[k as int].capacity_bytes
                        &&& interval(a.range.start as int, a.range.end as int).disjoint(
                            range_allocator_free_set(self.slabs@[k as int].free),
                        )
                        &&& a.device_ptr == device_ptr_of(k as int, a.range.start, a.range.end)
                    } by {
                        let a = self.pointer_table@[k];
                        assert(k != slab_id.0);
                        assert(pre.pointer_table@[k] == a);
                        assert(a.slab_index < pre.slabs@.len());
                        assert(k as int != index as int);
                        assert(self.slabs@[k as int] == pre.slabs@[k as int]);
                    }
                }
                Some(allocation)
            },
            None => {
                assert(self.pointer_table@ == pre.pointer_table@);
                None
            },
        }
    }

    /// Grows the page table if needed and returns the entries to write into
    /// it: the device pointer of every recorded allocation, by ascending id.
    pub fn write_table(&mut self) -> (entries: Vec<DevicePtr>)
        requires
            old(self).wf(),
        ensures
            final(self).wf(),
            final(self).slab_count() == old(self).slab_count(),
            final(self).capacities() == old(self).capacities(),
            final(self).slab_usages() == old(self).slab_usages(),
            final(self).free_spaces() == old(self).free_spaces(),
            final(self).table() == old(self).table(),
            final(self).spec_page_table_size() == page_table_size_for(
                old(self).table().len() as int,
                old(self).spec_page_table_size(),
            ),
            final(self).spec_default_slab_size() == old(self).spec_default_slab_size(),
            final(self).spec_usages() == old(self).spec_usages(),
            entries@ == table_entries(old(self).table(), old(self).slab_count() as int),
    {
        self.ensure_page_table();
        let mut entries: Vec<DevicePtr> = Vec::new();
        let n = self.slabs.len();
        let mut i: usize = 0;
        while i < n
            invariant
                self.wf(),
                n == self.slabs@.len(),
                0 <= i <= n,
                entries@ == table_entries(self.pointer_table@, i as int),
            decreases n - i,
        {
            let key = i as u32;
            assert(key as int == i as int);
            match self.pointer_table.get(&key) {
                Some(alloc) => {
                    entries.push(alloc.device_ptr);
                },
                None => {},
            }
            i = i + 1;
        }
        entries
    }

}

/// What [`SlabPool::allocate`] does with a request for `size` bytes: the
/// range is placed as [`slab_placement`] says, its device pointer
/// describes it, it is recorded under its slab's index, and the page table
/// is grown for the entries recorded before.
pub open spec fn allocate_effect(pre: SlabPool, size: u64, alloc: SlabAllocation, post: SlabPool) -> bool {
    &&& slab_placement(pre, post, size, alloc.slab_index, alloc.range)
    &&& alloc.device_ptr == device_ptr_of(alloc.slab_index as int, alloc.range.start, alloc.range.end)
    &&& post.table() == pre.table().insert(alloc.slab_index as u32, alloc)
    &&& post.spec_page_table_size() == page_table_size_for(
        pre.table().len() as int,
        pre.spec_page_table_size(),
    )
    &&& post.spec_default_slab_size() == pre.spec_default_slab_size()
    &&& post.spec_usages() == pre.spec_usages()
}

/// The page-table record of a freed allocation: no slab.
pub open spec fn invalid_device_ptr() -> DevicePtr {
    DevicePtr { slab: u32::MAX, offset: 0, size: 0 }
}

/// A record to write into a pool's page table, at a byte offset.
#[derive(Clone, Copy, Debug, PartialEq, Eq)]
pub struct PageTableWrite {
    pub offset_bytes: u64,
    pub entry: DevicePtr,
}

impl SlabPool {
    /// The page-table write that goes with freeing `freed`: while the pool
    /// has a page table, the invalid record at the byte offset of entry
    /// `freed.range.start` (the free path addresses the table by the
    /// allocation's start, not by its id); nothing without a page table.
    /// [`SlabPool::free`] keeps the page-table size, so this can be asked
    /// before or after it.
    pub fn invalidation_write(&self, freed: &SlabAllocation) -> (w: Option<PageTableWrite>)
        requires
            freed.range.start * DEVICE_PTR_BYTES <= u64::MAX,
        ensures
            match w {
                None => self.spec_page_table_size() is None,
                Some(w) => {
                    &&& self.spec_page_table_size() is Some
                    &&& w.offset_bytes == freed.range.start * DEVICE_PTR_BYTES
                    &&& w.entry == invalid_device_ptr()
                },
            },
    {
        match self.page_table_size {
            Some(_) => Some(
                PageTableWrite {
                    offset_bytes: freed.range.start * DEVICE_PTR_BYTES,
                    entry: DevicePtr { slab: u32::MAX, offset: 0, size: 0 },
                },
            ),
            None => None,
        }
    }
}

/// What [`SlabPool::free`] does with `slab_id`: the allocation recorded
/// under it, if any, is dropped from the table and its bytes become free
/// again in its slab; nothing else changes.
pub open spec fn free_effect(pre: SlabPool, slab_id: SlabId, freed: Option<SlabAllocation>, post: SlabPool) -> bool {
    &&& post.slab_count() == pre.slab_count()
    &&& post.capacities() == pre.capacities()
    &&& post.slab_usages() == pre.slab_usages()
    &&& post.spec_page_table_size() == pre.spec_page_table_size()
    &&& post.spec_default_slab_size() == pre.spec_default_slab_size()
    &&& post.spec_usages() == pre.spec_usages()
    &&& match freed {
        Some(a) => {
            &&& pre.table().contains_key(slab_id.0)
            &&& a == pre.table()[slab_id.0]
            &&& post.table() == pre.table().remove(slab_id.0)
            &&& post.free_spaces() == pre.free_spaces().update(
                a.slab_index as int,
                pre.free_spaces()[a.slab_index as int].union(
                    interval(a.range.start as int, a.range.end as int),
                ),
            )
        },
        None => {
            &&& !pre.table().contains_key(slab_id.0)
            &&& post.table() == pre.table()
            &&& post.free_spaces() == pre.free_spaces()
        },
    }
}

/// Freeing what was just allocated undoes the allocation: the freed
/// allocation is the one handed out, its id leaves the page table, every
/// slab that existed before has its free space back, and a slab created
/// for the request is wholly free again.
pub proof fn lemma_free_undoes_allocate(
    p0: SlabPool,
    size: u64,
    alloc: SlabAllocation,
    p1: SlabPool,
    freed: Option<SlabAllocation>,
    p2: SlabPool,
)
    requires
        p0.wf(),
        0 < size <= u64::MAX / 2,
        p0.slab_count() < u32::MAX,
        allocate_effect(p0, size, alloc, p1),
        free_effect(p1, SlabId(alloc.slab_index as u32), freed, p2),
    ensures
        freed == Some(alloc),
        p2.table() == p0.table().remove(alloc.slab_index as u32),
        p2.slab_count() == p1.slab_count(),
        forall|i: int|
            #![trigger p2.free_spaces()[i]]
            0 <= i < p0.slab_count() ==> p2.free_spaces()[i] == p0.free_spaces()[i],
        p2.slab_count() > p0.slab_count() ==> p2.free_spaces()[p0.slab_count() as int] == interval(
            0,
            p2.capacities()[p0.slab_count() as int] as int,
        ),
{
    let key = alloc.slab_index as u32;
    assert(p1.table().contains_key(key));
    assert(p1.table()[key] == alloc);
    assert(p2.table() =~= p0.table().remove(key));
    let frees = p0.free_spaces();
    let run = interval(alloc.range.start as int, alloc.range.end as int);
    lemma_first_fitting_slab(frees, size as int, 0);
    match first_fitting_slab(frees, size as int, 0) {
        Some(j) => {
            let l = choose|l: int|
                #![trigger maximal_run(frees[j], alloc.range.start as int, l)]
                maximal_run(frees[j], alloc.range.start as int, l) && l >= size && forall|
                    s2: int,
                    l2: int,
                | #[trigger] maximal_run(frees[j], s2, l2) && l2 >= size ==> l2 >= l;
            assert(run.subset_of(frees[j])) by {
                assert forall|x: int| run.contains(x) implies frees[j].contains(x) by {
                    assert(alloc.range.start <= x < alloc.range.start + l);
                }
            }
            assert(frees[j].difference(run).union(run) =~= frees[j]);
            assert forall|i: int| #![trigger p2.free_spaces()[i]] 0 <= i < p0.slab_count() implies p2.free_spaces()[i]
                == p0.free_spaces()[i] by {
                if i != j {
                    assert(p1.free_spaces()[i] == frees[i]);
                }
            }
        },
        None => {
            let n = p0.slab_count() as int;
            let cap = p1.capacities()[n] as int;
            assert(p2.capacities()[n] == p1.capacities()[n]);
            assert(interval(0, cap).difference(interval(0, size as int)).union(interval(0, size as int))
                =~= interval(0, cap));
            assert forall|i: int| #![trigger p2.free_spaces()[i]] 0 <= i < p0.slab_count() implies p2.free_spaces()[i]
                == p0.free_spaces()[i] by {
                assert(p1.free_spaces()[i] == frees[i]);
            }
        },
    }
}

/// `pool` is as [`SlabPool::new`] leaves a pool made for the allocator:
/// no slabs, no allocations, no page table, [`DEFAULT_SLAB_SIZE`] and the
/// given usage bits.
pub open spec fn is_fresh_pool(pool: SlabPool, usages: u32) -> bool {
    &&& pool.wf()
    &&& pool.slab_count() == 0
    &&& pool.table() == Map::<u32, SlabAllocation>::empty()
    &&& pool.spec_page_table_size() is None
    &&& pool.spec_default_slab_size() == DEFAULT_SLAB_SIZE
    &&& pool.spec_usages() == usages
}

/// Byte alignment that allocations are requested with.
pub const ALLOCATION_ALIGN: u64 = 64;

/// The allocator: one [`SlabPool`] per [`SlabKind`] that has been
/// allocated from, created on first use with [`DEFAULT_SLAB_SIZE`] slabs
/// of the allocator's buffer usage bits.
pub struct GpuPagingAllocator {
    pools: HashMap<u32, SlabPool>,
    slab_usages: u32,
    bindings: [u32; 8],
    buffer_group_idx: u32,
    table_group_idx: u32,
}

/// Where the allocator's bind groups go: the shader binding of each
/// kind's pool (by kind index) and the two bind group indices.
#[derive(Clone, Copy, Debug, PartialEq, Eq)]
pub struct GpuPagingAllocatorSettings {
    pub bindings: [u32; 8],
    pub buffer_group_idx: u32,
    pub table_group_idx: u32,
}

impl Default for GpuPagingAllocatorSettings {
    fn default() -> (s: Self)
        ensures
            forall|i: int| 0 <= i < 8 ==> s.bindings@[i] == i,
            s.buffer_group_idx == 5,
            s.table_group_idx == 6,
    {
        GpuPagingAllocatorSettings { bindings: [0, 1, 2, 3, 4, 5, 6, 7], buffer_group_idx: 5, table_group_idx: 6 }
    }
}

/// The kind at index `i` (see [`SlabKind::spec_index`]).
pub open spec fn kind_at(i: u32) -> SlabKind {
    if i == 0 {
        SlabKind::Vert
    } else if i == 1 {
        SlabKind::Index
    } else if i == 2 {
        SlabKind::Meshlet
    } else if i == 3 {
        SlabKind::MeshletCull
    } else if i == 4 {
        SlabKind::Bvh
    } else if i == 5 {
        SlabKind::StrandMaterial
    } else if i == 6 {
        SlabKind::StrandGeo
    } else {
        SlabKind::StrandMeta
    }
}

/// The binding array of one pool: its shader binding and how many slab
/// buffers it holds.
#[derive(Clone, Copy, Debug, PartialEq, Eq)]
pub struct PoolBinding {
    pub kind: SlabKind,
    pub binding: u32,
    pub slab_count: u32,
}

/// The binding arrays of the pools with kind index below `n` that hold at
/// least one slab, by kind index.
pub open spec fn pool_bindings(pools: Map<u32, SlabPool>, bindings: Seq<u32>, n: u32) -> Seq<PoolBinding>
    decreases n,
{
    if n == 0 {
        Seq::empty()
    } else {
        let rest = pool_bindings(pools, bindings, (n - 1) as u32);
        let k = (n - 1) as u32;
        if pools.contains_key(k) && pools[k].slab_count() > 0 {
            rest.push(
                PoolBinding { kind: kind_at(k), binding: bindings[k as int], slab_count: pools[k].slab_count() as u32 },
            )
        } else {
            rest
        }
    }
}

/// The page-table bindings of the pools with kind index below `n` that
/// hold a slab and have a page table, by kind index.
pub open spec fn table_bindings(pools: Map<u32, SlabPool>, bindings: Seq<u32>, n: u32) -> Seq<(SlabKind, u32)>
    decreases n,
{
    if n == 0 {
        Seq::empty()
    } else {
        let rest = table_bindings(pools, bindings, (n - 1) as u32);
        let k = (n - 1) as u32;
        if pools.contains_key(k) && pools[k].slab_count() > 0 && pools[k].spec_page_table_size() is Some {
            rest.push((kind_at(k), bindings[k as int]))
        } else {
            rest
        }
    }
}

impl GpuPagingAllocator {
    /// Pools by kind index.
    pub closed spec fn pools(&self) -> Map<u32, SlabPool> {
        self.pools@
    }

    pub closed spec fn spec_slab_usages(&self) -> u32 {
        self.slab_usages
    }

    /// Bind group index of the slab buffers.
    pub closed spec fn spec_buffer_group_idx(&self) -> u32 {
        self.buffer_group_idx
    }

    /// Bind group index of the page tables.
    pub closed spec fn spec_table_group_idx(&self) -> u32 {
        self.table_group_idx
    }

    pub fn buffer_group_idx(&self) -> (idx: u32)
        ensures
            idx == self.spec_buffer_group_idx(),
    {
        self.buffer_group_idx
    }

    pub fn table_group_idx(&self) -> (idx: u32)
        ensures
            idx == self.spec_table_group_idx(),
    {
        self.table_group_idx
    }

    pub closed spec fn wf(&self) -> bool {
        forall|k: u32| #[trigger] self.pools@.contains_key(k) ==> k < 8 && self.pools@[k].wf()
    }

    /// An allocator with no pools yet.
    pub fn new(slab_usages: u32, buffer_group_idx: u32, table_group_idx: u32) -> (a: Self)
        ensures
            a.wf(),
            a.pools() == Map::<u32, SlabPool>::empty(),
            a.spec_slab_usages() == slab_usages,
            a.spec_buffer_group_idx() == buffer_group_idx,
            a.spec_table_group_idx() == table_group_idx,
    {
        GpuPagingAllocator {
            pools: HashMap::new(),
            slab_usages,
            bindings: [0, 1, 2, 3, 4, 5, 6, 7],
            buffer_group_idx,
            table_group_idx,
        }
    }

    /// An allocator with no pools yet, bound as `settings` say.
    pub fn from_settings(settings: &GpuPagingAllocatorSettings, slab_usages: u32) -> (a: Self)
        ensures
            a.wf(),
            a.pools() == Map::<u32, SlabPool>::empty(),
            a.spec_slab_usages() == slab_usages,
            a.spec_bindings() == settings.bindings@,
            a.spec_buffer_group_idx() == settings.buffer_group_idx,
            a.spec_table_group_idx() == settings.table_group_idx,
    {
        GpuPagingAllocator {
            pools: HashMap::new(),
            slab_usages,
            bindings: settings.bindings,
            buffer_group_idx: settings.buffer_group_idx,
            table_group_idx: settings.table_group_idx,
        }
    }

    /// The shader binding of each kind's pool, by kind index.
    pub closed spec fn spec_bindings(&self) -> Seq<u32> {
        self.bindings@
    }

    /// The binding arrays of the bind group layout: one per pool that holds
    /// a slab, sized to its slab count, by kind index.
    pub fn layout_entries(&self) -> (layout: Vec<PoolBinding>)
        requires
            self.wf(),
        ensures
            layout@ == pool_bindings(self.pools(), self.spec_bindings(), 8),
    {
        let mut layout: Vec<PoolBinding> = Vec::new();
        let mut i: u32 = 0;
        while i < 8
            invariant
                i <= 8,
                self.wf(),
                layout@ == pool_bindings(self.pools(), self.spec_bindings(), i),
            decreases 8 - i,
        {
            match self.pools.get(&i) {
                Some(pool) => {
                    let count = pool.slab_count_exec();
                    if count > 0 {
                        layout.push(PoolBinding { kind: kind_of_index(i), binding: self.bindings[i as usize], slab_count: count as u32 });
                    }
                },
                None => {},
            }
            i = i + 1;
        }
        layout
    }

    /// The page tables to bind: one per pool that holds a slab and has a
    /// page table, by kind index.
    pub fn page_table_entries(&self) -> (tables: Vec<(SlabKind, u32)>)
        requires
            self.wf(),
        ensures
            tables@ == table_bindings(self.pools(), self.spec_bindings(), 8),
    {
        let mut tables: Vec<(SlabKind, u32)> = Vec::new();
        let mut i: u32 = 0;
        while i < 8
            invariant
                i <= 8,
                self.wf(),
                tables@ == table_bindings(self.pools(), self.spec_bindings(), i),
            decreases 8 - i,
        {
            match self.pools.get(&i) {
                Some(pool) => {
                    if pool.slab_count_exec() > 0 && pool.page_table_size().is_some() {
                        tables.push((kind_of_index(i), self.bindings[i as usize]));
                    }
                },
                None => {},
            }
            i = i + 1;
        }
        tables
    }

    /// The pool of `kind`, if anything was allocated from it.
    pub fn pool(&self, kind: SlabKind) -> (pool: Option<&SlabPool>)
        ensures
            match pool {
                Some(p) => self.pools().contains_key(kind.spec_index()) && *p == self.pools()[kind.spec_index()],
                None => !self.pools().contains_key(kind.spec_index()),
            },
    {
        let k = kind.index();
        self.pools.get(&k)
    }

    /// Allocates room for `data` in the pool of `kind` (creating the pool
    /// on first use) and returns the allocation's key and where it lies;
    /// the bytes themselves are uploaded by the caller.
    pub fn allocate(&mut self, kind: SlabKind, data: &[u8]) -> (r: (AllocKey, SlabAllocation))
        requires
            old(self).wf(),
            0 < data@.len() <= u64::MAX / 2,
            old(self).pools().contains_key(kind.spec_index()) ==> old(self).pools()[kind.spec_index()].slab_count() < u32::MAX,
        ensures
            final(self).wf(),
            final(self).spec_slab_usages() == old(self).spec_slab_usages(),
            final(self).spec_buffer_group_idx() == old(self).spec_buffer_group_idx(),
            final(self).spec_table_group_idx() == old(self).spec_table_group_idx(),
            final(self).pools().dom() == old(self).pools().dom().insert(kind.spec_index()),
            forall|k: u32| #[trigger] old(self).pools().contains_key(k) && k != kind.spec_index() ==> final(self).pools()[k] == old(self).pools()[k],
            r.0 == (SlabId(r.1.slab_index as u32), kind),
            old(self).pools().contains_key(kind.spec_index()) ==> allocate_effect(
                old(self).pools()[kind.spec_index()],
                data@.len() as u64,
                r.1,
                final(self).pools()[kind.spec_index()],
            ),
            !old(self).pools().contains_key(kind.spec_index()) ==> exists|fresh: SlabPool|
                is_fresh_pool(fresh, old(self).spec_slab_usages()) && #[trigger] allocate_effect(
                    fresh,
                    data@.len() as u64,
                    r.1,
                    final(self).pools()[kind.spec_index()],
                ),
    {
        let k = kind.index();
        let size = data.len() as u64;
        let mut pool = match self.pools.remove(&k) {
            Some(p) => p,
            None => SlabPool::new(DEFAULT_SLAB_SIZE, self.slab_usages),
        };
        let ghost fresh = pool;
        let alloc = pool.allocate(size, ALLOCATION_ALIGN);
        let slab_id = SlabId(alloc.slab_index as u32);
        self.pools.insert(k, pool);
        proof {
            assert(self.pools@.dom() =~= old(self).pools@.dom().insert(k));
            assert(self.pools@[k] == pool);
            if !old(self).pools@.contains_key(k) {
                assert(is_fresh_pool(fresh, old(self).slab_usages));
                assert(size == data@.len() as u64);
                assert(allocate_effect(fresh, data@.len() as u64, alloc, self.pools@[k]));
                assert(self.pools()[kind.spec_index()] == self.pools@[k]);
                assert(allocate_effect(fresh, data@.len() as u64, alloc, self.pools()[kind.spec_index()]));
                assert(is_fresh_pool(fresh, old(self).spec_slab_usages()));
                assert(exists|f: SlabPool|
                    is_fresh_pool(f, old(self).spec_slab_usages()) && #[trigger] allocate_effect(
                        f,
                        data@.len() as u64,
                        alloc,
                        self.pools()[kind.spec_index()],
                    ));
            }
        }
        ((slab_id, kind), alloc)
    }

    /// Grows and returns the page-table entries of every pool (see
    /// [`SlabPool::write_table`]), by kind in declaration order.
    pub fn write_tables(&mut self) -> (tables: Vec<(SlabKind, Vec<DevicePtr>)>)
        requires
            old(self).wf(),
        ensures
            final(self).wf(),
            final(self).pools().dom() == old(self).pools().dom(),
            tables@.len() == old(self).pools().len(),
            forall|j: int, k: int|
                0 <= j < k < tables@.len() ==> tables@[j].0.spec_index() < tables@[k].0.spec_index(),
            forall|k: u32|
                old(self).pools().contains_key(k) ==> exists|j: int|
                    #![trigger tables@[j]]
                    0 <= j < tables@.len() && tables@[j].0.spec_index() == k,
            forall|j: int|
                #![trigger tables@[j]]
                0 <= j < tables@.len() ==> {
                    let k = tables@[j].0.spec_index();
                    &&& old(self).pools().contains_key(k)
                    &&& tables@[j].1@ == table_entries(
                        old(self).pools()[k].table(),
                        old(self).pools()[k].slab_count() as int,
                    )
                },
            forall|k: u32|
                #![trigger final(self).pools()[k]]
                old(self).pools().contains_key(k) ==> {
                    let pre = old(self).pools()[k];
                    let post = final(self).pools()[k];
                    &&& post.slab_count() == pre.slab_count()
                    &&& post.capacities() == pre.capacities()
                    &&& post.slab_usages() == pre.slab_usages()
                    &&& post.free_spaces() == pre.free_spaces()
                    &&& post.table() == pre.table()
                    &&& post.spec_page_table_size() == page_table_size_for(
                        pre.table().len() as int,
                        pre.spec_page_table_size(),
                    )
                    &&& post.spec_default_slab_size() == pre.spec_default_slab_size()
                    &&& post.spec_usages() == pre.spec_usages()
                },
    {
        let mut tables: Vec<(SlabKind, Vec<DevicePtr>)> = Vec::new();
        let mut i: u32 = 0;
        proof {
            assert(old(self).pools@.dom().filter(|k: u32| k < 0u32) =~= Set::empty());
            lemma_ids_below_len(8);
        }
        while i < 8
            invariant
                self.wf(),
                i <= 8,
                old(self).wf(),
                self.pools@.dom() == old(self).pools@.dom(),
                tables@.len() == old(self).pools@.dom().filter(|k: u32| k < i).len(),
                forall|j: int, k: int|
                    0 <= j < k < tables@.len() ==> tables@[j].0.spec_index() < tables@[k].0.spec_index(),
                forall|k: u32|
                    k < i && old(self).pools@.contains_key(k) ==> exists|j: int|
                        #![trigger tables@[j]]
                        0 <= j < tables@.len() && tables@[j].0.spec_index() == k,
                forall|j: int|
                    #![trigger tables@[j]]
                    0 <= j < tables@.len() ==> {
                        let k = tables@[j].0.spec_index();
                        &&& k < i
                        &&& old(self).pools@.contains_key(k)
                        &&& tables@[j].1@ == table_entries(
                            old(self).pools@[k].table(),
                            old(self).pools@[k].slab_count() as int,
                        )
                    },
                forall|k: u32|
                    #![trigger self.pools@[k]]
                    old(self).pools@.contains_key(k) && k >= i ==> self.pools@[k] == old(self).pools@[k],
                forall|k: u32|
                    #![trigger self.pools@[k]]
                    old(self).pools@.contains_key(k) && k < i ==> {
                        let pre = old(self).pools@[k];
                        let post = self.pools@[k];
                        &&& post.slab_count() == pre.slab_count()
                        &&& post.capacities() == pre.capacities()
                        &&& post.slab_usages() == pre.slab_usages()
                        &&& post.free_spaces() == pre.free_spaces()
                        &&& post.table() == pre.table()
                        &&& post.spec_page_table_size() == page_table_size_for(
                            pre.table().len() as int,
                            pre.spec_page_table_size(),
                        )
                        &&& post.spec_default_slab_size() == pre.spec_default_slab_size()
                        &&& post.spec_usages() == pre.spec_usages()
                    },
            decreases 8 - i,
        {
            let ghost dom = old(self).pools@.dom();
            proof {
                assert(dom.filter(|k: u32| k < i + 1) =~= if dom.contains(i) {
                    dom.filter(|k: u32| k < i).insert(i)
                } else {
                    dom.filter(|k: u32| k < i)
                });
                lemma_ids_below_len(8);
                let below = dom.filter(|k: u32| k < i);
                assert forall|k: u32| #[trigger] below.contains(k) implies ids_below(8).contains(k) by {
                    assert(old(self).pools@.contains_key(k));
                }
                vstd::set_lib::lemma_len_subset(dom.filter(|k: u32| k < i), ids_below(8));
            }
            let kind = kind_of_index(i);
            match self.pools.remove(&i) {
                Some(mut pool) => {
                    let entries = pool.write_table();
                    self.pools.insert(i, pool);
                    let ghost before = tables@;
                    tables.push((kind, entries));
                    proof {
                        assert(self.pools@.dom() =~= old(self).pools@.dom());
                        let last = before.len() as int;
                        assert(tables@[last].0.spec_index() == i);
                        assert forall|k: u32|
                            k < i + 1 && old(self).pools@.contains_key(k) implies exists|j: int|
                                #![trigger tables@[j]]
                                0 <= j < tables@.len() && tables@[j].0.spec_index() == k by {
                            if k < i {
                                let j = choose|j: int|
                                    #![trigger before[j]]
                                    0 <= j < before.len() && before[j].0.spec_index() == k;
                                assert(tables@[j] == before[j]);
                            } else {
                                assert(tables@[last].0.spec_index() == k);
                            }
                        }
                    }
                },
                None => {},
            }
            i = i + 1;
        }
        proof {
            let dom = old(self).pools@.dom();
            assert(dom.filter(|k: u32| k < 8u32) =~= dom);
        }
        tables
    }
}

/// The kind at position `i` in declaration order.
pub fn kind_of_index(i: u32) -> (kind: SlabKind)
    requires
        i < 8,
    ensures
        kind.spec_index() == i,
        kind == kind_at(i),
{
    if i == 0 {
        SlabKind::Vert
    } else if i == 1 {
        SlabKind::Index
    } else if i == 2 {
        SlabKind::Meshlet
    } else if i == 3 {
        SlabKind::MeshletCull
    } else if i == 4 {
        SlabKind::Bvh
    } else if i == 5 {
        SlabKind::StrandMaterial
    } else if i == 6 {
        SlabKind::StrandGeo
    } else {
        SlabKind::StrandMeta
    }
}

} // verus!
