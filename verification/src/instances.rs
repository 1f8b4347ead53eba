//! The strand instances of a frame: the geometry in view, ordered by
//! entity index, keeping only the geometry whose five buffer tables are
//! resident.
use vstd::prelude::*;
use crate::capacity::{geometry_totals, summarize_geometry, GeometrySummary, GeometryTotals};
use crate::frusta::{distinct_keys, lemma_rank_order, lemma_ranks_onto, lemma_count_below_lt_len, lemma_frustum_ids_distinct, order_by_rank, rank_of, some_key_has_rank};

verus! {

/// The page-table ids of an instance's vertex, index, meta, geometry and
/// material buffers.
#[derive(Clone, Copy, Debug, PartialEq, Eq)]
pub struct InstanceTables {
    pub vertex_id: u32,
    pub index_id: u32,
    pub meta_id: u32,
    pub geo_id: u32,
    pub material_id: u32,
}

/// One strand geometry in view: its entity index, its table ids (`None`
/// while one of its buffers is not resident), and its counts.
#[derive(Clone, Copy, Debug, PartialEq, Eq)]
pub struct InstanceEntry {
    pub entity: u32,
    pub tables: Option<InstanceTables>,
    pub geometry: GeometrySummary,
}

/// The instances of a frame, in order: the table ids written to the
/// instance buffer, the counts of each, and their totals.
#[derive(Clone, Debug)]
pub struct InstanceRecords {
    pub tables: Vec<InstanceTables>,
    pub geometry: Vec<GeometrySummary>,
    pub totals: GeometryTotals,
}

/// The entity indices of `entries`.
pub open spec fn entry_keys(entries: Seq<InstanceEntry>) -> Seq<u32> {
    entries.map_values(|e: InstanceEntry| e.entity)
}

/// `entries` sorted by entity index: at position `r` the entry with `r`
/// smaller entity indices.
pub open spec fn in_entity_order(entries: Seq<InstanceEntry>) -> Seq<InstanceEntry> {
    Seq::new(
        entries.len(),
        |r: int| entries[choose|i: int| 0 <= i < entries.len() && rank_of(entry_keys(entries), i) == r],
    )
}

/// Entries in entity order are sorted by strictly increasing entity
/// index, and each entry stands there once: at the rank of its entity
/// index.
pub proof fn lemma_entity_order_sorted(entries: Seq<InstanceEntry>)
    requires
        distinct_keys(entry_keys(entries)),
    ensures
        in_entity_order(entries).len() == entries.len(),
        forall|a: int, b: int|
            0 <= a < b < entries.len() ==> #[trigger] in_entity_order(entries)[a].entity
                < #[trigger] in_entity_order(entries)[b].entity,
        forall|i: int|
            0 <= i < entries.len() ==> in_entity_order(entries)[#[trigger] rank_of(entry_keys(entries), i)]
                == entries[i],
{
    let keys = entry_keys(entries);
    let sorted = in_entity_order(entries);
    lemma_ranks_onto(keys);
    assert forall|r: int| 0 <= r < entries.len() implies {
        let i = choose|i: int| 0 <= i < entries.len() && rank_of(keys, i) == r;
        &&& 0 <= i < entries.len()
        &&& rank_of(keys, i) == r
        &&& #[trigger] sorted[r] == entries[i]
    } by {
        assert(some_key_has_rank(keys, r));
    }
    assert forall|a: int, b: int| 0 <= a < b < entries.len() implies #[trigger] sorted[a].entity
        < #[trigger] sorted[b].entity by {
        let i = choose|i: int| 0 <= i < entries.len() && rank_of(keys, i) == a;
        let j = choose|j: int| 0 <= j < entries.len() && rank_of(keys, j) == b;
        assert(sorted[a] == entries[i]);
        assert(sorted[b] == entries[j]);
        assert(keys[i] == entries[i].entity);
        assert(keys[j] == entries[j].entity);
        if keys[j] < keys[i] {
            lemma_rank_order(keys, j, i);
        } else if keys[j] == keys[i] {
            assert(i != j);
            if i < j {
                assert(keys[i] != keys[j]);
            } else {
                assert(keys[j] != keys[i]);
            }
        }
    }
    assert forall|i: int| 0 <= i < entries.len() implies sorted[#[trigger] rank_of(keys, i)] == entries[i] by {
        let r = rank_of(keys, i);
        assert(keys.contains(keys[i]));
        lemma_count_below_lt_len(keys, keys[i]);
        let j = choose|j: int| 0 <= j < entries.len() && rank_of(keys, j) == r;
        assert(sorted[r] == entries[j]);
        if j != i {
            if i < j {
                assert(keys[i] != keys[j]);
            } else {
                assert(keys[j] != keys[i]);
            }
            assert(keys.contains(keys[j]));
            lemma_frustum_ids_distinct(keys, keys[i], keys[j]);
        }
    }
}

/// The table ids of the entries whose tables resolve, in order.
pub open spec fn resolved_tables(s: Seq<InstanceEntry>) -> Seq<InstanceTables>
    decreases s.len(),
{
    if s.len() == 0 {
        Seq::empty()
    } else {
        let rest = resolved_tables(s.drop_last());
        match s.last().tables {
            Some(t) => rest.push(t),
            None => rest,
        }
    }
}

/// The counts of the entries whose tables resolve, in order.
pub open spec fn resolved_geometry(s: Seq<InstanceEntry>) -> Seq<GeometrySummary>
    decreases s.len(),
{
    if s.len() == 0 {
        Seq::empty()
    } else {
        let rest = resolved_geometry(s.drop_last());
        match s.last().tables {
            Some(_) => rest.push(s.last().geometry),
            None => rest,
        }
    }
}

/// Collects the instances of a frame: the entries in entity-index order,
/// those whose tables do not resolve skipped, each kept one with its five
/// table ids and its counts, and the totals over the kept ones.
pub fn collect_instances(entries: &[InstanceEntry]) -> (r: InstanceRecords)
    requires
        distinct_keys(entry_keys(entries@)),
    ensures
        r.tables@ == resolved_tables(in_entity_order(entries@)),
        r.geometry@ == resolved_geometry(in_entity_order(entries@)),
        r.totals == geometry_totals(resolved_geometry(in_entity_order(entries@))),
{
    let mut keys: Vec<u32> = Vec::new();
    let mut k: usize = 0;
    while k < entries.len()
        invariant
            0 <= k <= entries@.len(),
            keys@ == entry_keys(entries@).take(k as int),
        decreases entries@.len() - k,
    {
        keys.push(entries[k].entity);
        k = k + 1;
        proof {
            assert(keys@ =~= entry_keys(entries@).take(k as int));
        }
    }
    proof {
        assert(keys@ =~= entry_keys(entries@));
    }
    let ordered = order_by_rank(keys.as_slice(), entries);
    proof {
        let keys_s = entry_keys(entries@);
        assert forall|r: int| 0 <= r < ordered@.len() implies ordered@[r] == #[trigger] in_entity_order(
            entries@,
        )[r] by {
            assert(some_key_has_rank(keys_s, r));
            let i = choose|i: int| 0 <= i < entries@.len() && rank_of(keys_s, i) == r;
            assert(ordered@[rank_of(keys_s, i)] == entries@[i]);
        }
        assert(ordered@ =~= in_entity_order(entries@));
    }
    let mut tables: Vec<InstanceTables> = Vec::new();
    let mut geometry: Vec<GeometrySummary> = Vec::new();
    let mut i: usize = 0;
    while i < ordered.len()
        invariant
            0 <= i <= ordered@.len(),
            tables@ == resolved_tables(ordered@.take(i as int)),
            geometry@ == resolved_geometry(ordered@.take(i as int)),
        decreases ordered@.len() - i,
    {
        let e = ordered[i];
        proof {
            assert(ordered@.take(i + 1).drop_last() =~= ordered@.take(i as int));
        }
        match e.tables {
            Some(t) => {
                tables.push(t);
                geometry.push(e.geometry);
            },
            None => {},
        }
        i = i + 1;
    }
    proof {
        assert(ordered@.take(ordered@.len() as int) =~= ordered@);
    }
    let totals = summarize_geometry(geometry.as_slice());
    InstanceRecords { tables, geometry, totals }
}

} // verus!
