//! Packing strand geometry into the index and strand-meta buffers that the
//! shaders read. Strands with fewer than two vertices draw no segment and
//! are dropped; vertex positions (floats) are not touched here.
use vstd::prelude::*;
use crate::shader_types::StrandMeta;
use crate::strand_cache::{cache_is_valid, strand_in_bounds, StrandCacheFile, StrandCacheStrand};

verus! {

/// The index and meta buffers of one geometry, with their counts.
#[derive(Clone, Debug)]
pub struct PackedStrands {
    pub indices: Vec<u32>,
    pub meta: Vec<StrandMeta>,
    pub strand_count: u32,
    pub index_count: u32,
    /// The largest vertex count of a kept strand.
    pub max_segments_in_strand: u32,
}

/// The strands given as lists of vertex indices, as sequences.
pub open spec fn index_lists(strands: Seq<Vec<u32>>) -> Seq<Seq<u32>> {
    strands.map_values(|v: Vec<u32>| v@)
}

/// The lists that have at least two entries, in order.
pub open spec fn drawable_lists(lists: Seq<Seq<u32>>) -> Seq<Seq<u32>>
    decreases lists.len(),
{
    if lists.len() == 0 {
        Seq::empty()
    } else {
        let kept = drawable_lists(lists.drop_last());
        if lists.last().len() >= 2 {
            kept.push(lists.last())
        } else {
            kept
        }
    }
}

/// The largest length of the lists, each taken as a `u32`; 0 for none.
pub open spec fn longest_list(lists: Seq<Seq<u32>>) -> u32
    decreases lists.len(),
{
    if lists.len() == 0 {
        0
    } else {
        let rest = longest_list(lists.drop_last());
        let last = lists.last().len() as u32;
        if rest < last {
            last
        } else {
            rest
        }
    }
}

/// The meta record of each list laid end to end: its length and where it
/// starts, both as `u32`.
pub open spec fn list_metas(lists: Seq<Seq<u32>>) -> Seq<StrandMeta> {
    Seq::new(
        lists.len(),
        |i: int| StrandMeta::spec_of(lists[i].len() as u32, lists.take(i).flatten().len() as u32),
    )
}

/// What packing lists of vertex indices gives: nothing without vertices or
/// without a drawable strand; else the drawable lists end to end.
pub open spec fn packs_lists(vertex_count: usize, lists: Seq<Seq<u32>>, packed: Option<PackedStrands>) -> bool {
    let kept = drawable_lists(lists);
    match packed {
        None => vertex_count == 0 || kept.len() == 0,
        Some(p) => {
            &&& vertex_count > 0
            &&& kept.len() > 0
            &&& p.indices@ == kept.flatten()
            &&& p.meta@ == list_metas(kept)
            &&& p.strand_count == kept.len() as u32
            &&& p.index_count == kept.flatten().len() as u32
            &&& p.max_segments_in_strand == longest_list(kept)
        },
    }
}

/// Packs strands given as lists of vertex indices: the lists with at least
/// two entries are laid end to end in the index buffer, each with a meta
/// record of its length and start.
pub fn pack_strands(vertex_count: usize, strands: &[Vec<u32>]) -> (packed: Option<PackedStrands>)
    ensures
        packs_lists(vertex_count, index_lists(strands@), packed),
{
    if vertex_count == 0 {
        return None;
    }
    let ghost lists = index_lists(strands@);
    let mut indices: Vec<u32> = Vec::new();
    let mut meta: Vec<StrandMeta> = Vec::new();
    let mut max_segments_in_strand: u32 = 0;
    let mut j: usize = 0;
    while j < strands.len()
        invariant
            lists == index_lists(strands@),
            0 <= j <= strands@.len(),
            indices@ == drawable_lists(lists.take(j as int)).flatten(),
            meta@ == list_metas(drawable_lists(lists.take(j as int))),
            max_segments_in_strand == longest_list(drawable_lists(lists.take(j as int))),
        decreases strands@.len() - j,
    {
        let strand = &strands[j];
        let ghost kept = drawable_lists(lists.take(j as int));
        proof {
            assert(lists.take(j + 1).drop_last() =~= lists.take(j as int));
            assert(lists.take(j + 1).last() == strand@);
        }
        if strand.len() >= 2 {
            let count = strand.len() as u32;
            let offset = indices.len() as u32;
            if max_segments_in_strand < count {
                max_segments_in_strand = count;
            }
            proof {
                kept.lemma_flatten_push(strand@);
                assert(kept.push(strand@).drop_last() =~= kept);
                assert forall|k: int| 0 <= k < kept.len() implies #[trigger] kept.push(strand@).take(k)
                    =~= kept.take(k) by {}
                assert(kept.push(strand@).take(kept.len() as int) =~= kept);
            }
            indices.extend_from_slice(strand.as_slice());
            meta.push(StrandMeta::from((count, offset)));
            proof {
                let next = kept.push(strand@);
                assert(meta@ =~= list_metas(next)) by {
                    assert forall|k: int| 0 <= k < next.len() implies meta@[k] == list_metas(next)[k] by {
                        if k < kept.len() {
                            assert(next.take(k) =~= kept.take(k));
                        }
                    }
                }
            }
        }
        j = j + 1;
    }
    proof {
        assert(lists.take(strands@.len() as int) =~= lists);
    }
    if meta.len() == 0 {
        return None;
    }
    let strand_count = meta.len() as u32;
    let index_count = indices.len() as u32;
    Some(PackedStrands { indices, meta, strand_count, index_count, max_segments_in_strand })
}

/// The meta records of the cache strands with at least two vertices, in
/// order.
pub open spec fn cache_strand_metas(strands: Seq<StrandCacheStrand>) -> Seq<StrandMeta>
    decreases strands.len(),
{
    if strands.len() == 0 {
        Seq::empty()
    } else {
        let kept = cache_strand_metas(strands.drop_last());
        let last = strands.last();
        if last.count >= 2 {
            kept.push(StrandMeta::spec_of(last.count, last.offset))
        } else {
            kept
        }
    }
}

/// The largest `count` among meta records; 0 for none.
pub open spec fn longest_meta(metas: Seq<StrandMeta>) -> u32
    decreases metas.len(),
{
    if metas.len() == 0 {
        0
    } else {
        let rest = longest_meta(metas.drop_last());
        if rest < metas.last().count {
            metas.last().count
        } else {
            rest
        }
    }
}

/// Packs the strands of a cache whose index buffer is already laid out:
/// the strands with at least two vertices keep their ranges, the index
/// buffer is copied whole.
pub fn pack_indexed_strands(vertex_count: usize, strands: &[StrandCacheStrand], indices: &[u32]) -> (packed:
    Option<PackedStrands>)
    ensures
        ({
            let metas = cache_strand_metas(strands@);
            match packed {
                None => vertex_count == 0 || metas.len() == 0,
                Some(p) => {
                    &&& vertex_count > 0
                    &&& metas.len() > 0
                    &&& p.indices@ == indices@
                    &&& p.meta@ == metas
                    &&& p.strand_count == metas.len() as u32
                    &&& p.index_count == indices@.len() as u32
                    &&& p.max_segments_in_strand == longest_meta(metas)
                },
            }
        }),
{
    if vertex_count == 0 || strands.len() == 0 {
        return None;
    }
    let mut meta: Vec<StrandMeta> = Vec::new();
    let mut max_segments_in_strand: u32 = 0;
    let mut j: usize = 0;
    while j < strands.len()
        invariant
            0 <= j <= strands@.len(),
            meta@ == cache_strand_metas(strands@.take(j as int)),
            max_segments_in_strand == longest_meta(meta@),
        decreases strands@.len() - j,
    {
        let strand = strands[j];
        proof {
            assert(strands@.take(j + 1).drop_last() =~= strands@.take(j as int));
        }
        if strand.count >= 2 {
            if max_segments_in_strand < strand.count {
                max_segments_in_strand = strand.count;
            }
            let ghost before = meta@;
            meta.push(StrandMeta::from((strand.count, strand.offset)));
            proof {
                assert(meta@.drop_last() =~= before);
            }
        }
        j = j + 1;
    }
    proof {
        assert(strands@.take(strands@.len() as int) =~= strands@);
    }
    if meta.len() == 0 {
        return None;
    }
    let strand_count = meta.len() as u32;
    let index_count = indices.len() as u32;
    let mut copied: Vec<u32> = Vec::new();
    copied.extend_from_slice(indices);
    Some(PackedStrands { indices: copied, meta, strand_count, index_count, max_segments_in_strand })
}

proof fn lemma_metas_of_drawable(strands: Seq<StrandCacheStrand>)
    requires
        forall|i: int| 0 <= i < strands.len() ==> (#[trigger] strands[i]).count >= 2,
    ensures
        cache_strand_metas(strands).len() == strands.len(),
        forall|i: int|
            0 <= i < strands.len() ==> #[trigger] cache_strand_metas(strands)[i] == StrandMeta::spec_of(
                strands[i].count,
                strands[i].offset,
            ),
    decreases strands.len(),
{
    if strands.len() > 0 {
        let rest = strands.drop_last();
        assert forall|i: int| 0 <= i < rest.len() implies (#[trigger] rest[i]).count >= 2 by {
            assert(rest[i] == strands[i]);
        }
        lemma_metas_of_drawable(rest);
        assert(strands.last() == strands[strands.len() - 1]);
    }
}

/// A cache that passes validation loses no strand when packed: every strand
/// gets a meta record with its own range, and that range lies inside the
/// index buffer and names only vertices the cache has.
pub proof fn lemma_valid_cache_packs_in_bounds(cache: StrandCacheFile)
    requires
        cache_is_valid(cache),
    ensures
        cache_strand_metas(cache.strands@).len() == cache.strands@.len(),
        forall|i: int|
            #![trigger cache_strand_metas(cache.strands@)[i]]
            0 <= i < cache.strands@.len() ==> {
                let m = cache_strand_metas(cache.strands@)[i];
                &&& m == StrandMeta::spec_of(cache.strands@[i].count, cache.strands@[i].offset)
                &&& m.offset + m.count <= cache.indices@.len()
                &&& forall|j: int|
                    #![trigger cache.indices@[j]]
                    m.offset <= j < m.offset + m.count ==> cache.indices@[j] < cache.vertex_bits@.len()
            },
{
    assert forall|i: int| 0 <= i < cache.strands@.len() implies (#[trigger] cache.strands@[i]).count >= 2 by {
        assert(strand_in_bounds(cache.strands@[i], cache.indices@, cache.vertex_bits@.len() as int));
    }
    lemma_metas_of_drawable(cache.strands@);
    assert forall|i: int| 0 <= i < cache.strands@.len() implies {
        let m = #[trigger] cache_strand_metas(cache.strands@)[i];
        &&& m == StrandMeta::spec_of(cache.strands@[i].count, cache.strands@[i].offset)
        &&& m.offset + m.count <= cache.indices@.len()
        &&& forall|j: int|
            #![trigger cache.indices@[j]]
            m.offset <= j < m.offset + m.count ==> cache.indices@[j] < cache.vertex_bits@.len()
    } by {
        assert(strand_in_bounds(cache.strands@[i], cache.indices@, cache.vertex_bits@.len() as int));
    }
}

/// `l` is one of `lists` with two or more indices.
spec fn is_drawable_member(lists: Seq<Seq<u32>>, l: Seq<u32>) -> bool {
    exists|i: int| 0 <= i < lists.len() && lists[i].len() >= 2 && lists[i] == l
}

/// The kept lists are exactly the lists of two or more indices: each kept
/// list is one of them, and each of them is kept.
proof fn lemma_drawable_lists_members(lists: Seq<Seq<u32>>)
    ensures
        forall|k: int| 0 <= k < drawable_lists(lists).len() ==> is_drawable_member(lists, #[trigger] drawable_lists(lists)[k]),
        forall|i: int| 0 <= i < lists.len() && (#[trigger] lists[i]).len() >= 2 ==> drawable_lists(lists).contains(
            lists[i],
        ),
    decreases lists.len(),
{
    if lists.len() > 0 {
        let rest = lists.drop_last();
        lemma_drawable_lists_members(rest);
        let kept = drawable_lists(rest);
        let n = lists.len() - 1;
        assert(lists.last() == lists[n]);
        assert forall|k: int| 0 <= k < drawable_lists(lists).len() implies is_drawable_member(
            lists,
            #[trigger] drawable_lists(lists)[k],
        ) by {
            if k < kept.len() {
                assert(drawable_lists(lists)[k] == kept[k]);
                assert(is_drawable_member(rest, kept[k]));
                let i = choose|i: int| 0 <= i < rest.len() && rest[i].len() >= 2 && rest[i] == kept[k];
                assert(lists[i] == rest[i]);
            } else {
                assert(drawable_lists(lists)[k] == lists[n]);
                assert(lists[n].len() >= 2);
            }
        }
        assert forall|i: int| 0 <= i < lists.len() && (#[trigger] lists[i]).len() >= 2 implies drawable_lists(
            lists,
        ).contains(lists[i]) by {
            if i < n {
                assert(rest[i] == lists[i]);
                assert(kept.contains(lists[i]));
                let k = choose|k: int| 0 <= k < kept.len() && kept[k] == lists[i];
                assert(drawable_lists(lists)[k] == lists[i]);
            } else {
                let d = drawable_lists(lists);
                assert(d[d.len() - 1] == lists[i]);
            }
        }
    }
}

/// The longest of lists no longer than `u32::MAX` is at least as long as
/// each, and (for some list at all) as long as one of them.
proof fn lemma_longest_list_is_max(lists: Seq<Seq<u32>>)
    requires
        forall|i: int| 0 <= i < lists.len() ==> (#[trigger] lists[i]).len() <= u32::MAX,
    ensures
        forall|i: int| 0 <= i < lists.len() ==> longest_list(lists) >= (#[trigger] lists[i]).len(),
        lists.len() == 0 ==> longest_list(lists) == 0,
        lists.len() > 0 ==> exists|i: int| 0 <= i < lists.len() && longest_list(lists) == (#[trigger] lists[i]).len(),
    decreases lists.len(),
{
    if lists.len() > 0 {
        let rest = lists.drop_last();
        assert forall|i: int| 0 <= i < rest.len() implies (#[trigger] rest[i]).len() <= u32::MAX by {
            assert(rest[i] == lists[i]);
        }
        lemma_longest_list_is_max(rest);
        let n = lists.len() - 1;
        assert(lists.last() == lists[n]);
        assert forall|i: int| 0 <= i < lists.len() implies longest_list(lists) >= (#[trigger] lists[i]).len() by {
            if i < n {
                assert(rest[i] == lists[i]);
            }
        }
        if longest_list(rest) < lists[n].len() as u32 || rest.len() == 0 {
            assert(longest_list(lists) == lists[n].len());
        } else {
            let i = choose|i: int| 0 <= i < rest.len() && longest_list(rest) == (#[trigger] rest[i]).len();
            assert(rest[i] == lists[i]);
            assert(longest_list(lists) == lists[i].len());
        }
    }
}

/// Packed strands record the longest strand: at least as many vertices as
/// every strand of two or more, and exactly as many as one of them.
pub proof fn lemma_packed_max_is_longest_strand(vertex_count: usize, lists: Seq<Seq<u32>>, p: PackedStrands)
    requires
        forall|i: int| 0 <= i < lists.len() ==> (#[trigger] lists[i]).len() <= u32::MAX,
        packs_lists(vertex_count, lists, Some(p)),
    ensures
        forall|i: int| 0 <= i < lists.len() && (#[trigger] lists[i]).len() >= 2 ==> p.max_segments_in_strand >= lists[i].len(),
        exists|i: int| 0 <= i < lists.len() && (#[trigger] lists[i]).len() >= 2 && p.max_segments_in_strand == lists[i].len(),
        forall|k: int| 0 <= k < p.meta@.len() ==> (#[trigger] p.meta@[k]).count >= 2,
        forall|i: int|
            0 <= i < lists.len() && (#[trigger] lists[i]).len() >= 2 ==> exists|k: int|
                0 <= k < p.meta@.len() && p.meta@[k].count == lists[i].len(),
{
    let kept = drawable_lists(lists);
    lemma_drawable_lists_members(lists);
    assert forall|k: int| 0 <= k < kept.len() implies (#[trigger] kept[k]).len() <= u32::MAX by {
        assert(is_drawable_member(lists, kept[k]));
        let i = choose|i: int| 0 <= i < lists.len() && lists[i].len() >= 2 && lists[i] == kept[k];
    }
    lemma_longest_list_is_max(kept);
    assert forall|i: int| 0 <= i < lists.len() && (#[trigger] lists[i]).len() >= 2 implies p.max_segments_in_strand
        >= lists[i].len() by {
        assert(kept.contains(lists[i]));
        let k = choose|k: int| 0 <= k < kept.len() && kept[k] == lists[i];
        assert(longest_list(kept) >= kept[k].len());
    }
    assert forall|k: int| 0 <= k < p.meta@.len() implies (#[trigger] p.meta@[k]).count >= 2 by {
        assert(p.meta@[k] == list_metas(kept)[k]);
        assert(is_drawable_member(lists, kept[k]));
        let i = choose|i: int| 0 <= i < lists.len() && lists[i].len() >= 2 && lists[i] == kept[k];
    }
    assert forall|i: int| 0 <= i < lists.len() && (#[trigger] lists[i]).len() >= 2 implies exists|k: int|
        0 <= k < p.meta@.len() && p.meta@[k].count == lists[i].len() by {
        assert(kept.contains(lists[i]));
        let k = choose|k: int| 0 <= k < kept.len() && kept[k] == lists[i];
        assert(p.meta@[k] == list_metas(kept)[k]);
    }
    let k = choose|k: int| 0 <= k < kept.len() && longest_list(kept) == (#[trigger] kept[k]).len();
    assert(is_drawable_member(lists, kept[k]));
    let i = choose|i: int| 0 <= i < lists.len() && lists[i].len() >= 2 && lists[i] == kept[k];
    assert(lists[i].len() >= 2 && p.max_segments_in_strand == lists[i].len());
}

/// `m` is the record of one of `strands` with two or more vertices.
spec fn is_cache_member(strands: Seq<StrandCacheStrand>, m: StrandMeta) -> bool {
    exists|i: int|
        0 <= i < strands.len() && strands[i].count >= 2 && StrandMeta::spec_of(strands[i].count, strands[i].offset) == m
}

/// The cache strands kept are those of two or more vertices, each with its
/// own count and offset.
proof fn lemma_cache_metas_members(strands: Seq<StrandCacheStrand>)
    ensures
        forall|k: int|
            0 <= k < cache_strand_metas(strands).len() ==> is_cache_member(strands, #[trigger] cache_strand_metas(strands)[k]),
        forall|i: int| 0 <= i < strands.len() && (#[trigger] strands[i]).count >= 2 ==> cache_strand_metas(
            strands,
        ).contains(StrandMeta::spec_of(strands[i].count, strands[i].offset)),
    decreases strands.len(),
{
    if strands.len() > 0 {
        let rest = strands.drop_last();
        lemma_cache_metas_members(rest);
        let kept = cache_strand_metas(rest);
        let n = strands.len() - 1;
        assert(strands.last() == strands[n]);
        assert forall|k: int| 0 <= k < cache_strand_metas(strands).len() implies is_cache_member(
            strands,
            #[trigger] cache_strand_metas(strands)[k],
        ) by {
            if k < kept.len() {
                assert(cache_strand_metas(strands)[k] == kept[k]);
                assert(is_cache_member(rest, kept[k]));
                let i = choose|i: int|
                    0 <= i < rest.len() && rest[i].count >= 2 && StrandMeta::spec_of(rest[i].count, rest[i].offset)
                        == kept[k];
                assert(strands[i] == rest[i]);
            } else {
                assert(cache_strand_metas(strands)[k] == StrandMeta::spec_of(strands[n].count, strands[n].offset));
                assert(strands[n].count >= 2);
            }
        }
        assert forall|i: int| 0 <= i < strands.len() && (#[trigger] strands[i]).count >= 2 implies cache_strand_metas(
            strands,
        ).contains(StrandMeta::spec_of(strands[i].count, strands[i].offset)) by {
            let m = StrandMeta::spec_of(strands[i].count, strands[i].offset);
            if i < n {
                assert(rest[i] == strands[i]);
                assert(kept.contains(m));
                let k = choose|k: int| 0 <= k < kept.len() && kept[k] == m;
                assert(cache_strand_metas(strands)[k] == m);
            } else {
                let d = cache_strand_metas(strands);
                assert(d[d.len() - 1] == m);
            }
        }
    }
}

/// The largest count among meta records is at least each, and (for some
/// record at all) one of them.
proof fn lemma_longest_meta_is_max(metas: Seq<StrandMeta>)
    ensures
        forall|i: int| 0 <= i < metas.len() ==> longest_meta(metas) >= (#[trigger] metas[i]).count,
        metas.len() == 0 ==> longest_meta(metas) == 0,
        metas.len() > 0 ==> exists|i: int| 0 <= i < metas.len() && longest_meta(metas) == (#[trigger] metas[i]).count,
    decreases metas.len(),
{
    if metas.len() > 0 {
        let rest = metas.drop_last();
        lemma_longest_meta_is_max(rest);
        let n = metas.len() - 1;
        assert(metas.last() == metas[n]);
        assert forall|i: int| 0 <= i < metas.len() implies longest_meta(metas) >= (#[trigger] metas[i]).count by {
            if i < n {
                assert(rest[i] == metas[i]);
            }
        }
        if longest_meta(rest) < metas[n].count || rest.len() == 0 {
            assert(longest_meta(metas) == metas[n].count);
        } else {
            let i = choose|i: int| 0 <= i < rest.len() && longest_meta(rest) == (#[trigger] rest[i]).count;
            assert(rest[i] == metas[i]);
        }
    }
}

/// A cache packed from its ranges records its longest strand: at least the
/// count of every strand of two or more vertices, and exactly one of them
/// (none kept: 0).
pub proof fn lemma_cache_max_is_longest_strand(strands: Seq<StrandCacheStrand>)
    ensures
        forall|i: int|
            0 <= i < strands.len() && (#[trigger] strands[i]).count >= 2 ==> longest_meta(cache_strand_metas(strands))
                >= strands[i].count,
        cache_strand_metas(strands).len() > 0 ==> exists|i: int|
            0 <= i < strands.len() && (#[trigger] strands[i]).count >= 2 && longest_meta(cache_strand_metas(strands))
                == strands[i].count,
        cache_strand_metas(strands).len() == 0 <==> forall|i: int| 0 <= i < strands.len() ==> (#[trigger] strands[i]).count < 2,
{
    let metas = cache_strand_metas(strands);
    lemma_cache_metas_members(strands);
    lemma_longest_meta_is_max(metas);
    assert forall|i: int| 0 <= i < strands.len() && (#[trigger] strands[i]).count >= 2 implies longest_meta(metas)
        >= strands[i].count by {
        let m = StrandMeta::spec_of(strands[i].count, strands[i].offset);
        assert(metas.contains(m));
        let k = choose|k: int| 0 <= k < metas.len() && metas[k] == m;
        assert(longest_meta(metas) >= metas[k].count);
    }
    if metas.len() > 0 {
        let k = choose|k: int| 0 <= k < metas.len() && longest_meta(metas) == (#[trigger] metas[k]).count;
        assert(is_cache_member(strands, metas[k]));
        let i = choose|i: int|
            0 <= i < strands.len() && strands[i].count >= 2 && StrandMeta::spec_of(strands[i].count, strands[i].offset)
                == metas[k];
        assert(strands[i].count >= 2 && longest_meta(metas) == strands[i].count);
    } else {
        assert forall|i: int| 0 <= i < strands.len() implies (#[trigger] strands[i]).count < 2 by {
            if strands[i].count >= 2 {
                assert(metas.contains(StrandMeta::spec_of(strands[i].count, strands[i].offset)));
            }
        }
    }
    if forall|i: int| 0 <= i < strands.len() ==> (#[trigger] strands[i]).count < 2 {
        if metas.len() > 0 {
            assert(is_cache_member(strands, metas[0]));
            let j = choose|i: int|
                0 <= i < strands.len() && strands[i].count >= 2 && StrandMeta::spec_of(strands[i].count, strands[i].offset)
                    == metas[0];
            assert(strands[j].count < 2);
        }
    }
}

} // verus!
