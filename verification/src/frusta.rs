//! Numbering of the frusta (camera views and shadow lights) of a frame.
//! Frusta are ordered by entity index: a frustum's id is the number of
//! frusta with a smaller index, and a light's layer is the number of
//! lights with a smaller index.
use vstd::prelude::*;
use crate::passes::ShadowStampTarget;
use crate::capacity::{build_frustum_table, frustum_bases, frustum_desc, is_frustum_table, FrustumInput, FrustumTable};

verus! {

/// How many of `keys` are below `k`.
pub open spec fn count_below(keys: Seq<u32>, k: u32) -> nat
    decreases keys.len(),
{
    if keys.len() == 0 {
        0
    } else {
        count_below(keys.drop_last(), k) + if keys.last() < k {
            1nat
        } else {
            0nat
        }
    }
}

/// The entity indices of `entries`.
pub open spec fn entity_keys(entries: Seq<FrustumEntry>) -> Seq<u32> {
    entries.map_values(|e: FrustumEntry| e.entity)
}

/// The entity indices of the lights among `entries`, in order.
pub open spec fn light_keys(entries: Seq<FrustumEntry>) -> Seq<u32>
    decreases entries.len(),
{
    if entries.len() == 0 {
        Seq::empty()
    } else {
        let rest = light_keys(entries.drop_last());
        if entries.last().is_light {
            rest.push(entries.last().entity)
        } else {
            rest
        }
    }
}

fn count_keys_below(keys: &[u32], k: u32) -> (n: usize)
    ensures
        n == count_below(keys@, k),
{
    let mut n: usize = 0;
    let mut j: usize = 0;
    while j < keys.len()
        invariant
            0 <= j <= keys@.len(),
            n == count_below(keys@.take(j as int), k),
            n <= j,
        decreases keys@.len() - j,
    {
        proof {
            assert(keys@.take(j + 1).drop_last() =~= keys@.take(j as int));
        }
        if keys[j] < k {
            n = n + 1;
        }
        j = j + 1;
    }
    proof {
        assert(keys@.take(keys@.len() as int) =~= keys@);
    }
    n
}

/// The frustum id of the view with entity index `view` among the frusta
/// with entity indices `frusta`: its place in entity-index order, if it is
/// one of them.
pub fn frustum_id_of(view: u32, frusta: &[u32]) -> (id: Option<u32>)
    requires
        frusta@.len() <= u32::MAX,
    ensures
        id == (if frusta@.contains(view) {
            Some(count_below(frusta@, view) as u32)
        } else {
            None
        }),
{
    let mut found = false;
    let mut j: usize = 0;
    while j < frusta.len()
        invariant
            0 <= j <= frusta@.len(),
            found == frusta@.take(j as int).contains(view),
        decreases frusta@.len() - j,
    {
        if frusta[j] == view {
            found = true;
        }
        proof {
            let s = frusta@.take(j as int);
            let t = frusta@.take(j + 1);
            assert(t =~= s.push(frusta@[j as int]));
            if frusta@[j as int] == view {
                assert(t[j as int] == view);
            }
            if s.contains(view) {
                let w = choose|w: int| 0 <= w < s.len() && s[w] == view;
                assert(t[w] == view);
            }
            if t.contains(view) && frusta@[j as int] != view {
                let w = choose|w: int| 0 <= w < t.len() && t[w] == view;
                assert(s[w] == view);
            }
        }
        j = j + 1;
    }
    proof {
        assert(frusta@.take(frusta@.len() as int) =~= frusta@);
    }
    if !found {
        return None;
    }
    let n = count_keys_below(frusta, view);
    proof {
        lemma_count_below_le(frusta@, view);
    }
    Some(n as u32)
}

proof fn lemma_count_below_le(keys: Seq<u32>, k: u32)
    ensures
        count_below(keys, k) <= keys.len(),
    decreases keys.len(),
{
    if keys.len() > 0 {
        lemma_count_below_le(keys.drop_last(), k);
    }
}

/// A frustum of the frame: its entity, whether it is a light (and
/// then whether the light casts shadow maps), the shadow cascade it
/// renders, and its two DOM surfaces (opacity, depth) if it has them.
#[derive(Clone, Copy, Debug, PartialEq, Eq)]
pub struct FrustumEntry {
    /// The entity's index, which orders the frusta.
    pub entity: u32,
    /// The entity itself (its bits), which identifies a light.
    pub entity_bits: u64,
    pub is_light: bool,
    pub shadow_maps_enabled: bool,
    pub cascade_index: u32,
    pub dom_surface_ids: Option<[u32; 2]>,
}

/// What the frame gives a frustum.
#[derive(Clone, Copy, Debug, PartialEq, Eq)]
pub struct FrustumLayer {
    pub frustum_id: u32,
    /// The layer of a light's shadow data; `None` for a camera.
    pub light_layer: Option<u32>,
    /// Whether the strands are stamped back into the light's shadow map.
    pub stamp: bool,
    /// The DOM surfaces, or `u32::MAX` twice without them.
    pub dom_surface_ids: [u32; 2],
}

/// The layer of `entries[i]`.
pub open spec fn frustum_layer(entries: Seq<FrustumEntry>, i: int) -> FrustumLayer {
    let e = entries[i];
    FrustumLayer {
        frustum_id: count_below(entity_keys(entries), e.entity) as u32,
        light_layer: if e.is_light {
            Some(count_below(light_keys(entries), e.entity) as u32)
        } else {
            None
        },
        stamp: e.is_light && e.shadow_maps_enabled,
        dom_surface_ids: match e.dom_surface_ids {
            Some(ids) => ids,
            None => [u32::MAX, u32::MAX],
        },
    }
}

proof fn lemma_light_keys_len(entries: Seq<FrustumEntry>)
    ensures
        light_keys(entries).len() <= entries.len(),
    decreases entries.len(),
{
    if entries.len() > 0 {
        lemma_light_keys_len(entries.drop_last());
    }
}

/// Numbers the frusta of the frame: the layer of each entry, in the order
/// given.
pub fn frustum_layers(entries: &[FrustumEntry]) -> (layers: Vec<FrustumLayer>)
    requires
        entries@.len() <= u32::MAX,
    ensures
        layers@.len() == entries@.len(),
        forall|i: int| 0 <= i < entries@.len() ==> #[trigger] layers@[i] == frustum_layer(entries@, i),
{
    let mut keys: Vec<u32> = Vec::new();
    let mut lights: Vec<u32> = Vec::new();
    let mut j: usize = 0;
    while j < entries.len()
        invariant
            0 <= j <= entries@.len(),
            keys@ == entity_keys(entries@.take(j as int)),
            lights@ == light_keys(entries@.take(j as int)),
        decreases entries@.len() - j,
    {
        proof {
            assert(entries@.take(j + 1).drop_last() =~= entries@.take(j as int));
            assert(entity_keys(entries@.take(j + 1)) =~= entity_keys(entries@.take(j as int)).push(
                entries@[j as int].entity,
            ));
        }
        keys.push(entries[j].entity);
        if entries[j].is_light {
            lights.push(entries[j].entity);
        }
        j = j + 1;
    }
    proof {
        assert(entries@.take(entries@.len() as int) =~= entries@);
        lemma_count_below_le(keys@, 0);
        lemma_light_keys_len(entries@);
    }
    let mut layers: Vec<FrustumLayer> = Vec::new();
    let mut i: usize = 0;
    while i < entries.len()
        invariant
            0 <= i <= entries@.len(),
            entries@.len() <= u32::MAX,
            keys@ == entity_keys(entries@),
            lights@ == light_keys(entries@),
            layers@.len() == i,
            forall|k: int| 0 <= k < i ==> #[trigger] layers@[k] == frustum_layer(entries@, k),
        decreases entries@.len() - i,
    {
        let e = entries[i];
        let id = count_keys_below(keys.as_slice(), e.entity);
        let light_layer = if e.is_light {
            let l = count_keys_below(lights.as_slice(), e.entity);
            Some(l as u32)
        } else {
            None
        };
        let dom_surface_ids = match e.dom_surface_ids {
            Some(ids) => ids,
            None => [u32::MAX, u32::MAX],
        };
        layers.push(
            FrustumLayer {
                frustum_id: id as u32,
                light_layer,
                stamp: e.is_light && e.shadow_maps_enabled,
                dom_surface_ids,
            },
        );
        i = i + 1;
    }
    layers
}

proof fn lemma_count_below_monotone(keys: Seq<u32>, a: u32, b: u32)
    requires
        a < b,
    ensures
        count_below(keys, b) >= count_below(keys, a) + if keys.contains(a) {
            1nat
        } else {
            0nat
        },
    decreases keys.len(),
{
    if keys.len() > 0 {
        let rest = keys.drop_last();
        lemma_count_below_monotone(rest, a, b);
        assert(keys =~= rest.push(keys.last()));
        if keys.contains(a) && !rest.contains(a) {
            let w = choose|w: int| 0 <= w < keys.len() && keys[w] == a;
            if w < rest.len() {
                assert(rest[w] == a);
            }
        }
        if rest.contains(a) {
            let w = choose|w: int| 0 <= w < rest.len() && rest[w] == a;
            assert(keys[w] == a);
        }
    }
}

/// Fewer keys than all of them are below a key that occurs.
pub proof fn lemma_count_below_lt_len(keys: Seq<u32>, k: u32)
    requires
        keys.contains(k),
    ensures
        count_below(keys, k) < keys.len(),
    decreases keys.len(),
{
    let rest = keys.drop_last();
    if keys.last() == k {
        lemma_count_below_le(rest, k);
    } else {
        let w = choose|w: int| 0 <= w < keys.len() && keys[w] == k;
        assert(rest[w] == k);
        lemma_count_below_lt_len(rest, k);
    }
}

/// Frusta of distinct entities get distinct ids, all below the number of
/// frusta.
pub proof fn lemma_frustum_ids_distinct(keys: Seq<u32>, a: u32, b: u32)
    requires
        keys.contains(a),
        keys.contains(b),
        a != b,
    ensures
        count_below(keys, a) != count_below(keys, b),
        count_below(keys, a) < keys.len(),
        count_below(keys, b) < keys.len(),
{
    lemma_count_below_lt_len(keys, a);
    lemma_count_below_lt_len(keys, b);
    if a < b {
        lemma_count_below_monotone(keys, a, b);
    } else {
        lemma_count_below_monotone(keys, b, a);
    }
}

/// The stamp target of `entries[i]`: its frustum, its light and its
/// cascade.
pub open spec fn stamp_target_of(entries: Seq<FrustumEntry>, i: int) -> ShadowStampTarget {
    ShadowStampTarget {
        frustum_id: count_below(entity_keys(entries), entries[i].entity) as u32,
        light_entity: entries[i].entity_bits,
        cascade_index: entries[i].cascade_index,
    }
}

/// What the frame keeps by frustum id.
#[derive(Clone, Debug)]
pub struct FrameFrusta {
    /// The layer of each entry, in the order given.
    pub layers: Vec<FrustumLayer>,
    /// The DOM surfaces of each frustum, by frustum id.
    pub dom_surface_ids: Vec<[u32; 2]>,
    /// The light layer of each frustum, by frustum id.
    pub light_layers: Vec<Option<u32>>,
    /// The shadow lights to stamp, by ascending frustum id.
    pub stamp_targets: Vec<ShadowStampTarget>,
}

/// `t` is the stamp target of an entry that stamps.
pub open spec fn stamps_some_entry(entries: Seq<FrustumEntry>, t: ShadowStampTarget) -> bool {
    exists|i: int|
        0 <= i < entries.len() && frustum_layer(entries, i).stamp && #[trigger] stamp_target_of(entries, i) == t
}

/// `targets` are the stamp targets of the entries that stamp, by strictly
/// ascending frustum id.
pub open spec fn is_stamp_list(entries: Seq<FrustumEntry>, targets: Seq<ShadowStampTarget>) -> bool {
    &&& forall|k: int| 0 <= k < targets.len() ==> stamps_some_entry(entries, #[trigger] targets[k])
    &&& forall|i: int|
        #![trigger frustum_layer(entries, i)]
        0 <= i < entries.len() && frustum_layer(entries, i).stamp ==> targets.contains(stamp_target_of(entries, i))
    &&& forall|j: int, k: int| 0 <= j < k < targets.len() ==> targets[j].frustum_id < targets[k].frustum_id
}

/// Lays the frame's frusta out by id: their DOM surfaces and light layers,
/// and the lights whose shadow maps get the strands stamped back.
pub fn frame_frusta(entries: &[FrustumEntry]) -> (frame: FrameFrusta)
    requires
        entries@.len() <= u32::MAX,
        distinct_keys(entity_keys(entries@)),
    ensures
        frame.layers@.len() == entries@.len(),
        forall|i: int| 0 <= i < entries@.len() ==> #[trigger] frame.layers@[i] == frustum_layer(entries@, i),
        frame.dom_surface_ids@.len() == entries@.len(),
        frame.light_layers@.len() == entries@.len(),
        forall|i: int|
            #![trigger frustum_layer(entries@, i)]
            0 <= i < entries@.len() ==> {
                let l = frustum_layer(entries@, i);
                &&& frame.dom_surface_ids@[l.frustum_id as int] == l.dom_surface_ids
                &&& frame.light_layers@[l.frustum_id as int] == l.light_layer
            },
        is_stamp_list(entries@, frame.stamp_targets@),
{
    let n = entries.len();
    let layers = frustum_layers(entries);
    let ghost keys = entity_keys(entries@);
    let mut dom: Vec<[u32; 2]> = Vec::new();
    let mut light_layers: Vec<Option<u32>> = Vec::new();
    let mut slots: Vec<Option<ShadowStampTarget>> = Vec::new();
    let mut k: usize = 0;
    while k < n
        invariant
            0 <= k <= n,
            n == entries@.len(),
            dom@.len() == k,
            light_layers@.len() == k,
            slots@.len() == k,
            forall|f: int| 0 <= f < k ==> slots@[f] is None,
        decreases n - k,
    {
        dom.push([u32::MAX, u32::MAX]);
        light_layers.push(None);
        slots.push(None);
        k = k + 1;
    }
    proof {
        assert forall|i: int| 0 <= i < n implies (#[trigger] keys[i]) == entries@[i].entity
            && count_below(keys, keys[i]) < n by {
            assert(keys.contains(keys[i]));
            lemma_count_below_lt_len(keys, keys[i]);
        }
    }
    let mut i: usize = 0;
    while i < n
        invariant
            0 <= i <= n,
            n == entries@.len(),
            n <= u32::MAX,
            keys == entity_keys(entries@),
            distinct_keys(keys),
            forall|j: int| 0 <= j < n ==> (#[trigger] keys[j]) == entries@[j].entity
                && count_below(keys, keys[j]) < n,
            layers@.len() == n,
            forall|j: int| 0 <= j < n ==> #[trigger] layers@[j] == frustum_layer(entries@, j),
            dom@.len() == n,
            light_layers@.len() == n,
            slots@.len() == n,
            forall|j: int|
                #![trigger frustum_layer(entries@, j)]
                0 <= j < i ==> {
                    let l = frustum_layer(entries@, j);
                    &&& dom@[l.frustum_id as int] == l.dom_surface_ids
                    &&& light_layers@[l.frustum_id as int] == l.light_layer
                    &&& slots@[l.frustum_id as int] == if l.stamp {
                        Some(stamp_target_of(entries@, j))
                    } else {
                        None
                    }
                },
            forall|f: int|
                #![trigger slots@[f]]
                0 <= f < n && slots@[f] is Some ==> exists|j: int|
                    0 <= j < i && frustum_layer(entries@, j).stamp && #[trigger] stamp_target_of(entries@, j)
                        == slots@[f]->0 && frustum_layer(entries@, j).frustum_id == f,
        decreases n - i,
    {
        let l = layers[i];
        let e = entries[i];
        let id = l.frustum_id as usize;
        proof {
            assert(layers@[i as int] == frustum_layer(entries@, i as int));
            assert(keys[i as int] == e.entity);
            assert(count_below(keys, e.entity) < n);
            assert forall|j: int| 0 <= j < i implies frustum_layer(entries@, j).frustum_id != l.frustum_id by {
                assert(keys[j] != keys[i as int]);
                assert(keys.contains(keys[j]));
                assert(keys.contains(keys[i as int]));
                lemma_frustum_ids_distinct(keys, keys[j], keys[i as int]);
                assert(count_below(keys, keys[j]) < n);
            }
        }
        let ghost dom_before = dom@;
        let ghost lights_before = light_layers@;
        let ghost slots_before = slots@;
        dom.set(id, l.dom_surface_ids);
        light_layers.set(id, l.light_layer);
        if l.stamp {
            slots.set(id, Some(ShadowStampTarget { frustum_id: l.frustum_id, light_entity: e.entity_bits, cascade_index: e.cascade_index }));
        }
        proof {
            let ghost target = stamp_target_of(entries@, i as int);
            assert forall|j: int|
                #![trigger frustum_layer(entries@, j)]
                0 <= j < i + 1 implies {
                    let lj = frustum_layer(entries@, j);
                    &&& dom@[lj.frustum_id as int] == lj.dom_surface_ids
                    &&& light_layers@[lj.frustum_id as int] == lj.light_layer
                    &&& slots@[lj.frustum_id as int] == if lj.stamp {
                        Some(stamp_target_of(entries@, j))
                    } else {
                        None
                    }
                } by {
                if j < i {
                    let lj = frustum_layer(entries@, j);
                    assert(keys[j] == entries@[j].entity);
                    assert(count_below(keys, keys[j]) < n);
                    assert(lj.frustum_id < n);
                    assert(lj.frustum_id != l.frustum_id);
                    assert(dom@[lj.frustum_id as int] == dom_before[lj.frustum_id as int]);
                    assert(light_layers@[lj.frustum_id as int] == lights_before[lj.frustum_id as int]);
                    assert(slots@[lj.frustum_id as int] == slots_before[lj.frustum_id as int]);
                } else {
                    assert(frustum_layer(entries@, j) == l);
                    assert(l.frustum_id as int == id as int);
                    if l.stamp {
                        assert(slots@[id as int] == Some(target));
                    } else {
                        assert(slots@[id as int] == slots_before[id as int]);
                        assert(frustum_layer(entries@, i as int).stamp == false);
                    }
                }
            }
            assert forall|f: int|
                #![trigger slots@[f]]
                0 <= f < n && slots@[f] is Some implies exists|j: int|
                    0 <= j < i + 1 && frustum_layer(entries@, j).stamp && #[trigger] stamp_target_of(entries@, j)
                        == slots@[f]->0 && frustum_layer(entries@, j).frustum_id == f by {
                if f == id && l.stamp {
                    assert(stamp_target_of(entries@, i as int) == slots@[f]->0);
                } else {
                    assert(slots@[f] == slots_before[f]);
                }
            }
        }
        i = i + 1;
    }
    proof {
        assert forall|j: int| 0 <= j < n implies #[trigger] frustum_layer(entries@, j).frustum_id < n by {
            assert(keys[j] == entries@[j].entity);
        }
    }
    let mut stamp_targets: Vec<ShadowStampTarget> = Vec::new();
    let mut f: usize = 0;
    while f < n
        invariant
            0 <= f <= n,
            n == entries@.len(),
            slots@.len() == n,
            forall|j: int| 0 <= j < n ==> #[trigger] frustum_layer(entries@, j).frustum_id < n,
            forall|k: int|
                #![trigger stamp_targets@[k]]
                0 <= k < stamp_targets@.len() ==> exists|g: int|
                    0 <= g < f && slots@[g] == Some(stamp_targets@[k]) && stamp_targets@[k].frustum_id == g,
            forall|g: int| 0 <= g < f && #[trigger] slots@[g] is Some ==> stamp_targets@.contains(slots@[g]->0),
            forall|j: int, k: int|
                0 <= j < k < stamp_targets@.len() ==> stamp_targets@[j].frustum_id < stamp_targets@[k].frustum_id,
            forall|k: int| 0 <= k < stamp_targets@.len() ==> (#[trigger] stamp_targets@[k]).frustum_id < f,
            forall|j: int|
                #![trigger frustum_layer(entries@, j)]
                0 <= j < n ==> {
                    let l = frustum_layer(entries@, j);
                    slots@[l.frustum_id as int] == if l.stamp {
                        Some(stamp_target_of(entries@, j))
                    } else {
                        None
                    }
                },
            forall|g: int|
                #![trigger slots@[g]]
                0 <= g < n && slots@[g] is Some ==> exists|j: int|
                    0 <= j < n && frustum_layer(entries@, j).stamp && #[trigger] stamp_target_of(entries@, j)
                        == slots@[g]->0 && frustum_layer(entries@, j).frustum_id == g,
        decreases n - f,
    {
        match slots[f] {
            Some(t) => {
                let ghost before = stamp_targets@;
                stamp_targets.push(t);
                proof {
                    let last = (stamp_targets@.len() - 1) as int;
                    assert(stamp_targets@[last] == t);
                    assert(slots@[f as int] == Some(t));
                    assert forall|g: int| 0 <= g < f + 1 && #[trigger] slots@[g] is Some implies stamp_targets@.contains(
                        slots@[g]->0,
                    ) by {
                        if g == f {
                            assert(stamp_targets@[last] == slots@[g]->0);
                        } else {
                            assert(before.contains(slots@[g]->0));
                            let k = choose|k: int| 0 <= k < before.len() && before[k] == slots@[g]->0;
                            assert(stamp_targets@[k] == before[k]);
                        }
                    }
                    assert forall|k: int| 0 <= k < stamp_targets@.len() implies exists|g: int|
                        0 <= g < f + 1 && slots@[g] == Some(#[trigger] stamp_targets@[k])
                            && stamp_targets@[k].frustum_id == g by {
                        if k == last {
                            let j = choose|j: int|
                                0 <= j < n && frustum_layer(entries@, j).stamp && #[trigger] stamp_target_of(
                                    entries@,
                                    j,
                                ) == slots@[f as int]->0 && frustum_layer(entries@, j).frustum_id == f;
                            assert(stamp_targets@[k].frustum_id == f);
                        } else {
                            assert(stamp_targets@[k] == before[k]);
                        }
                    }
                }
            },
            None => {},
        }
        f = f + 1;
    }
    proof {
        assert forall|k: int| 0 <= k < stamp_targets@.len() implies stamps_some_entry(
            entries@,
            #[trigger] stamp_targets@[k],
        ) by {
            let g = choose|g: int| 0 <= g < n && slots@[g] == Some(stamp_targets@[k]) && stamp_targets@[k].frustum_id == g;
            assert(slots@[g] is Some);
            let j = choose|j: int|
                0 <= j < n && frustum_layer(entries@, j).stamp && #[trigger] stamp_target_of(entries@, j)
                    == slots@[g]->0 && frustum_layer(entries@, j).frustum_id == g;
            assert(stamp_target_of(entries@, j) == stamp_targets@[k]);
        }
        assert forall|i: int|
            #![trigger frustum_layer(entries@, i)]
            0 <= i < entries@.len() && frustum_layer(entries@, i).stamp implies stamp_targets@.contains(
                stamp_target_of(entries@, i),
            ) by {
            let g = frustum_layer(entries@, i).frustum_id as int;
            assert(slots@[g] == Some(stamp_target_of(entries@, i)));
        }
    }
    FrameFrusta { layers, dom_surface_ids: dom, light_layers, stamp_targets }
}

/// The rank of key `keys[i]`: its frustum id.
pub open spec fn rank_of(keys: Seq<u32>, i: int) -> int {
    count_below(keys, keys[i]) as int
}

/// Some key has rank `r`: `r` is some frustum's id.
pub open spec fn some_key_has_rank(keys: Seq<u32>, r: int) -> bool {
    exists|i: int| 0 <= i < keys.len() && #[trigger] rank_of(keys, i) == r
}

/// Among distinct keys the ranks run over `0..keys.len()`: each is some
/// key's.
pub proof fn lemma_ranks_onto(keys: Seq<u32>)
    requires
        distinct_keys(keys),
    ensures
        forall|r: int| 0 <= r < keys.len() ==> #[trigger] some_key_has_rank(keys, r),
{
    let n = keys.len() as int;
    let x = vstd::set_lib::set_int_range(0, n);
    let f = |i: int| rank_of(keys, i);
    let y = x.map(f);
    vstd::set_lib::lemma_int_range(0, n);
    assert(vstd::relations::injective_on(f, x)) by {
        assert forall|a: int, b: int| x.contains(a) && x.contains(b) && #[trigger] f(a) == #[trigger] f(b) implies a == b by {
            if a != b {
                assert(keys.contains(keys[a]));
                assert(keys.contains(keys[b]));
                lemma_frustum_ids_distinct(keys, keys[a], keys[b]);
            }
        }
    }
    vstd::set_lib::lemma_map_size(x, y, f);
    assert(y.subset_of(x)) by {
        assert forall|r: int| y.contains(r) implies x.contains(r) by {
            let i = choose|i: int| x.contains(i) && f(i) == r;
            assert(keys.contains(keys[i]));
            lemma_count_below_lt_len(keys, keys[i]);
        }
    }
    vstd::set_lib::lemma_subset_equality(y, x);
    assert forall|r: int| 0 <= r < keys.len() implies #[trigger] some_key_has_rank(keys, r) by {
        assert(x.contains(r));
        assert(y.contains(r));
        let i = choose|i: int| x.contains(i) && f(i) == r;
        assert(0 <= i < keys.len() && rank_of(keys, i) == r);
    }
}

/// A smaller key has a smaller rank, and every rank is below the number
/// of keys.
pub proof fn lemma_rank_order(keys: Seq<u32>, i: int, j: int)
    requires
        0 <= i < keys.len(),
        0 <= j < keys.len(),
        keys[i] < keys[j],
    ensures
        rank_of(keys, i) < rank_of(keys, j) < keys.len(),
{
    assert(keys.contains(keys[i]));
    assert(keys.contains(keys[j]));
    lemma_count_below_monotone(keys, keys[i], keys[j]);
    lemma_count_below_lt_len(keys, keys[j]);
}

/// Puts `items[i]` at the rank of `keys[i]` among the keys: the items
/// ordered by key (for frusta, by entity index: their ids). Every rank is
/// some item's.
pub fn order_by_rank<T: Copy>(keys: &[u32], items: &[T]) -> (ordered: Vec<T>)
    requires
        keys@.len() == items@.len(),
        distinct_keys(keys@),
    ensures
        ordered@.len() == items@.len(),
        forall|i: int| 0 <= i < items@.len() ==> ordered@[#[trigger] rank_of(keys@, i)] == items@[i],
        forall|r: int| 0 <= r < items@.len() ==> #[trigger] some_key_has_rank(keys@, r),
{
    let n = items.len();
    let mut ordered: Vec<T> = Vec::new();
    proof {
        lemma_ranks_onto(keys@);
    }
    if n == 0 {
        return ordered;
    }
    let mut k: usize = 0;
    while k < n
        invariant
            0 <= k <= n,
            n == items@.len(),
            ordered@.len() == k,
        decreases n - k,
    {
        ordered.push(items[0]);
        k = k + 1;
    }
    proof {
        assert forall|j: int| 0 <= j < n implies rank_of(keys@, j) < n by {
            assert(keys@.contains(keys@[j]));
            lemma_count_below_lt_len(keys@, keys@[j]);
        }
    }
    let mut i: usize = 0;
    while i < n
        invariant
            0 <= i <= n,
            n == items@.len(),
            n == keys@.len(),
            distinct_keys(keys@),
            ordered@.len() == n,
            forall|j: int| 0 <= j < n ==> #[trigger] rank_of(keys@, j) < n,
            forall|j: int| 0 <= j < i ==> ordered@[#[trigger] rank_of(keys@, j)] == items@[j],
        decreases n - i,
    {
        let id = count_keys_below(keys, keys[i]);
        proof {
            assert(rank_of(keys@, i as int) < n);
            assert forall|j: int| 0 <= j < i implies rank_of(keys@, j) != rank_of(keys@, i as int) by {
                assert(keys@[j] != keys@[i as int]);
                assert(keys@.contains(keys@[j]));
                assert(keys@.contains(keys@[i as int]));
                lemma_frustum_ids_distinct(keys@, keys@[j], keys@[i as int]);
            }
        }
        let ghost before = ordered@;
        ordered.set(id, items[i]);
        proof {
            let r = rank_of(keys@, i as int);
            assert forall|j: int| 0 <= j < i + 1 implies ordered@[#[trigger] rank_of(keys@, j)] == items@[j] by {
                if j < i {
                    assert(rank_of(keys@, j) != r);
                    assert(ordered@[rank_of(keys@, j)] == before[rank_of(keys@, j)]);
                }
            }
        }
        i = i + 1;
    }
    ordered
}

/// Lays out the frustum table with each frustum at its id: the row of id
/// `rank_of(keys, i)` is `frusta[i]`'s, with the ranges after those of the
/// frusta of lower ids (a placeholder row when there is none).
pub fn build_frustum_table_by_id(keys: &[u32], frusta: &[FrustumInput]) -> (r: (Vec<FrustumInput>, FrustumTable))
    requires
        keys@.len() == frusta@.len(),
        distinct_keys(keys@),
        forall|i: int| 0 <= i < frusta@.len() ==> (#[trigger] frusta@[i]).config.counts_fit(),
    ensures
        r.0@.len() == frusta@.len(),
        forall|i: int| 0 <= i < frusta@.len() ==> r.0@[#[trigger] rank_of(keys@, i)] == frusta@[i],
        is_frustum_table(r.0@, r.1),
        forall|i: int|
            0 <= i < frusta@.len() ==> r.1.descs@[#[trigger] rank_of(keys@, i)] == frustum_desc(
                frusta@[i],
                frustum_bases(r.0@.take(rank_of(keys@, i))),
            ),
{
    let ordered = order_by_rank(keys, frusta);
    proof {
        assert forall|r: int| 0 <= r < ordered@.len() implies (#[trigger] ordered@[r]).config.counts_fit() by {
            assert(some_key_has_rank(keys@, r));
            let i = choose|i: int| 0 <= i < keys@.len() && #[trigger] rank_of(keys@, i) == r;
            assert(ordered@[rank_of(keys@, i)] == frusta@[i]);
        }
        assert forall|i: int| 0 <= i < frusta@.len() implies rank_of(keys@, i) < frusta@.len() by {
            assert(keys@.contains(keys@[i]));
            lemma_count_below_lt_len(keys@, keys@[i]);
        }
    }
    let table = build_frustum_table(ordered.as_slice());
    proof {
        assert forall|i: int| 0 <= i < frusta@.len() implies table.descs@[#[trigger] rank_of(keys@, i)]
            == frustum_desc(frusta@[i], frustum_bases(ordered@.take(rank_of(keys@, i)))) by {
            let r = rank_of(keys@, i);
            assert(ordered@[r] == frusta@[i]);
            assert(table.descs@[r] == frustum_desc(ordered@[r], frustum_bases(ordered@.take(r))));
        }
    }
    (ordered, table)
}

/// No entity index occurs twice.
pub open spec fn distinct_keys(keys: Seq<u32>) -> bool {
    forall|i: int, j: int| 0 <= i < j < keys.len() ==> keys[i] != keys[j]
}

/// The shadow lights in layer order: the light of layer `l` is the one
/// with `l` lights of smaller entity index.
pub fn lights_by_layer(lights: &[u32]) -> (by_layer: Vec<u32>)
    requires
        distinct_keys(lights@),
    ensures
        by_layer@.len() == lights@.len(),
        forall|i: int|
            0 <= i < lights@.len() ==> by_layer@[count_below(lights@, #[trigger] lights@[i]) as int]
                == lights@[i],
{
    let n = lights.len();
    let mut by_layer: Vec<u32> = Vec::new();
    let mut k: usize = 0;
    while k < n
        invariant
            0 <= k <= n,
            n == lights@.len(),
            by_layer@.len() == k,
        decreases n - k,
    {
        by_layer.push(0);
        k = k + 1;
    }
    let mut i: usize = 0;
    while i < n
        invariant
            0 <= i <= n,
            n == lights@.len(),
            distinct_keys(lights@),
            by_layer@.len() == n,
            forall|j: int|
                0 <= j < i ==> by_layer@[count_below(lights@, #[trigger] lights@[j]) as int]
                    == lights@[j],
        decreases n - i,
    {
        let l = lights[i];
        let layer = count_keys_below(lights, l);
        proof {
            assert(lights@.contains(l)) by {
                assert(lights@[i as int] == l);
            }
            lemma_count_below_lt_len(lights@, l);
        }
        let ghost before = by_layer@;
        by_layer.set(layer, l);
        proof {
            assert forall|j: int| 0 <= j < i + 1 implies by_layer@[count_below(
                lights@,
                #[trigger] lights@[j],
            ) as int] == lights@[j] by {
                if j < i {
                    assert(lights@[j] != lights@[i as int]);
                    assert(lights@.contains(lights@[j]));
                    lemma_frustum_ids_distinct(lights@, lights@[j], l);
                    assert(before[count_below(lights@, lights@[j]) as int] == lights@[j]);
                }
            }
        }
        i = i + 1;
    }
    by_layer
}

/// The entities of `proxied` that are not in `live`, in order.
pub open spec fn stale(proxied: Seq<u64>, live: Seq<u64>) -> Seq<u64>
    decreases proxied.len(),
{
    if proxied.len() == 0 {
        Seq::empty()
    } else {
        let rest = stale(proxied.drop_last(), live);
        if live.contains(proxied.last()) {
            rest
        } else {
            rest.push(proxied.last())
        }
    }
}

fn contains_entity(live: &[u64], e: u64) -> (found: bool)
    ensures
        found == live@.contains(e),
{
    let mut j: usize = 0;
    while j < live.len()
        invariant
            0 <= j <= live@.len(),
            forall|k: int| 0 <= k < j ==> live@[k] != e,
        decreases live@.len() - j,
    {
        if live[j] == e {
            proof {
                assert(live@[j as int] == e);
            }
            return true;
        }
        j = j + 1;
    }
    false
}

/// The lights (by entity bits) whose deep-opacity-map surfaces outlived
/// them: those of `proxied` that are not among the `live` lights.
pub fn stale_entities(proxied: &[u64], live: &[u64]) -> (gone: Vec<u64>)
    ensures
        gone@ == stale(proxied@, live@),
{
    let mut gone: Vec<u64> = Vec::new();
    let mut i: usize = 0;
    while i < proxied.len()
        invariant
            0 <= i <= proxied@.len(),
            gone@ == stale(proxied@.take(i as int), live@),
        decreases proxied@.len() - i,
    {
        proof {
            assert(proxied@.take(i + 1).drop_last() =~= proxied@.take(i as int));
        }
        let e = proxied[i];
        if !contains_entity(live, e) {
            gone.push(e);
        }
        i = i + 1;
    }
    proof {
        assert(proxied@.take(proxied@.len() as int) =~= proxied@);
    }
    gone
}

} // verus!
