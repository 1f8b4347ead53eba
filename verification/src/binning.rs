//! The dispatch plan of the tile-binning pass: count segments per froxel,
//! scan the counts hierarchically into offsets, then place the segments.
use vstd::prelude::*;
use crate::froxel::FroxelConfig;
use crate::math::{div_ceil, div_ceil_u32};

verus! {

/// Threads per workgroup of the scan passes.
pub const SCAN_THREADS_PER_WORKGROUP: u32 = 256;

/// Threads per workgroup of the count and place passes (one per strand or
/// segment).
pub const SEGMENT_WORKGROUP_SIZE: u32 = 64;

/// Threads per workgroup of the pass that initialises placement indices
/// (one per froxel).
pub const PLACEMENT_WORKGROUP_SIZE: u32 = 256;

/// One round of the hierarchical scan: the blocks of `load_base..save_base`
/// are reduced into `workgroups` sums written from `save_base` on.
#[derive(Clone, Copy, Debug, PartialEq, Eq)]
pub struct ScanRound {
    pub load_base: u32,
    pub save_base: u32,
    pub workgroups: u32,
}

/// The reduction rounds of a scan over `load..save`: while the span is
/// wider than one workgroup, reduce it into one sum per workgroup, written
/// right after it.
pub open spec fn scan_rounds(load: int, save: int) -> Seq<ScanRound>
    decreases save - load,
    when load <= save
{
    if save - load > SCAN_THREADS_PER_WORKGROUP {
        let wg = div_ceil(save - load, SCAN_THREADS_PER_WORKGROUP as int);
        seq![ScanRound { load_base: load as u32, save_base: save as u32, workgroups: wg as u32 }]
            + scan_rounds(save, save + wg)
    } else {
        Seq::empty()
    }
}

/// Where the reduction ends: the span that one workgroup scans.
pub open spec fn scan_last(load: int, save: int) -> (int, int)
    decreases save - load,
    when load <= save
{
    if save - load > SCAN_THREADS_PER_WORKGROUP {
        let wg = div_ceil(save - load, SCAN_THREADS_PER_WORKGROUP as int);
        scan_last(save, save + wg)
    } else {
        (load, save)
    }
}

/// The rounds of the prefix pass: the reduction rounds last to first, each
/// reading its sums and writing back into its blocks.
pub open spec fn prefix_rounds(rounds: Seq<ScanRound>) -> Seq<ScanRound> {
    Seq::new(
        rounds.len(),
        |i: int|
            {
                let r = rounds[rounds.len() - 1 - i];
                ScanRound { load_base: r.save_base, save_base: r.load_base, workgroups: r.workgroups }
            },
    )
}

/// The dispatch plan of one binning pass.
#[derive(Clone, Debug)]
pub struct BinningPassPlan {
    /// Froxels of the grid.
    pub num_tiles: u32,
    /// Workgroups of the count and of the place pass.
    pub segment_workgroups: u32,
    /// Byte offset of the total count, right after the per-froxel counts.
    pub total_count_offset: u32,
    pub sum_rounds: Vec<ScanRound>,
    pub last_load_base: u32,
    pub last_save_base: u32,
    pub prefix_rounds: Vec<ScanRound>,
    /// Workgroups of the pass that initialises placement indices.
    pub init_workgroups: u32,
}

proof fn lemma_round_shrinks(span: int)
    requires
        span > SCAN_THREADS_PER_WORKGROUP,
    ensures
        0 < div_ceil(span, SCAN_THREADS_PER_WORKGROUP as int),
        2 * div_ceil(span, SCAN_THREADS_PER_WORKGROUP as int) <= span,
{
}

proof fn lemma_scan_step(load: int, save: int)
    requires
        load <= save,
        save - load > SCAN_THREADS_PER_WORKGROUP,
    ensures
        ({
            let wg = div_ceil(save - load, SCAN_THREADS_PER_WORKGROUP as int);
            &&& scan_rounds(load, save) == seq![
                ScanRound { load_base: load as u32, save_base: save as u32, workgroups: wg as u32 },
            ] + scan_rounds(save, save + wg)
            &&& scan_last(load, save) == scan_last(save, save + wg)
        }),
{
}

/// Plans the count, scan and place dispatches of a binning pass over the
/// froxels of `config` for `num_strands_or_segments` work items.
pub fn plan_binning_pass(config: &FroxelConfig, num_strands_or_segments: u32) -> (plan: BinningPassPlan)
    requires
        config.counts_fit(),
        config.spec_tiles_x() * config.spec_tiles_y() * config.depth_slices * 4 <= u32::MAX,
        num_strands_or_segments + SEGMENT_WORKGROUP_SIZE <= u32::MAX,
    ensures
        ({
            let n = config.spec_tiles_x() * config.spec_tiles_y() * config.depth_slices;
            &&& plan.num_tiles == n
            &&& plan.segment_workgroups == div_ceil(
                num_strands_or_segments as int,
                SEGMENT_WORKGROUP_SIZE as int,
            )
            &&& plan.total_count_offset == n * 4
            &&& plan.sum_rounds@ == scan_rounds(0, n)
            &&& (plan.last_load_base as int, plan.last_save_base as int) == scan_last(0, n)
            &&& plan.prefix_rounds@ == prefix_rounds(plan.sum_rounds@)
            &&& plan.init_workgroups == div_ceil(n, PLACEMENT_WORKGROUP_SIZE as int)
        }),
{
    let (_tiles_x, _tiles_y, num_tiles) = config.get_num_tiles();
    let ghost n = num_tiles as int;
    let segment_workgroups = (num_strands_or_segments + SEGMENT_WORKGROUP_SIZE - 1) / SEGMENT_WORKGROUP_SIZE;
    let total_count_offset = num_tiles * 4;

    let mut load_base: u32 = 0;
    let mut save_base: u32 = num_tiles;
    let mut rounds: Vec<ScanRound> = Vec::new();
    while save_base - load_base > SCAN_THREADS_PER_WORKGROUP
        invariant
            n == num_tiles,
            n * 4 <= u32::MAX,
            load_base <= save_base,
            save_base + (save_base - load_base) <= 2 * n,
            rounds@ + scan_rounds(load_base as int, save_base as int) == scan_rounds(0, n),
            scan_last(load_base as int, save_base as int) == scan_last(0, n),
        decreases save_base - load_base,
    {
        let span = save_base - load_base;
        let number_of_workgroups = div_ceil_u32(span, SCAN_THREADS_PER_WORKGROUP);
        proof {
            lemma_round_shrinks(span as int);
            lemma_scan_step(load_base as int, save_base as int);
        }
        let ghost before = rounds@;
        rounds.push(ScanRound { load_base, save_base, workgroups: number_of_workgroups });
        proof {
            let tail = scan_rounds(save_base as int, save_base + number_of_workgroups);
            assert(rounds@ + tail =~= before + (seq![
                ScanRound { load_base, save_base, workgroups: number_of_workgroups },
            ] + tail));
        }
        load_base = save_base;
        save_base = save_base + number_of_workgroups;
    }
    proof {
        assert(rounds@ =~= rounds@ + scan_rounds(load_base as int, save_base as int));
    }

    let mut prefix: Vec<ScanRound> = Vec::new();
    let mut k: usize = rounds.len();
    while k > 0
        invariant
            0 <= k <= rounds@.len(),
            prefix@.len() == rounds@.len() - k,
            forall|i: int|
                0 <= i < prefix@.len() ==> #[trigger] prefix@[i] == prefix_rounds(rounds@)[i],
        decreases k,
    {
        k = k - 1;
        let r = rounds[k];
        prefix.push(ScanRound { load_base: r.save_base, save_base: r.load_base, workgroups: r.workgroups });
    }
    proof {
        assert(prefix@ =~= prefix_rounds(rounds@));
    }

    let init_workgroups = (num_tiles + PLACEMENT_WORKGROUP_SIZE - 1) / PLACEMENT_WORKGROUP_SIZE;
    BinningPassPlan {
        num_tiles,
        segment_workgroups,
        total_count_offset,
        sum_rounds: rounds,
        last_load_base: load_base,
        last_save_base: save_base,
        prefix_rounds: prefix,
        init_workgroups,
    }
}

/// The rounds and the end of a scan chain from one to the next.
pub open spec fn scan_chains(load: int, save: int) -> bool {
    let r = scan_rounds(load, save);
    let l = scan_last(load, save);
    &&& l.0 <= l.1
    &&& l.1 - l.0 <= SCAN_THREADS_PER_WORKGROUP
    &&& r.len() == 0 ==> l == (load, save)
    &&& r.len() > 0 ==> r[0].load_base == load && r[0].save_base == save
    &&& r.len() > 0 ==> l == (r.last().save_base as int, r.last().save_base + r.last().workgroups)
    &&& forall|i: int|
        0 <= i < r.len() - 1 ==> #[trigger] r[i + 1].load_base == r[i].save_base && r[i + 1].save_base
            == r[i].save_base + r[i].workgroups
    &&& forall|i: int|
        0 <= i < r.len() ==> #[trigger] r[i].save_base - r[i].load_base > SCAN_THREADS_PER_WORKGROUP
            && r[i].workgroups == div_ceil(
            r[i].save_base - r[i].load_base,
            SCAN_THREADS_PER_WORKGROUP as int,
        )
}

proof fn lemma_scan_chains_from(load: int, save: int)
    requires
        0 <= load <= save,
        save + (save - load) <= u32::MAX,
    ensures
        scan_chains(load, save),
    decreases save - load,
{
    if save - load > SCAN_THREADS_PER_WORKGROUP {
        let wg = div_ceil(save - load, SCAN_THREADS_PER_WORKGROUP as int);
        lemma_round_shrinks(save - load);
        lemma_scan_step(load, save);
        lemma_scan_chains_from(save, save + wg);
        let head = ScanRound { load_base: load as u32, save_base: save as u32, workgroups: wg as u32 };
        let rest = scan_rounds(save, save + wg);
        let r = scan_rounds(load, save);
        assert(r =~= seq![head] + rest);
        assert forall|i: int| 0 <= i < r.len() - 1 implies #[trigger] r[i + 1].load_base == r[i].save_base
            && r[i + 1].save_base == r[i].save_base + r[i].workgroups by {
            if i > 0 {
                let j = i - 1;
                assert(r[i] == rest[j]);
                assert(r[i + 1] == rest[j + 1]);
                assert(rest[j + 1].load_base == rest[j].save_base);
            } else {
                assert(r[0] == head);
                assert(r[1] == rest[0]);
                assert(head.save_base == save);
                assert(head.workgroups == wg);
            }
        }
        assert forall|i: int| 0 <= i < r.len() implies #[trigger] r[i].save_base - r[i].load_base
            > SCAN_THREADS_PER_WORKGROUP && r[i].workgroups == div_ceil(
            r[i].save_base - r[i].load_base,
            SCAN_THREADS_PER_WORKGROUP as int,
        ) by {
            if i > 0 {
                assert(r[i] == rest[i - 1]);
            }
        }
        if rest.len() > 0 {
            assert(r.last() == rest.last());
        }
    }
}

/// The scan over `n` counts is a chain: the first round reduces `0..n`,
/// each next round reduces the sums the last one wrote, every round spans
/// more than one workgroup and dispatches one workgroup per block of it,
/// and what is left for the single last workgroup spans at most one block.
pub proof fn lemma_scan_rounds_chain(n: u32)
    requires
        n * 2 <= u32::MAX,
    ensures
        scan_chains(0, n as int),
{
    lemma_scan_chains_from(0, n as int);
}

} // verus!
