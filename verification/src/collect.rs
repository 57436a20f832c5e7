//! Regrouping of per-frame snapshots into per-object-index ordered sample
//! sequences.
//!
//! Every frame holds the same fixed-length list of object snapshots (an
//! unchecked assumption of the stream format, stated here as
//! `frames_equal_len`).  For each object index, the collector gathers that
//! index's samples across all frames in ascending frame order, dropping
//! unsupported variants; indices left with no supported sample are omitted
//! from the result entirely.

use vstd::prelude::*;
use crate::types::{AnmStrmEntry, AnmStrmFrame, Entry, is_supported};

verus! {

/// Spec-level image of a frame list.
pub open spec fn frames_seq_view(fs: Seq<AnmStrmFrame>) -> Seq<Seq<AnmStrmEntry>> {
    Seq::new(fs.len(), |i: int| fs[i]@)
}

/// All frames expose the same number of object snapshots.
pub open spec fn frames_equal_len(fv: Seq<Seq<AnmStrmEntry>>) -> bool {
    forall|i: int| 0 <= i < fv.len() ==> (#[trigger] fv[i]).len() == fv[0].len()
}

/// The supported samples of object index `j`, in ascending frame order.
pub open spec fn supported_samples(fv: Seq<Seq<AnmStrmEntry>>, j: int) -> Seq<AnmStrmEntry>
    decreases fv.len(),
{
    if fv.len() == 0 {
        Seq::empty()
    } else {
        let prefix = supported_samples(fv.drop_last(), j);
        let e = fv.last()[j];
        if is_supported(e.entry_data) {
            prefix.push(e)
        } else {
            prefix
        }
    }
}

/// The per-index sample groups of indices below `m`, keyed by index,
/// ascending, with empty groups omitted.
pub open spec fn sample_groups_below(fv: Seq<Seq<AnmStrmEntry>>, m: int) -> Seq<
    (u16, Seq<AnmStrmEntry>),
>
    decreases m,
{
    if m <= 0 {
        Seq::empty()
    } else {
        let prefix = sample_groups_below(fv, m - 1);
        if supported_samples(fv, m - 1).len() > 0 {
            prefix.push(((m - 1) as u16, supported_samples(fv, m - 1)))
        } else {
            prefix
        }
    }
}

/// The per-index sample groups of a frame list: one group per object index
/// that has at least one supported sample.
pub open spec fn sample_groups(fv: Seq<Seq<AnmStrmEntry>>) -> Seq<(u16, Seq<AnmStrmEntry>)> {
    if fv.len() == 0 {
        Seq::empty()
    } else {
        sample_groups_below(fv, fv[0].len() as int)
    }
}

/// Spec-level image of an index-keyed group list.
pub open spec fn groups_view(gs: Seq<(u16, Vec<AnmStrmEntry>)>) -> Seq<(u16, Seq<AnmStrmEntry>)> {
    Seq::new(gs.len(), |i: int| (gs[i].0, gs[i].1@))
}

/// Collects the supported samples of one object index across all frames,
/// in frame order.
fn collect_index(frames: &Vec<AnmStrmFrame>, j: usize) -> (r: Vec<AnmStrmEntry>)
    requires
        frames_equal_len(frames_seq_view(frames@)),
        frames@.len() > 0 ==> j < frames@[0]@.len(),
    ensures
        r@ == supported_samples(frames_seq_view(frames@), j as int),
{
    let ghost fv = frames_seq_view(frames@);
    let mut r: Vec<AnmStrmEntry> = Vec::new();
    let mut i: usize = 0;
    while i < frames.len()
        invariant
            i <= frames@.len(),
            frames_equal_len(fv),
            fv == frames_seq_view(frames@),
            frames@.len() > 0 ==> j < frames@[0]@.len(),
            r@ == supported_samples(fv.take(i as int), j as int),
        decreases frames@.len() - i,
    {
        proof {
            assert(fv.take(i as int + 1).drop_last() =~= fv.take(i as int));
            assert(fv.take(i as int + 1).last() == fv[i as int]);
            assert(fv[i as int].len() == fv[0].len());
        }
        let e = frames[i].entries[j];
        match e.entry_data {
            Entry::Other => {},
            _ => {
                r.push(e);
            },
        }
        i = i + 1;
    }
    proof {
        assert(fv.take(frames@.len() as int) =~= fv);
    }
    r
}

/// Regroups the frames' snapshots into one ordered sample sequence per
/// object index, keeping only supported samples; the group count equals the
/// first frame's snapshot count.
pub fn build_entries_from_frames(frames: &Vec<AnmStrmFrame>) -> (r: Vec<Vec<AnmStrmEntry>>)
    requires
        frames_equal_len(frames_seq_view(frames@)),
    ensures
        r@.len() == if frames@.len() == 0 { 0int } else { frames@[0]@.len() as int },
        forall|j: int|
            0 <= j < r@.len() ==> (#[trigger] r@[j])@ == supported_samples(
                frames_seq_view(frames@),
                j,
            ),
{
    let entry_count: usize = if frames.len() == 0 {
        0
    } else {
        frames[0].entries.len()
    };
    let mut r: Vec<Vec<AnmStrmEntry>> = Vec::new();
    let mut j: usize = 0;
    while j < entry_count
        invariant
            j <= entry_count,
            frames_equal_len(frames_seq_view(frames@)),
            entry_count == if frames@.len() == 0 { 0int } else { frames@[0]@.len() as int },
            r@.len() == j,
            forall|k: int|
                0 <= k < j ==> (#[trigger] r@[k])@ == supported_samples(
                    frames_seq_view(frames@),
                    k,
                ),
        decreases entry_count - j,
    {
        let bucket = collect_index(frames, j);
        r.push(bucket);
        j = j + 1;
    }
    r
}

/// Builds the index-keyed sample-group list: ascending by object index, one
/// entry per index with at least one supported sample.
pub fn build_anmstrm_entries_map(frames: &Vec<AnmStrmFrame>) -> (r: Vec<(u16, Vec<AnmStrmEntry>)>)
    requires
        frames_equal_len(frames_seq_view(frames@)),
        frames@.len() > 0 ==> frames@[0]@.len() <= 0x1_0000,
    ensures
        groups_view(r@) == sample_groups(frames_seq_view(frames@)),
{
    let ghost fv = frames_seq_view(frames@);
    let entry_count: usize = if frames.len() == 0 {
        0
    } else {
        frames[0].entries.len()
    };
    let mut r: Vec<(u16, Vec<AnmStrmEntry>)> = Vec::new();
    let mut j: usize = 0;
    while j < entry_count
        invariant
            j <= entry_count,
            frames_equal_len(fv),
            fv == frames_seq_view(frames@),
            entry_count == if fv.len() == 0 { 0int } else { fv[0].len() as int },
            entry_count <= 0x1_0000,
            groups_view(r@) == sample_groups_below(fv, j as int),
        decreases entry_count - j,
    {
        let bucket = collect_index(frames, j);
        if bucket.len() > 0 {
            let pair = (j as u16, bucket);
            r.push(pair);
            proof {
                assert(groups_view(r@) =~= sample_groups_below(fv, j as int + 1));
            }
        } else {
            proof {
                assert(groups_view(r@) =~= sample_groups_below(fv, j as int + 1));
            }
        }
        j = j + 1;
    }
    proof {
        if fv.len() > 0 {
            assert(sample_groups(fv) == sample_groups_below(fv, fv[0].len() as int));
        } else {
            assert(sample_groups(fv) =~= sample_groups_below(fv, entry_count as int));
        }
    }
    r
}

} // verus!
