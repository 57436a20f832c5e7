//! The full conversion: frames to sample groups, groups to finalized
//! entries, entries sorted and packaged into the primary animation, and the
//! damage clump's entries split into the secondary animation.
//!
//! The whole pipeline is specified as a function of the stream's view, so
//! the two produced animations are pinned exactly; the laws below (entry
//! well-formedness, header sizing, output ordering, the damage partition,
//! and determinism) are proved from that specification.

use vstd::prelude::*;
use vstd::seq_lib::group_to_multiset_ensures;
use crate::types::{
    Anm, AnmEntryView, AnmStrm, AnmStrmEntry, AnmStrmView, AnmView, ANM_VERSION,
};
use crate::collect::{
    frames_equal_len, sample_groups, sample_groups_below, supported_samples,
    build_anmstrm_entries_map,
};
use crate::curves::{
    converted_entries, converted_entry, groups_convertible, homogeneous, convert_entries,
    raw_entry,
};
use crate::assemble::{
    EntryOrder, le_entry, sort_entries, sorted_entries, build_anm, lemma_sort_entries_ensures,
};
use crate::split::{
    dmg_clump_index, dmg_entry_pred, kept_entry_pred, build_dmg_anm, lemma_dmg_partition,
};

verus! {

// ---------------------------------------------------------------------------
// Pipeline specification.
// ---------------------------------------------------------------------------

/// The number of object snapshots per frame (taken from the first frame).
pub open spec fn strm_entry_count(sv: AnmStrmView) -> int {
    if sv.frames.len() == 0 {
        0
    } else {
        sv.frames[0].len() as int
    }
}

/// Every object index's supported samples share one variant: the stream
/// assumption under which entry conversion is defined.
pub open spec fn strm_homogeneous(sv: AnmStrmView) -> bool {
    forall|j: int|
        0 <= j < strm_entry_count(sv) ==> homogeneous(#[trigger] supported_samples(sv.frames, j))
}

/// The inputs the conversion accepts: equally long frames (an unchecked
/// assumption of the stream format), bounded sizes so every tick and
/// count fits its field, at least the 100-tick scale offset worth of frames,
/// and per-index variant homogeneity.
pub open spec fn strm_convertible(sv: AnmStrmView) -> bool {
    &&& frames_equal_len(sv.frames)
    &&& sv.frames.len() <= 32767
    &&& strm_entry_count(sv) <= 0x1_0000
    &&& sv.frame_count >= 100
    &&& sv.clumps.len() <= 32767
    &&& strm_homogeneous(sv)
}

/// The primary animation as assembled, before the damage split removes the
/// damage clump's entries.
pub open spec fn assembled_primary(sv: AnmStrmView) -> AnmView {
    AnmView {
        version: ANM_VERSION,
        frame_count: (sv.frame_count - 100) as u32,
        is_looped: sv.is_looped,
        clumps: sv.clumps,
        other_entries_indices: sv.other_entry_indices,
        unk_entry_indices: Seq::empty(),
        coord_parents: sv.coord_parents,
        entries: sort_entries(
            EntryOrder::FullKey,
            converted_entries(sample_groups(sv.frames)),
        ),
    }
}

/// The primary animation the conversion produces: the assembled primary
/// with the damage clump's entries removed.
pub open spec fn converted_primary(sv: AnmStrmView) -> AnmView {
    let p = assembled_primary(sv);
    AnmView {
        entries: p.entries.filter(kept_entry_pred(dmg_clump_index(sv.clumps))),
        ..p
    }
}

/// The secondary damage animation the conversion produces: the damage
/// clump's entries, re-sorted by coordinate index, under the full copied
/// clump list and coordinate hierarchy.
pub open spec fn converted_dmg(sv: AnmStrmView) -> AnmView {
    AnmView {
        version: ANM_VERSION,
        frame_count: (sv.frame_count - 100) as u32,
        is_looped: sv.is_looped,
        clumps: sv.clumps,
        other_entries_indices: Seq::empty(),
        unk_entry_indices: Seq::empty(),
        coord_parents: sv.coord_parents,
        entries: sort_entries(
            EntryOrder::CoordOnly,
            assembled_primary(sv).entries.filter(dmg_entry_pred(dmg_clump_index(sv.clumps))),
        ),
    }
}

// ---------------------------------------------------------------------------
// Sample-group facts.
// ---------------------------------------------------------------------------

/// An object index never has more supported samples than there are frames.
proof fn lemma_supported_samples_len(fv: Seq<Seq<AnmStrmEntry>>, j: int)
    ensures
        supported_samples(fv, j).len() <= fv.len(),
    decreases fv.len(),
{
    if fv.len() > 0 {
        lemma_supported_samples_len(fv.drop_last(), j);
    }
}

/// Every sample group below `m` is the non-empty supported-sample sequence
/// of some object index below `m`.
proof fn lemma_sample_groups_members(fv: Seq<Seq<AnmStrmEntry>>, m: int)
    ensures
        forall|i: int|
            0 <= i < sample_groups_below(fv, m).len() ==> exists|j: int|
                0 <= j < m && #[trigger] sample_groups_below(fv, m)[i] == (
                    (j as u16),
                    supported_samples(fv, j),
                ) && supported_samples(fv, j).len() > 0,
    decreases m,
{
    if m > 0 {
        lemma_sample_groups_members(fv, m - 1);
        assert forall|i: int| 0 <= i < sample_groups_below(fv, m).len() implies exists|j: int|
            0 <= j < m && #[trigger] sample_groups_below(fv, m)[i] == (
                (j as u16),
                supported_samples(fv, j),
            ) && supported_samples(fv, j).len() > 0 by {
            if i < sample_groups_below(fv, m - 1).len() {
                let j = choose|j: int|
                    0 <= j < m - 1 && sample_groups_below(fv, m - 1)[i] == (
                        (j as u16),
                        supported_samples(fv, j),
                    ) && supported_samples(fv, j).len() > 0;
                assert(sample_groups_below(fv, m)[i] == ((j as u16), supported_samples(fv, j)));
            } else {
                assert(sample_groups_below(fv, m)[i] == (
                    ((m - 1) as u16),
                    supported_samples(fv, m - 1),
                ));
            }
        }
    }
}

/// A convertible stream's sample groups are all non-empty, bounded, and
/// homogeneous.
proof fn lemma_groups_convertible(sv: AnmStrmView)
    requires
        strm_convertible(sv),
    ensures
        groups_convertible(sample_groups(sv.frames)),
{
    let fv = sv.frames;
    let gs = sample_groups(fv);
    if fv.len() > 0 {
        lemma_sample_groups_members(fv, fv[0].len() as int);
        assert forall|i: int| 0 <= i < gs.len() implies {
            &&& 0 < (#[trigger] gs[i]).1.len() <= 32767
            &&& homogeneous(gs[i].1)
        } by {
            let j = choose|j: int|
                0 <= j < fv[0].len() && gs[i] == ((j as u16), supported_samples(fv, j))
                    && supported_samples(fv, j).len() > 0;
            lemma_supported_samples_len(fv, j);
            assert(homogeneous(supported_samples(fv, j)));
        }
    }
}

// ---------------------------------------------------------------------------
// The full conversion.
// ---------------------------------------------------------------------------

/// Converts a parsed stream into the primary and secondary damage
/// animations, in that order.
pub fn convert_anmstrm(anmstrm: &AnmStrm) -> (r: Vec<Anm>)
    requires
        strm_convertible(anmstrm@),
    ensures
        r@.len() == 2,
        r@[0]@ == converted_primary(anmstrm@),
        r@[1]@ == converted_dmg(anmstrm@),
{
    let ghost sv = anmstrm@;
    proof {
        lemma_groups_convertible(sv);
        assert(crate::collect::frames_seq_view(anmstrm.frames@) =~~= sv.frames);
    }
    let groups = build_anmstrm_entries_map(&anmstrm.frames);
    let anm_entries = convert_entries(groups);
    let mut anm = build_anm(anmstrm, anm_entries);
    proof {
        assert(anm@ =~~= assembled_primary(sv));
    }
    let dmg_anm = build_dmg_anm(&mut anm, anmstrm);
    proof {
        assert(anm@ =~~= converted_primary(sv));
        assert(dmg_anm@ =~~= converted_dmg(sv));
    }
    let mut r: Vec<Anm> = Vec::new();
    r.push(anm);
    r.push(dmg_anm);
    r
}

// ---------------------------------------------------------------------------
// Laws of the conversion.
// ---------------------------------------------------------------------------

/// Every converted entry is well-formed: its stated curve count equals the
/// length of both its header list and its curve list, and they are parallel.
pub proof fn lemma_converted_entry_wf(s: Seq<AnmStrmEntry>)
    requires
        0 < s.len(),
    ensures
        converted_entry(s).wf(),
{
}

/// Every element of a filtered sequence occurs in the original one.
proof fn lemma_filter_members(s: Seq<AnmEntryView>, pred: spec_fn(AnmEntryView) -> bool)
    ensures
        forall|i: int|
            0 <= i < s.filter(pred).len() ==> s.contains(#[trigger] s.filter(pred)[i]),
    decreases s.len(),
{
    reveal(Seq::filter);
    if s.len() > 0 {
        let s0 = s.drop_last();
        lemma_filter_members(s0, pred);
        assert forall|i: int| 0 <= i < s.filter(pred).len() implies s.contains(
            #[trigger] s.filter(pred)[i],
        ) by {
            if i < s0.filter(pred).len() {
                assert(s0.contains(s0.filter(pred)[i]));
                let k = choose|k: int| 0 <= k < s0.len() && s0[k] == s0.filter(pred)[i];
                assert(s[k] == s.filter(pred)[i]);
            } else {
                assert(s.filter(pred)[i] == s.last());
            }
        }
    }
}

/// Filtering a sorted sequence leaves it sorted.
proof fn lemma_filter_sorted(o: EntryOrder, s: Seq<AnmEntryView>, pred: spec_fn(AnmEntryView) -> bool)
    requires
        sorted_entries(o, s),
    ensures
        sorted_entries(o, s.filter(pred)),
    decreases s.len(),
{
    reveal(Seq::filter);
    if s.len() > 0 {
        let s0 = s.drop_last();
        assert(sorted_entries(o, s0));
        lemma_filter_sorted(o, s0, pred);
        lemma_filter_members(s0, pred);
        let f = s.filter(pred);
        if pred(s.last()) {
            assert forall|i: int, j: int| 0 <= i < j < f.len() implies le_entry(
                o,
                #[trigger] f[i],
                #[trigger] f[j],
            ) by {
                if j == f.len() - 1 {
                    assert(f[j] == s.last());
                    assert(s0.contains(s0.filter(pred)[i]));
                    let k = choose|k: int| 0 <= k < s0.len() && s0[k] == s0.filter(pred)[i];
                    assert(le_entry(o, s[k], s.last()));
                } else {
                    assert(f[i] == s0.filter(pred)[i] && f[j] == s0.filter(pred)[j]);
                }
            }
        }
    }
}

/// Entries contained in a sequence with the same contents as another one all
/// occur in that other one.
proof fn lemma_multiset_contains(a: Seq<AnmEntryView>, b: Seq<AnmEntryView>)
    requires
        a.to_multiset() == b.to_multiset(),
    ensures
        forall|i: int| 0 <= i < a.len() ==> b.contains(#[trigger] a[i]),
{
    broadcast use group_to_multiset_ensures;

    assert forall|i: int| 0 <= i < a.len() implies b.contains(#[trigger] a[i]) by {
        assert(a.to_multiset().count(a[i]) > 0);
    }
}

/// Both produced animations hold only well-formed entries, with every curve
/// header describing the curve at its own position.
pub proof fn lemma_outputs_wf(sv: AnmStrmView)
    requires
        strm_convertible(sv),
    ensures
        forall|i: int|
            0 <= i < converted_primary(sv).entries.len() ==> (#[trigger] converted_primary(
                sv,
            ).entries[i]).wf(),
        forall|i: int|
            0 <= i < converted_dmg(sv).entries.len() ==> (#[trigger] converted_dmg(
                sv,
            ).entries[i]).wf(),
{
    lemma_groups_convertible(sv);
    let gs = sample_groups(sv.frames);
    let ce = converted_entries(gs);
    assert forall|i: int| 0 <= i < ce.len() implies (#[trigger] ce[i]).wf() by {
        lemma_converted_entry_wf(gs[i].1);
    }
    let sorted = sort_entries(EntryOrder::FullKey, ce);
    lemma_sort_entries_ensures(EntryOrder::FullKey, ce);
    lemma_multiset_contains(sorted, ce);
    assert forall|i: int| 0 <= i < sorted.len() implies (#[trigger] sorted[i]).wf() by {
        let k = choose|k: int| 0 <= k < ce.len() && ce[k] == sorted[i];
    }
    let d = dmg_clump_index(sv.clumps);
    lemma_filter_members(sorted, kept_entry_pred(d));
    assert forall|i: int| 0 <= i < converted_primary(sv).entries.len() implies (
    #[trigger] converted_primary(sv).entries[i]).wf() by {
        let f = sorted.filter(kept_entry_pred(d));
        assert(sorted.contains(f[i]));
        let k = choose|k: int| 0 <= k < sorted.len() && sorted[k] == f[i];
    }
    let fd = sorted.filter(dmg_entry_pred(d));
    lemma_filter_members(sorted, dmg_entry_pred(d));
    assert forall|i: int| 0 <= i < fd.len() implies (#[trigger] fd[i]).wf() by {
        assert(sorted.contains(fd[i]));
        let k = choose|k: int| 0 <= k < sorted.len() && sorted[k] == fd[i];
    }
    let ds = sort_entries(EntryOrder::CoordOnly, fd);
    lemma_sort_entries_ensures(EntryOrder::CoordOnly, fd);
    lemma_multiset_contains(ds, fd);
    assert forall|i: int| 0 <= i < ds.len() implies (#[trigger] ds[i]).wf() by {
        let k = choose|k: int| 0 <= k < fd.len() && fd[k] == ds[i];
    }
}

/// Finalization adds exactly the fixed 12-byte overhead to a header's byte
/// size, independent of the curve's frame count or element width; since
/// every raw header starts at size zero, every produced header's byte size
/// is exactly 12.
pub proof fn lemma_header_overhead(s: Seq<AnmStrmEntry>, i: int)
    requires
        0 < s.len(),
        0 <= i < converted_entry(s).curve_headers.len(),
    ensures
        converted_entry(s).curve_headers[i].curve_size == raw_entry(s).curve_headers[i].curve_size
            + 12,
        converted_entry(s).curve_headers[i].curve_size == 12,
{
}

/// The primary animation's entries are sorted ascending by (clump index,
/// coordinate index, variant format); the secondary animation's entries are
/// sorted ascending by coordinate index alone.
pub proof fn lemma_outputs_sorted(sv: AnmStrmView)
    ensures
        sorted_entries(EntryOrder::FullKey, converted_primary(sv).entries),
        sorted_entries(EntryOrder::CoordOnly, converted_dmg(sv).entries),
{
    let ce = converted_entries(sample_groups(sv.frames));
    lemma_sort_entries_ensures(EntryOrder::FullKey, ce);
    let sorted = sort_entries(EntryOrder::FullKey, ce);
    let d = dmg_clump_index(sv.clumps);
    lemma_filter_sorted(EntryOrder::FullKey, sorted, kept_entry_pred(d));
    lemma_sort_entries_ensures(
        EntryOrder::CoordOnly,
        sorted.filter(dmg_entry_pred(d)),
    );
}

/// The damage split partitions the assembled entries: the primary and
/// secondary outputs together hold exactly the assembled entries, no entry
/// of the damage clump stays in the primary output, and every secondary
/// entry names the damage clump.
pub proof fn lemma_outputs_partition(sv: AnmStrmView)
    ensures
        converted_primary(sv).entries.to_multiset().add(converted_dmg(sv).entries.to_multiset())
            == assembled_primary(sv).entries.to_multiset(),
        forall|i: int|
            0 <= i < converted_primary(sv).entries.len() ==> (#[trigger] converted_primary(
                sv,
            ).entries[i]).coord.clump_index != dmg_clump_index(sv.clumps) as i16,
        forall|i: int|
            0 <= i < converted_dmg(sv).entries.len() ==> (#[trigger] converted_dmg(
                sv,
            ).entries[i]).coord.clump_index == dmg_clump_index(sv.clumps) as i16,
{
    broadcast use group_to_multiset_ensures;

    let sorted = assembled_primary(sv).entries;
    let d = dmg_clump_index(sv.clumps);
    lemma_dmg_partition(sorted, d);
    let fd = sorted.filter(dmg_entry_pred(d));
    lemma_sort_entries_ensures(EntryOrder::CoordOnly, fd);
    assert(converted_primary(sv).entries.to_multiset().add(
        converted_dmg(sv).entries.to_multiset(),
    ) =~= sorted.to_multiset());
    let ds = sort_entries(EntryOrder::CoordOnly, fd);
    lemma_multiset_contains(ds, fd);
    assert forall|i: int| 0 <= i < ds.len() implies (#[trigger] ds[i]).coord.clump_index == d as i16 by {
        let k = choose|k: int| 0 <= k < fd.len() && fd[k] == ds[i];
    }
}

/// The conversion is deterministic: byte-identical inputs produce
/// byte-identical primary and secondary animations.  Together with
/// `convert_anmstrm`'s contract, two runs over one input are equal.
pub proof fn lemma_conversion_deterministic(a: AnmStrmView, b: AnmStrmView)
    requires
        a == b,
    ensures
        converted_primary(a) == converted_primary(b),
        converted_dmg(a) == converted_dmg(b),
{
}

} // verus!
