//! Extraction of the damage clump's entries into a secondary animation.
//!
//! The damage clump is the first clump (in original clump order) whose
//! bone/material index list has exactly 97 entries — the canonical size of a
//! damage-variant skeleton; if no clump matches, clump position 0 is the
//! fallback.  Every entry whose coordinate key names that clump position
//! moves from the primary animation into the secondary one, which keeps the
//! full clump list and coordinate hierarchy and is re-sorted by coordinate
//! index alone.

use vstd::prelude::*;
use vstd::seq_lib::group_to_multiset_ensures;
use crate::types::{
    Anm, AnmClump, AnmClumpView, AnmEntry, AnmEntryView, AnmStrm, clump_seq_view, entry_seq_view,
    ANM_VERSION, DMG_CLUMP_MARKER_LEN,
};
use crate::assemble::{EntryOrder, sort_entries, sort_anm_entries, copy_clumps, copy_coord_parents};

verus! {

// ---------------------------------------------------------------------------
// Damage clump identification.
// ---------------------------------------------------------------------------

/// The first clump position at or after `j` whose bone/material index list
/// has exactly 97 entries; 0 if none matches.
pub open spec fn dmg_index_from(cs: Seq<AnmClumpView>, j: int) -> int
    decreases cs.len() - j,
{
    if j < 0 || j >= cs.len() {
        0
    } else if cs[j].bone_material_indices.len() == 97 {
        j
    } else {
        dmg_index_from(cs, j + 1)
    }
}

/// The damage clump position of a clump list.
pub open spec fn dmg_clump_index(cs: Seq<AnmClumpView>) -> int {
    dmg_index_from(cs, 0)
}

/// Finds the damage clump position: the first clump whose bone/material
/// index list has exactly 97 entries, or 0 if none matches.
pub fn find_dmg_clump_index(clumps: &Vec<AnmClump>) -> (r: usize)
    ensures
        r as int == dmg_clump_index(clump_seq_view(clumps@)),
        r <= clumps@.len(),
{
    let ghost cv = clump_seq_view(clumps@);
    let mut i: usize = 0;
    while i < clumps.len()
        invariant
            i <= clumps@.len(),
            cv == clump_seq_view(clumps@),
            dmg_index_from(cv, 0) == dmg_index_from(cv, i as int),
        decreases clumps@.len() - i,
    {
        if clumps[i].bone_material_indices.len() == DMG_CLUMP_MARKER_LEN {
            return i;
        }
        i = i + 1;
    }
    0
}

// ---------------------------------------------------------------------------
// Entry partition.
// ---------------------------------------------------------------------------

/// Whether an entry belongs to the damage clump at position `d`.
pub open spec fn dmg_entry_pred(d: int) -> spec_fn(AnmEntryView) -> bool {
    |e: AnmEntryView| e.coord.clump_index == d as i16
}

/// Whether an entry stays in the primary animation when the damage clump is
/// at position `d`.
pub open spec fn kept_entry_pred(d: int) -> spec_fn(AnmEntryView) -> bool {
    |e: AnmEntryView| e.coord.clump_index != d as i16
}

/// The damage split partitions the entries: the kept and extracted parts
/// together carry exactly the original entries, every extracted entry names
/// the damage clump, and no kept entry does.
pub proof fn lemma_dmg_partition(s: Seq<AnmEntryView>, d: int)
    ensures
        forall|i: int|
            0 <= i < s.filter(dmg_entry_pred(d)).len() ==> (#[trigger] s.filter(
                dmg_entry_pred(d),
            )[i]).coord.clump_index == d as i16,
        forall|i: int|
            0 <= i < s.filter(kept_entry_pred(d)).len() ==> (#[trigger] s.filter(
                kept_entry_pred(d),
            )[i]).coord.clump_index != d as i16,
        s.filter(kept_entry_pred(d)).to_multiset().add(s.filter(dmg_entry_pred(d)).to_multiset())
            == s.to_multiset(),
    decreases s.len(),
{
    broadcast use group_to_multiset_ensures;

    reveal(Seq::filter);
    let kp = kept_entry_pred(d);
    let dp = dmg_entry_pred(d);
    if s.len() == 0 {
        assert(s.filter(kp).to_multiset().add(s.filter(dp).to_multiset()) =~= s.to_multiset());
    } else {
        let s0 = s.drop_last();
        lemma_dmg_partition(s0, d);
        assert(s0.push(s.last()) =~= s);
        if dp(s.last()) {
            assert(s.filter(dp) == s0.filter(dp).push(s.last()));
            assert(s.filter(kp) == s0.filter(kp));
        } else {
            assert(s.filter(dp) == s0.filter(dp));
            assert(s.filter(kp) == s0.filter(kp).push(s.last()));
        }
        assert(s.filter(kp).to_multiset().add(s.filter(dp).to_multiset()) =~= s.to_multiset());
    }
}

/// Builds the secondary damage animation and removes its entries from the
/// primary one: the primary keeps exactly the entries of other clumps, the
/// secondary gets the damage clump's entries sorted by coordinate index, and
/// both share the full clump list and coordinate hierarchy.
pub fn build_dmg_anm(anm: &mut Anm, anmstrm: &AnmStrm) -> (r: Anm)
    requires
        old(anm)@.clumps.len() <= 32767,
        anmstrm@.frame_count >= 100,
    ensures
        final(anm)@.version == old(anm)@.version,
        final(anm)@.frame_count == old(anm)@.frame_count,
        final(anm)@.is_looped == old(anm)@.is_looped,
        final(anm)@.clumps == old(anm)@.clumps,
        final(anm)@.other_entries_indices == old(anm)@.other_entries_indices,
        final(anm)@.unk_entry_indices == old(anm)@.unk_entry_indices,
        final(anm)@.coord_parents == old(anm)@.coord_parents,
        final(anm)@.entries == old(anm)@.entries.filter(
            kept_entry_pred(dmg_clump_index(old(anm)@.clumps)),
        ),
        r@.version == ANM_VERSION,
        r@.frame_count == anmstrm@.frame_count - 100,
        r@.is_looped == anmstrm@.is_looped,
        r@.clumps == old(anm)@.clumps,
        r@.other_entries_indices == Seq::<u32>::empty(),
        r@.unk_entry_indices == Seq::<u32>::empty(),
        r@.coord_parents == old(anm)@.coord_parents,
        r@.entries == sort_entries(
            EntryOrder::CoordOnly,
            old(anm)@.entries.filter(dmg_entry_pred(dmg_clump_index(old(anm)@.clumps))),
        ),
{
    let ghost orig = old(anm)@.entries;
    let d = find_dmg_clump_index(&anm.clumps);
    proof {
        assert(clump_seq_view(anm.clumps@) =~~= old(anm)@.clumps);
    }
    let ghost dspec = dmg_clump_index(old(anm)@.clumps);
    let di: i16 = d as i16;
    let clumps = copy_clumps(&anm.clumps);
    let coord_parents = copy_coord_parents(&anm.coord_parents);
    let mut kept: Vec<AnmEntry> = Vec::new();
    let mut dmg: Vec<AnmEntry> = Vec::new();
    let n = anm.entries.len();
    let mut i: usize = 0;
    while i < n
        invariant
            i <= n,
            n == orig.len(),
            anm.version == old(anm).version,
            anm.frame_count == old(anm).frame_count,
            anm.is_looped == old(anm).is_looped,
            anm.clumps == old(anm).clumps,
            anm.other_entries_indices == old(anm).other_entries_indices,
            anm.unk_entry_indices == old(anm).unk_entry_indices,
            anm.coord_parents == old(anm).coord_parents,
            anm.entries@.len() == n - i,
            forall|k: int| 0 <= k < n - i ==> (#[trigger] anm.entries@[k])@ == orig[k + i],
            di == dspec as i16,
            0 <= dspec <= 32767,
            entry_seq_view(kept@) == orig.take(i as int).filter(kept_entry_pred(dspec)),
            entry_seq_view(dmg@) == orig.take(i as int).filter(dmg_entry_pred(dspec)),
        decreases n - i,
    {
        let e = anm.entries.remove(0);
        proof {
            assert(e@ == orig[i as int]);
            reveal(Seq::filter);
            assert(orig.take(i as int + 1).drop_last() =~= orig.take(i as int));
            assert(orig.take(i as int + 1).last() == orig[i as int]);
        }
        if e.coord.clump_index == di {
            dmg.push(e);
            proof {
                assert(entry_seq_view(dmg@) =~= orig.take(i as int + 1).filter(
                    dmg_entry_pred(dspec),
                ));
                assert(entry_seq_view(kept@) =~= orig.take(i as int + 1).filter(
                    kept_entry_pred(dspec),
                ));
            }
        } else {
            kept.push(e);
            proof {
                assert(entry_seq_view(kept@) =~= orig.take(i as int + 1).filter(
                    kept_entry_pred(dspec),
                ));
                assert(entry_seq_view(dmg@) =~= orig.take(i as int + 1).filter(
                    dmg_entry_pred(dspec),
                ));
            }
        }
        i = i + 1;
    }
    proof {
        assert(orig.take(n as int) =~= orig);
    }
    anm.entries = kept;
    let dmg_sorted = sort_anm_entries(EntryOrder::CoordOnly, dmg);
    let r = Anm {
        version: ANM_VERSION,
        frame_count: anmstrm.frame_count - 100,
        is_looped: anmstrm.is_looped,
        clumps,
        other_entries_indices: Vec::new(),
        unk_entry_indices: Vec::new(),
        coord_parents,
        entries: dmg_sorted,
    };
    proof {
        assert(anm@.entries =~~= orig.filter(kept_entry_pred(dspec)));
        assert(anm@.clumps =~~= old(anm)@.clumps);
        assert(r@.clumps =~~= old(anm)@.clumps);
        assert(r@.other_entries_indices =~= Seq::<u32>::empty());
        assert(r@.unk_entry_indices =~= Seq::<u32>::empty());
        assert(r@.entries =~~= sort_entries(
            EntryOrder::CoordOnly,
            orig.filter(dmg_entry_pred(dspec)),
        ));
    }
    r
}

} // verus!
