//! Sorting and packaging of converted entries into the primary animation.
//!
//! Downstream consumers expect entries grouped by object and sub-grouped by
//! variant, so the primary animation's entries are sorted ascending by
//! (clump index, coordinate index, variant format code); the secondary
//! damage animation is later re-sorted by coordinate index alone.  The sort
//! is a stable insertion sort with a full functional specification, so the
//! assembled animation is pinned exactly.

use vstd::prelude::*;
use vstd::seq_lib::group_to_multiset_ensures;
use crate::types::{
    Anm, AnmClump, AnmEntry, AnmEntryView, AnmStrm, CoordParent, entry_seq_view, ANM_VERSION,
};

verus! {

// ---------------------------------------------------------------------------
// Entry orderings.
// ---------------------------------------------------------------------------

/// The key an entry ordering compares by: the primary animation sorts by the
/// full (clump index, coordinate index, variant format) key, the damage
/// animation by coordinate index alone.
#[derive(Clone, Copy, Debug, PartialEq, Eq)]
pub enum EntryOrder {
    FullKey,
    CoordOnly,
}

/// Whether `a` precedes (or equals) `b` under the given ordering.
pub open spec fn le_entry(o: EntryOrder, a: AnmEntryView, b: AnmEntryView) -> bool {
    match o {
        EntryOrder::FullKey => a.coord.clump_index < b.coord.clump_index
            || (a.coord.clump_index == b.coord.clump_index && (a.coord.coord_index
                < b.coord.coord_index || (a.coord.coord_index == b.coord.coord_index
                && a.entry_format <= b.entry_format))),
        EntryOrder::CoordOnly => a.coord.coord_index <= b.coord.coord_index,
    }
}

/// Whether a sequence is sorted under the given ordering.
pub open spec fn sorted_entries(o: EntryOrder, s: Seq<AnmEntryView>) -> bool {
    forall|i: int, j: int| 0 <= i < j < s.len() ==> le_entry(o, #[trigger] s[i], #[trigger] s[j])
}

/// Both orderings are total.
proof fn lemma_le_entry_total(o: EntryOrder, a: AnmEntryView, b: AnmEntryView)
    ensures
        le_entry(o, a, b) || le_entry(o, b, a),
{
}

/// Both orderings are transitive.
proof fn lemma_le_entry_trans(o: EntryOrder, a: AnmEntryView, b: AnmEntryView, c: AnmEntryView)
    requires
        le_entry(o, a, b),
        le_entry(o, b, c),
    ensures
        le_entry(o, a, c),
{
}

// ---------------------------------------------------------------------------
// Insertion sort, specified.
// ---------------------------------------------------------------------------

/// Inserts `x` after every element that precedes or equals it (so equal
/// elements keep their relative order).
pub open spec fn insert_sorted(o: EntryOrder, s: Seq<AnmEntryView>, x: AnmEntryView) -> Seq<
    AnmEntryView,
>
    decreases s.len(),
{
    if s.len() == 0 {
        seq![x]
    } else if le_entry(o, s.last(), x) {
        s.push(x)
    } else {
        insert_sorted(o, s.drop_last(), x).push(s.last())
    }
}

/// Stable insertion sort of an entry sequence.
pub open spec fn sort_entries(o: EntryOrder, s: Seq<AnmEntryView>) -> Seq<AnmEntryView>
    decreases s.len(),
{
    if s.len() == 0 {
        Seq::empty()
    } else {
        insert_sorted(o, sort_entries(o, s.drop_last()), s.last())
    }
}

/// Inserting into a sorted sequence keeps it sorted, grows it by one, and
/// adds exactly the inserted element to its contents.
pub proof fn lemma_insert_sorted_ensures(o: EntryOrder, s: Seq<AnmEntryView>, x: AnmEntryView)
    requires
        sorted_entries(o, s),
    ensures
        sorted_entries(o, insert_sorted(o, s, x)),
        insert_sorted(o, s, x).len() == s.len() + 1,
        insert_sorted(o, s, x).to_multiset() == s.to_multiset().insert(x),
    decreases s.len(),
{
    broadcast use group_to_multiset_ensures;

    let r = insert_sorted(o, s, x);
    if s.len() == 0 {
        assert(r =~= Seq::empty().push(x));
        assert(r.to_multiset() =~= s.to_multiset().insert(x));
    } else if le_entry(o, s.last(), x) {
        assert forall|i: int, j: int| 0 <= i < j < r.len() implies le_entry(
            o,
            #[trigger] r[i],
            #[trigger] r[j],
        ) by {
            if j == r.len() - 1 {
                if i < s.len() - 1 {
                    lemma_le_entry_trans(o, s[i], s.last(), x);
                }
            }
        }
        assert(r.to_multiset() =~= s.to_multiset().insert(x));
    } else {
        let s0 = s.drop_last();
        let last = s.last();
        assert(sorted_entries(o, s0));
        lemma_insert_sorted_ensures(o, s0, x);
        let r0 = insert_sorted(o, s0, x);
        lemma_le_entry_total(o, last, x);
        // every element of r0 comes from s0 or is x, and either way it
        // precedes or equals the old last element
        assert forall|i: int| 0 <= i < r0.len() implies le_entry(o, #[trigger] r0[i], last) by {
            assert(r0.to_multiset().count(r0[i]) > 0);
            if r0[i] == x {
            } else {
                assert(s0.to_multiset().count(r0[i]) > 0);
                assert(s0.contains(r0[i]));
                let k = choose|k: int| 0 <= k < s0.len() && s0[k] == r0[i];
                assert(le_entry(o, s[k], s.last()));
            }
        }
        assert forall|i: int, j: int| 0 <= i < j < r.len() implies le_entry(
            o,
            #[trigger] r[i],
            #[trigger] r[j],
        ) by {
            if j < r.len() - 1 {
                assert(r[i] == r0[i] && r[j] == r0[j]);
            } else {
                assert(r[i] == r0[i] && r[j] == last);
            }
        }
        assert(s0.push(last) =~= s);
        assert(r.to_multiset() =~= s.to_multiset().insert(x));
    }
}

/// Sorting yields a sorted sequence with the same length and contents.
pub proof fn lemma_sort_entries_ensures(o: EntryOrder, s: Seq<AnmEntryView>)
    ensures
        sorted_entries(o, sort_entries(o, s)),
        sort_entries(o, s).len() == s.len(),
        sort_entries(o, s).to_multiset() == s.to_multiset(),
    decreases s.len(),
{
    broadcast use group_to_multiset_ensures;

    if s.len() == 0 {
        assert(sort_entries(o, s).to_multiset() =~= s.to_multiset());
    } else {
        let s0 = s.drop_last();
        lemma_sort_entries_ensures(o, s0);
        lemma_insert_sorted_ensures(o, sort_entries(o, s0), s.last());
        assert(s0.push(s.last()) =~= s);
        assert(sort_entries(o, s).to_multiset() =~= s.to_multiset());
    }
}

/// Inserting at the position found by scanning from the right (the first
/// position whose predecessor precedes or equals the new element) realizes
/// `insert_sorted`.
proof fn lemma_insert_sorted_at(o: EntryOrder, s: Seq<AnmEntryView>, x: AnmEntryView, pos: int)
    requires
        0 <= pos <= s.len(),
        forall|k: int| pos <= k < s.len() ==> !le_entry(o, #[trigger] s[k], x),
        pos > 0 ==> le_entry(o, s[pos - 1], x),
    ensures
        insert_sorted(o, s, x) == s.subrange(0, pos) + seq![x] + s.subrange(pos, s.len() as int),
    decreases s.len(),
{
    if s.len() == 0 {
        assert(insert_sorted(o, s, x) =~= s.subrange(0, pos) + seq![x] + s.subrange(
            pos,
            s.len() as int,
        ));
    } else if pos == s.len() {
        assert(le_entry(o, s.last(), x));
        assert(insert_sorted(o, s, x) =~= s.subrange(0, pos) + seq![x] + s.subrange(
            pos,
            s.len() as int,
        ));
    } else {
        assert(!le_entry(o, s.last(), x));
        let s0 = s.drop_last();
        lemma_insert_sorted_at(o, s0, x, pos);
        assert(insert_sorted(o, s, x) =~= s.subrange(0, pos) + seq![x] + s.subrange(
            pos,
            s.len() as int,
        ));
    }
}

// ---------------------------------------------------------------------------
// Executable sort.
// ---------------------------------------------------------------------------

/// Compares two entries under the given ordering.
fn le_entry_exec(o: EntryOrder, a: &AnmEntry, b: &AnmEntry) -> (r: bool)
    ensures
        r == le_entry(o, a@, b@),
{
    match o {
        EntryOrder::FullKey => a.coord.clump_index < b.coord.clump_index
            || (a.coord.clump_index == b.coord.clump_index && (a.coord.coord_index
                < b.coord.coord_index || (a.coord.coord_index == b.coord.coord_index
                && a.entry_format <= b.entry_format))),
        EntryOrder::CoordOnly => a.coord.coord_index <= b.coord.coord_index,
    }
}

/// Stable insertion sort of an entry list under the given ordering.
pub fn sort_anm_entries(o: EntryOrder, entries: Vec<AnmEntry>) -> (r: Vec<AnmEntry>)
    ensures
        entry_seq_view(r@) == sort_entries(o, entry_seq_view(entries@)),
        sorted_entries(o, entry_seq_view(r@)),
{
    let ghost orig = entry_seq_view(entries@);
    let mut input = entries;
    let mut out: Vec<AnmEntry> = Vec::new();
    let n = input.len();
    let mut i: usize = 0;
    while i < n
        invariant
            i <= n,
            n == orig.len(),
            input@.len() == n - i,
            forall|k: int| 0 <= k < n - i ==> (#[trigger] input@[k])@ == orig[k + i],
            sorted_entries(o, entry_seq_view(out@)),
            entry_seq_view(out@) == sort_entries(o, orig.take(i as int)),
        decreases n - i,
    {
        let e = input.remove(0);
        proof {
            assert(e@ == orig[i as int]);
        }
        let mut pos: usize = out.len();
        while pos > 0 && !le_entry_exec(o, &out[pos - 1], &e)
            invariant
                pos <= out@.len(),
                forall|k: int| pos <= k < out@.len() ==> !le_entry(o, (#[trigger] out@[k])@, e@),
            decreases pos,
        {
            pos = pos - 1;
        }
        let ghost before = entry_seq_view(out@);
        proof {
            assert forall|k: int| pos <= k < before.len() implies !le_entry(
                o,
                #[trigger] before[k],
                e@,
            ) by {
                assert(before[k] == out@[k]@);
            }
            lemma_insert_sorted_at(o, before, e@, pos as int);
            lemma_insert_sorted_ensures(o, before, e@);
        }
        out.insert(pos, e);
        proof {
            assert(entry_seq_view(out@) =~= before.subrange(0, pos as int) + seq![e@]
                + before.subrange(pos as int, before.len() as int));
            assert(orig.take(i as int + 1).drop_last() =~= orig.take(i as int));
            assert(orig.take(i as int + 1).last() == orig[i as int]);
            assert(entry_seq_view(out@) == sort_entries(o, orig.take(i as int + 1)));
        }
        i = i + 1;
    }
    proof {
        assert(orig.take(n as int) =~= orig);
    }
    out
}

// ---------------------------------------------------------------------------
// Metadata copies and the primary animation.
// ---------------------------------------------------------------------------

/// Copies a plain index list.
pub fn copy_u32_vec(v: &Vec<u32>) -> (r: Vec<u32>)
    ensures
        r@ == v@,
{
    let mut r: Vec<u32> = Vec::new();
    let mut i: usize = 0;
    while i < v.len()
        invariant
            i <= v@.len(),
            r@ == v@.take(i as int),
        decreases v@.len() - i,
    {
        r.push(v[i]);
        proof {
            assert(v@.take(i as int + 1) =~= v@.take(i as int).push(v@[i as int]));
        }
        i = i + 1;
    }
    proof {
        assert(v@.take(v@.len() as int) =~= v@);
    }
    r
}

/// Copies the coordinate-parent hierarchy.
pub fn copy_coord_parents(v: &Vec<CoordParent>) -> (r: Vec<CoordParent>)
    ensures
        r@ == v@,
{
    let mut r: Vec<CoordParent> = Vec::new();
    let mut i: usize = 0;
    while i < v.len()
        invariant
            i <= v@.len(),
            r@ == v@.take(i as int),
        decreases v@.len() - i,
    {
        r.push(v[i]);
        proof {
            assert(v@.take(i as int + 1) =~= v@.take(i as int).push(v@[i as int]));
        }
        i = i + 1;
    }
    proof {
        assert(v@.take(v@.len() as int) =~= v@);
    }
    r
}

/// Copies the clump list verbatim.
pub fn copy_clumps(v: &Vec<AnmClump>) -> (r: Vec<AnmClump>)
    ensures
        r@.len() == v@.len(),
        forall|i: int| 0 <= i < v@.len() ==> (#[trigger] r@[i])@ == v@[i]@,
{
    let mut r: Vec<AnmClump> = Vec::new();
    let mut i: usize = 0;
    while i < v.len()
        invariant
            i <= v@.len(),
            r@.len() == i,
            forall|k: int| 0 <= k < i ==> (#[trigger] r@[k])@ == v@[k]@,
        decreases v@.len() - i,
    {
        let c = &v[i];
        let copied = AnmClump {
            clump_index: c.clump_index,
            bone_material_indices: copy_u32_vec(&c.bone_material_indices),
            model_indices: copy_u32_vec(&c.model_indices),
        };
        r.push(copied);
        i = i + 1;
    }
    r
}

/// Builds the primary animation: entries sorted by the full key, clump list
/// and coordinate hierarchy copied verbatim from the stream, the fixed
/// version stamp, and the frame count reduced by the 100-tick scale offset.
pub fn build_anm(anmstrm: &AnmStrm, anm_entries: Vec<AnmEntry>) -> (r: Anm)
    requires
        anmstrm@.frame_count >= 100,
    ensures
        r@.version == ANM_VERSION,
        r@.frame_count == anmstrm@.frame_count - 100,
        r@.is_looped == anmstrm@.is_looped,
        r@.clumps == anmstrm@.clumps,
        r@.other_entries_indices == anmstrm@.other_entry_indices,
        r@.unk_entry_indices == Seq::<u32>::empty(),
        r@.coord_parents == anmstrm@.coord_parents,
        r@.entries == sort_entries(EntryOrder::FullKey, entry_seq_view(anm_entries@)),
{
    let sorted = sort_anm_entries(EntryOrder::FullKey, anm_entries);
    let clumps = copy_clumps(&anmstrm.clumps);
    let r = Anm {
        version: ANM_VERSION,
        frame_count: anmstrm.frame_count - 100,
        is_looped: anmstrm.is_looped,
        clumps,
        other_entries_indices: copy_u32_vec(&anmstrm.other_entry_indices),
        unk_entry_indices: Vec::new(),
        coord_parents: copy_coord_parents(&anmstrm.coord_parents),
        entries: sorted,
    };
    proof {
        assert(r@.clumps =~~= anmstrm@.clumps);
        assert(r@.unk_entry_indices =~= Seq::<u32>::empty());
        assert(r@.entries =~~= sort_entries(EntryOrder::FullKey, entry_seq_view(anm_entries@)));
    }
    r
}

} // verus!
