//! Full-pipeline behavior: damage clump selection, the entry partition
//! between the two outputs, output ordering, frame-count adjustment,
//! metadata copying, and determinism.

use strm2anm::pipeline::convert_anmstrm;
use strm2anm::split::find_dmg_clump_index;
use strm2anm::types::{
    Anm, AnmClump, AnmCoord, AnmStrm, AnmStrmEntry, AnmStrmFrame, CoordParent, Entry, EntryBone,
    Vector3, Vector4,
};

fn zero_bone() -> Entry {
    Entry::Bone(EntryBone {
        location: Vector3 { x: 0, y: 0, z: 0 },
        rotation: Vector4 { x: 0, y: 0, z: 0, w: 0 },
        scale: Vector3 { x: 0, y: 0, z: 0 },
        toggled: 0,
    })
}

fn sample(clump: i16, coord: u16, data: Entry) -> AnmStrmEntry {
    AnmStrmEntry { coord: AnmCoord { clump_index: clump, coord_index: coord }, entry_data: data }
}

fn clump_with(index: u32, count: usize) -> AnmClump {
    AnmClump {
        clump_index: index,
        bone_material_indices: (0..count as u32).collect(),
        model_indices: vec![],
    }
}

/// Two clumps (the second carries the 97-entry damage marker), two frames,
/// and four tracked objects: three bones across both clumps plus one
/// unsupported object.
fn example_stream() -> AnmStrm {
    let frame = AnmStrmFrame {
        entries: vec![
            sample(0, 5, zero_bone()),
            sample(1, 1, zero_bone()),
            sample(0, 2, zero_bone()),
            sample(0, 9, Entry::Other),
        ],
    };
    AnmStrm {
        frame_count: 300,
        is_looped: true,
        clumps: vec![clump_with(0, 50), clump_with(1, 97)],
        coord_parents: vec![
            CoordParent {
                parent: AnmCoord { clump_index: 0, coord_index: 2 },
                child: AnmCoord { clump_index: 0, coord_index: 5 },
            },
        ],
        other_entry_indices: vec![42],
        frames: vec![frame.clone(), frame],
    }
}

#[test]
fn dmg_clump_is_first_with_97_indices() {
    // clumps of 50 and 97 bone/material indices: the damage clump is the
    // one with exactly 97
    let clumps = vec![clump_with(0, 50), clump_with(1, 97)];
    assert_eq!(find_dmg_clump_index(&clumps), 1);
}

#[test]
fn dmg_clump_defaults_to_zero() {
    let clumps = vec![clump_with(0, 50), clump_with(1, 96)];
    assert_eq!(find_dmg_clump_index(&clumps), 0);
    assert_eq!(find_dmg_clump_index(&vec![]), 0);
}

#[test]
fn dmg_clump_takes_the_first_match() {
    let clumps = vec![clump_with(0, 97), clump_with(1, 97)];
    assert_eq!(find_dmg_clump_index(&clumps), 0);
}

#[test]
fn pipeline_partitions_and_sorts() {
    let strm = example_stream();
    let anms = convert_anmstrm(&strm);
    assert_eq!(anms.len(), 2);
    let primary = &anms[0];
    let dmg = &anms[1];
    // the damage clump sits at position 1; its entries moved to the
    // secondary animation and none remains in the primary
    assert_eq!(primary.entries.len(), 2);
    assert_eq!(dmg.entries.len(), 1);
    for e in primary.entries.iter() {
        assert_ne!(e.coord.clump_index, 1);
    }
    for e in dmg.entries.iter() {
        assert_eq!(e.coord.clump_index, 1);
    }
    // primary entries sorted ascending by (clump, coord, variant)
    assert_eq!(primary.entries[0].coord.coord_index, 2);
    assert_eq!(primary.entries[1].coord.coord_index, 5);
    // the unsupported object produced no entry at all
    for e in primary.entries.iter().chain(dmg.entries.iter()) {
        assert_ne!(e.coord.coord_index, 9);
    }
    // every entry is well-formed and every header carries the fixed
    // 12-byte size overhead over its zero raw size
    for e in primary.entries.iter().chain(dmg.entries.iter()) {
        assert_eq!(e.curve_count as usize, e.curve_headers.len());
        assert_eq!(e.curve_headers.len(), e.curves.len());
        for h in e.curve_headers.iter() {
            assert_eq!(h.curve_size, 12);
        }
    }
}

#[test]
fn pipeline_copies_metadata_and_adjusts_frame_count() {
    let strm = example_stream();
    let anms = convert_anmstrm(&strm);
    let primary = &anms[0];
    let dmg = &anms[1];
    // the 100-tick scale offset comes off the stream's frame count
    assert_eq!(primary.version, 121);
    assert_eq!(primary.frame_count, 200);
    assert!(primary.is_looped);
    assert_eq!(primary.clumps, strm.clumps);
    assert_eq!(primary.coord_parents, strm.coord_parents);
    assert_eq!(primary.other_entries_indices, vec![42]);
    assert!(primary.unk_entry_indices.is_empty());
    // the secondary keeps the full clump list and hierarchy, unreduced
    assert_eq!(dmg.version, 121);
    assert_eq!(dmg.frame_count, 200);
    assert!(dmg.is_looped);
    assert_eq!(dmg.clumps, strm.clumps);
    assert_eq!(dmg.coord_parents, strm.coord_parents);
    assert!(dmg.other_entries_indices.is_empty());
    assert!(dmg.unk_entry_indices.is_empty());
}

#[test]
fn pipeline_is_deterministic() {
    // running the full conversion twice over identical input yields
    // identical primary and secondary outputs
    let strm = example_stream();
    let first: Vec<Anm> = convert_anmstrm(&strm);
    let second: Vec<Anm> = convert_anmstrm(&strm);
    assert_eq!(first, second);
}

#[test]
fn pipeline_with_no_frames_yields_no_entries() {
    let strm = AnmStrm {
        frame_count: 100,
        is_looped: false,
        clumps: vec![],
        coord_parents: vec![],
        other_entry_indices: vec![],
        frames: vec![],
    };
    let anms = convert_anmstrm(&strm);
    assert_eq!(anms.len(), 2);
    assert!(anms[0].entries.is_empty());
    assert!(anms[1].entries.is_empty());
    assert_eq!(anms[0].frame_count, 0);
}
