//! Frame regrouping: per-index buckets in frame order, unsupported samples
//! silently dropped, and empty buckets omitted from the group list.

use strm2anm::collect::{build_anmstrm_entries_map, build_entries_from_frames};
use strm2anm::types::{
    AnmCoord, AnmStrmEntry, AnmStrmFrame, Entry, EntryAmbient, EntryMorphModel, Vector3,
};

fn morph(coord: u16, w0: u32) -> AnmStrmEntry {
    AnmStrmEntry {
        coord: AnmCoord { clump_index: 0, coord_index: coord },
        entry_data: Entry::MorphModel(EntryMorphModel { morph_weight: [w0, 0] }),
    }
}

fn ambient(coord: u16, intensity: u32) -> AnmStrmEntry {
    AnmStrmEntry {
        coord: AnmCoord { clump_index: 0, coord_index: coord },
        entry_data: Entry::Ambient(EntryAmbient {
            color: Vector3 { x: 0, y: 0, z: 0 },
            intensity,
        }),
    }
}

fn other(coord: u16) -> AnmStrmEntry {
    AnmStrmEntry {
        coord: AnmCoord { clump_index: 0, coord_index: coord },
        entry_data: Entry::Other,
    }
}

#[test]
fn buckets_follow_frame_order() {
    let frames = vec![
        AnmStrmFrame { entries: vec![morph(0, 1), ambient(1, 10)] },
        AnmStrmFrame { entries: vec![morph(0, 2), ambient(1, 20)] },
        AnmStrmFrame { entries: vec![morph(0, 3), ambient(1, 30)] },
    ];
    let buckets = build_entries_from_frames(&frames);
    assert_eq!(buckets.len(), 2);
    assert_eq!(buckets[0].len(), 3);
    assert_eq!(buckets[1].len(), 3);
    for (i, e) in buckets[0].iter().enumerate() {
        match e.entry_data {
            Entry::MorphModel(m) => assert_eq!(m.morph_weight[0] as usize, i + 1),
            _ => panic!("wrong variant in bucket 0"),
        }
    }
}

#[test]
fn unsupported_samples_are_dropped() {
    // an unsupported sample mid-stream silently shrinks the object's
    // effective frame set
    let frames = vec![
        AnmStrmFrame { entries: vec![morph(0, 1), other(1)] },
        AnmStrmFrame { entries: vec![other(0), other(1)] },
        AnmStrmFrame { entries: vec![morph(0, 3), other(1)] },
    ];
    let buckets = build_entries_from_frames(&frames);
    assert_eq!(buckets.len(), 2);
    assert_eq!(buckets[0].len(), 2);
    assert!(buckets[1].is_empty());
}

#[test]
fn empty_buckets_leave_the_group_list() {
    let frames = vec![
        AnmStrmFrame { entries: vec![other(0), morph(1, 5), other(2), ambient(3, 7)] },
    ];
    let groups = build_anmstrm_entries_map(&frames);
    assert_eq!(groups.len(), 2);
    assert_eq!(groups[0].0, 1);
    assert_eq!(groups[0].1.len(), 1);
    assert_eq!(groups[1].0, 3);
    assert_eq!(groups[1].1.len(), 1);
}

#[test]
fn no_frames_no_groups() {
    let frames: Vec<AnmStrmFrame> = vec![];
    assert!(build_entries_from_frames(&frames).is_empty());
    assert!(build_anmstrm_entries_map(&frames).is_empty());
}
