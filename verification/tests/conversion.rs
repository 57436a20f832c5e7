//! Entry conversion scenarios: curve layouts, keyframe ticks, stepped
//! material channels, terminators, padding, and header sizing.

use strm2anm::curves::convert_entry;
use strm2anm::types::{
    AnmCoord, AnmStrmEntry, Curve, Entry, EntryBone, EntryMaterial, Vector3, Vector4,
};

fn v3(x: f32, y: f32, z: f32) -> Vector3 {
    Vector3 { x: x.to_bits(), y: y.to_bits(), z: z.to_bits() }
}

fn v4(x: f32, y: f32, z: f32, w: f32) -> Vector4 {
    Vector4 { x: x.to_bits(), y: y.to_bits(), z: z.to_bits(), w: w.to_bits() }
}

fn bone_sample(coord: AnmCoord, px: f32) -> AnmStrmEntry {
    AnmStrmEntry {
        coord,
        entry_data: Entry::Bone(EntryBone {
            location: v3(px, 0.0, 0.0),
            rotation: v4(0.0, 0.0, 0.0, 0.0),
            scale: v3(0.0, 0.0, 0.0),
            toggled: 0.0f32.to_bits(),
        }),
    }
}

#[test]
fn bone_three_frames() {
    // a single bone sampled over 3 frames with positions (0,0,0), (1,0,0),
    // (2,0,0) and zero rotation/scale
    let coord = AnmCoord { clump_index: 0, coord_index: 7 };
    let samples = vec![
        bone_sample(coord, 0.0),
        bone_sample(coord, 1.0),
        bone_sample(coord, 2.0),
    ];
    let e = convert_entry(&samples);
    assert_eq!(e.coord, coord);
    assert_eq!(e.entry_format, 1);
    assert_eq!(e.curve_count, 4);
    assert_eq!(e.curve_headers.len(), 4);
    assert_eq!(e.curves.len(), 4);
    // position: explicit frames 0, 100, 200 plus one terminator keyframe
    match &e.curves[0] {
        Curve::KeyframeVector3(kf) => {
            assert_eq!(kf.len(), 4);
            assert_eq!(kf[0].frame, 0);
            assert_eq!(kf[1].frame, 100);
            assert_eq!(kf[2].frame, 200);
            assert_eq!(kf[0].value, v3(0.0, 0.0, 0.0));
            assert_eq!(kf[1].value, v3(1.0, 0.0, 0.0));
            assert_eq!(kf[2].value, v3(2.0, 0.0, 0.0));
            assert_eq!(kf[3].frame, -1);
            assert_eq!(kf[3].value, Vector3 { x: 0, y: 0, z: 0 });
        },
        _ => panic!("position curve has the wrong kind"),
    }
    // rotation: 3 quantized quaternion records (all zero) plus terminator
    match &e.curves[1] {
        Curve::QuaternionShort(qs) => {
            assert_eq!(qs.len(), 4);
            for q in qs.iter() {
                assert_eq!((q.x, q.y, q.z, q.w), (0, 0, 0, 0));
            }
        },
        _ => panic!("rotation curve has the wrong kind"),
    }
    // scale: 3 quantized records, padded to an even count
    match &e.curves[2] {
        Curve::Vector3Short(vs) => {
            assert_eq!(vs.len(), 4);
        },
        _ => panic!("scale curve has the wrong kind"),
    }
    // toggled: one dense value per sample, no terminator
    match &e.curves[3] {
        Curve::Float(f) => {
            assert_eq!(f.len(), 3);
        },
        _ => panic!("toggled curve has the wrong kind"),
    }
    // headers: formats and finalized frame counts
    assert_eq!(e.curve_headers[0].curve_format, 6);
    assert_eq!(e.curve_headers[1].curve_format, 17);
    assert_eq!(e.curve_headers[2].curve_format, 16);
    assert_eq!(e.curve_headers[3].curve_format, 12);
    assert_eq!(e.curve_headers[0].frame_count, 4);
    assert_eq!(e.curve_headers[1].frame_count, 4);
    assert_eq!(e.curve_headers[2].frame_count, 4);
    assert_eq!(e.curve_headers[3].frame_count, 3);
    for (i, h) in e.curve_headers.iter().enumerate() {
        assert_eq!(h.curve_index as usize, i);
        assert_eq!(h.curve_size, 12);
    }
}

#[test]
fn material_single_sample_step_hold() {
    // a material sampled once with ambient_color[0] = 0.5 produces a
    // channel-0 curve with the two step-hold points (0, 0.5) and (50, 0.5)
    let coord = AnmCoord { clump_index: 0, coord_index: 2 };
    let mut colors = [0.0f32.to_bits(); 16];
    colors[0] = 0.5f32.to_bits();
    let samples = vec![AnmStrmEntry {
        coord,
        entry_data: Entry::Material(EntryMaterial { ambient_color: colors }),
    }];
    let e = convert_entry(&samples);
    assert_eq!(e.entry_format, 4);
    assert_eq!(e.curve_count, 18);
    match &e.curves[0] {
        Curve::KeyframeFloat(kf) => {
            assert_eq!(kf.len(), 3);
            assert_eq!(kf[0].frame, 0);
            assert_eq!(kf[0].value, 0.5f32.to_bits());
            assert_eq!(kf[1].frame, 50);
            assert_eq!(kf[1].value, 0.5f32.to_bits());
            // terminator
            assert_eq!(kf[2].frame, -1);
            assert_eq!(kf[2].value, 0);
        },
        _ => panic!("channel 0 has the wrong kind"),
    }
    // channels 0, 1, 8, 9 are keyframed; the other 12 channels are dense
    for c in 0..16usize {
        let keyframed = c == 0 || c == 1 || c == 8 || c == 9;
        match &e.curves[c] {
            Curve::KeyframeFloat(kf) => {
                assert!(keyframed, "channel {} should be dense", c);
                assert_eq!(kf.len(), 3);
                assert_eq!(e.curve_headers[c].curve_format, 10);
            },
            Curve::Float(f) => {
                assert!(!keyframed, "channel {} should be keyframed", c);
                assert_eq!(f.len(), 1);
                assert_eq!(e.curve_headers[c].curve_format, 12);
            },
            _ => panic!("channel {} has the wrong kind", c),
        }
    }
    // the two constant toggle curves hold a single 0.0 and 1.0
    match (&e.curves[16], &e.curves[17]) {
        (Curve::Float(t0), Curve::Float(t1)) => {
            assert_eq!(t0.as_slice(), &[0.0f32.to_bits()]);
            assert_eq!(t1.as_slice(), &[1.0f32.to_bits()]);
        },
        _ => panic!("toggle curves have the wrong kind"),
    }
    assert_eq!(e.curve_headers[16].curve_format, 11);
    assert_eq!(e.curve_headers[17].curve_format, 11);
    // the fixed 12-byte overhead lands on every header
    for h in e.curve_headers.iter() {
        assert_eq!(h.curve_size, 12);
    }
}

#[test]
fn material_two_samples_keyframed_channels_grow_by_two() {
    let coord = AnmCoord { clump_index: 0, coord_index: 2 };
    let mut c1 = [0.0f32.to_bits(); 16];
    c1[8] = 0.25f32.to_bits();
    let mut c2 = [0.0f32.to_bits(); 16];
    c2[8] = 0.75f32.to_bits();
    let samples = vec![
        AnmStrmEntry { coord, entry_data: Entry::Material(EntryMaterial { ambient_color: c1 }) },
        AnmStrmEntry { coord, entry_data: Entry::Material(EntryMaterial { ambient_color: c2 }) },
    ];
    let e = convert_entry(&samples);
    match &e.curves[8] {
        Curve::KeyframeFloat(kf) => {
            // two points per sample plus the terminator
            assert_eq!(kf.len(), 5);
            assert_eq!((kf[0].frame, kf[0].value), (0, 0.25f32.to_bits()));
            assert_eq!((kf[1].frame, kf[1].value), (50, 0.25f32.to_bits()));
            assert_eq!((kf[2].frame, kf[2].value), (100, 0.75f32.to_bits()));
            assert_eq!((kf[3].frame, kf[3].value), (150, 0.75f32.to_bits()));
            assert_eq!(kf[4].frame, -1);
        },
        _ => panic!("channel 8 has the wrong kind"),
    }
    // dense channels hold one value per sample
    match &e.curves[2] {
        Curve::Float(f) => assert_eq!(f.len(), 2),
        _ => panic!("channel 2 has the wrong kind"),
    }
    // the toggle curves are written at the first sample only
    match &e.curves[16] {
        Curve::Float(f) => assert_eq!(f.len(), 1),
        _ => panic!("toggle curve has the wrong kind"),
    }
}
