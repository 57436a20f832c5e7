//! Curve schemas of the remaining object variants: camera, directional and
//! point lights, ambient light, and morph model.

use strm2anm::curves::convert_entry;
use strm2anm::types::{
    AnmCoord, AnmStrmEntry, Curve, Entry, EntryAmbient, EntryCamera, EntryLightDirc,
    EntryLightPoint, EntryMorphModel, Vector3, Vector4,
};

fn v3(x: f32, y: f32, z: f32) -> Vector3 {
    Vector3 { x: x.to_bits(), y: y.to_bits(), z: z.to_bits() }
}

fn v4(x: f32, y: f32, z: f32, w: f32) -> Vector4 {
    Vector4 { x: x.to_bits(), y: y.to_bits(), z: z.to_bits(), w: w.to_bits() }
}

fn coord() -> AnmCoord {
    AnmCoord { clump_index: 0, coord_index: 1 }
}

#[test]
fn camera_schema() {
    let samples = vec![
        AnmStrmEntry {
            coord: coord(),
            entry_data: Entry::Camera(EntryCamera {
                location: v3(1.0, 2.0, 3.0),
                rotation: v4(0.5, 0.0, 0.0, 1.0),
                fov: 45.0f32.to_bits(),
            }),
        },
        AnmStrmEntry {
            coord: coord(),
            entry_data: Entry::Camera(EntryCamera {
                location: v3(4.0, 5.0, 6.0),
                rotation: v4(0.0, 0.0, 0.0, 1.0),
                fov: 50.0f32.to_bits(),
            }),
        },
    ];
    let e = convert_entry(&samples);
    assert_eq!(e.entry_format, 2);
    assert_eq!(e.curve_count, 3);
    let formats: Vec<u16> = e.curve_headers.iter().map(|h| h.curve_format).collect();
    assert_eq!(formats, vec![6, 17, 10]);
    match &e.curves[1] {
        Curve::QuaternionShort(qs) => {
            assert_eq!(qs.len(), 3);
            // 0.5 * 0x4000 = 8192; 1.0 * 0x4000 = 16384
            assert_eq!((qs[0].x, qs[0].w), (8192, 16384));
            assert_eq!((qs[2].x, qs[2].y, qs[2].z, qs[2].w), (0, 0, 0, 0));
        },
        _ => panic!("rotation curve has the wrong kind"),
    }
    match &e.curves[2] {
        Curve::KeyframeFloat(kf) => {
            assert_eq!(kf.len(), 3);
            assert_eq!((kf[0].frame, kf[0].value), (0, 45.0f32.to_bits()));
            assert_eq!((kf[1].frame, kf[1].value), (100, 50.0f32.to_bits()));
            assert_eq!(kf[2].frame, -1);
        },
        _ => panic!("fov curve has the wrong kind"),
    }
}

#[test]
fn light_dirc_schema_and_color_padding() {
    let samples = vec![AnmStrmEntry {
        coord: coord(),
        entry_data: Entry::LightDirc(EntryLightDirc {
            color: v3(1.0, 0.5, 0.0),
            intensity: 2.0f32.to_bits(),
            direction: v4(0.0, 1.0, 0.0, 0.0),
        }),
    }];
    let e = convert_entry(&samples);
    assert_eq!(e.entry_format, 5);
    assert_eq!(e.curve_count, 3);
    let formats: Vec<u16> = e.curve_headers.iter().map(|h| h.curve_format).collect();
    assert_eq!(formats, vec![20, 12, 17]);
    // one 3-byte color record, zero-padded to a 4-byte boundary
    match &e.curves[0] {
        Curve::RGB(cs) => {
            assert_eq!(cs.len(), 4);
            assert_eq!((cs[0].r, cs[0].g, cs[0].b), (255, 127, 0));
            for pad in cs.iter().skip(1) {
                assert_eq!((pad.r, pad.g, pad.b), (0, 0, 0));
            }
        },
        _ => panic!("color curve has the wrong kind"),
    }
    assert_eq!(e.curve_headers[0].frame_count, 4);
    match &e.curves[1] {
        Curve::Float(f) => assert_eq!(f.as_slice(), &[2.0f32.to_bits()]),
        _ => panic!("intensity curve has the wrong kind"),
    }
    match &e.curves[2] {
        Curve::QuaternionShort(qs) => {
            assert_eq!(qs.len(), 2);
            assert_eq!((qs[0].x, qs[0].y, qs[0].z, qs[0].w), (0, 16384, 0, 0));
        },
        _ => panic!("direction curve has the wrong kind"),
    }
}

#[test]
fn light_point_schema() {
    let samples = vec![AnmStrmEntry {
        coord: coord(),
        entry_data: Entry::LightPoint(EntryLightPoint {
            color: v3(0.0, 0.0, 1.0),
            intensity: 1.0f32.to_bits(),
            position: v3(7.0, 8.0, 9.0),
            radius: 100.0f32.to_bits(),
            falloff: 0.25f32.to_bits(),
        }),
    }];
    let e = convert_entry(&samples);
    assert_eq!(e.entry_format, 6);
    assert_eq!(e.curve_count, 5);
    let formats: Vec<u16> = e.curve_headers.iter().map(|h| h.curve_format).collect();
    assert_eq!(formats, vec![20, 12, 6, 12, 12]);
    match &e.curves[2] {
        Curve::KeyframeVector3(kf) => {
            assert_eq!(kf.len(), 2);
            assert_eq!(kf[0].frame, 0);
            assert_eq!(kf[0].value, v3(7.0, 8.0, 9.0));
            assert_eq!(kf[1].frame, -1);
        },
        _ => panic!("position curve has the wrong kind"),
    }
    match &e.curves[3] {
        Curve::Float(f) => assert_eq!(f.as_slice(), &[100.0f32.to_bits()]),
        _ => panic!("radius curve has the wrong kind"),
    }
}

#[test]
fn ambient_schema() {
    let samples = vec![
        AnmStrmEntry {
            coord: coord(),
            entry_data: Entry::Ambient(EntryAmbient {
                color: v3(0.5, 0.5, 0.5),
                intensity: 1.0f32.to_bits(),
            }),
        };
        2
    ];
    let e = convert_entry(&samples);
    assert_eq!(e.entry_format, 8);
    assert_eq!(e.curve_count, 2);
    let formats: Vec<u16> = e.curve_headers.iter().map(|h| h.curve_format).collect();
    assert_eq!(formats, vec![20, 12]);
    // two color records, padded from 6 bytes up to 12
    match &e.curves[0] {
        Curve::RGB(cs) => {
            assert_eq!(cs.len(), 4);
            assert_eq!((cs[0].r, cs[0].g, cs[0].b), (127, 127, 127));
        },
        _ => panic!("color curve has the wrong kind"),
    }
    match &e.curves[1] {
        Curve::Float(f) => assert_eq!(f.len(), 2),
        _ => panic!("intensity curve has the wrong kind"),
    }
}

#[test]
fn morph_model_schema() {
    let samples = vec![
        AnmStrmEntry {
            coord: coord(),
            entry_data: Entry::MorphModel(EntryMorphModel {
                morph_weight: [0.25f32.to_bits(), 0.75f32.to_bits()],
            }),
        },
        AnmStrmEntry {
            coord: coord(),
            entry_data: Entry::MorphModel(EntryMorphModel {
                morph_weight: [0.5f32.to_bits(), 1.0f32.to_bits()],
            }),
        },
    ];
    let e = convert_entry(&samples);
    assert_eq!(e.entry_format, 9);
    assert_eq!(e.curve_count, 2);
    let formats: Vec<u16> = e.curve_headers.iter().map(|h| h.curve_format).collect();
    assert_eq!(formats, vec![12, 12]);
    match (&e.curves[0], &e.curves[1]) {
        (Curve::Float(w0), Curve::Float(w1)) => {
            assert_eq!(w0.as_slice(), &[0.25f32.to_bits(), 0.5f32.to_bits()]);
            assert_eq!(w1.as_slice(), &[0.75f32.to_bits(), 1.0f32.to_bits()]);
        },
        _ => panic!("morph curves have the wrong kind"),
    }
    // dense curves take no terminator: frame counts stay at the sample count
    assert_eq!(e.curve_headers[0].frame_count, 2);
    assert_eq!(e.curve_headers[1].frame_count, 2);
}
