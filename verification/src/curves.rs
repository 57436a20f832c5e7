//! Conversion of one object's sample sequence into a typed curve set, and
//! finalization of the resulting curves.
//!
//! Each object variant has a fixed curve layout (a schema of curve kinds and
//! format codes) allocated from the first sample; every sample then appends
//! one record to each curve, except the stepped material channels (two
//! records per sample) and the constant material toggle curves (one record
//! ever).  Sample `i` of a sequence lands on tick `100 * i`.
//!
//! Finalization appends a terminator record to every keyframed curve (a
//! zero-valued record with frame -1 for explicit keyframes, an all-zero
//! record for quantized quaternions), zero-pads 3-byte-color and quantized
//! 3-vector curves so their total byte size is a multiple of 4, adds the
//! fixed 12-byte overhead to every header's byte size, and sets every
//! header's frame count to its curve's final record count.

use vstd::prelude::*;
use crate::types::{
    Vector3, KeyframeVector3, KeyframeFloat, QuaternionShort, Vector3Short, RGB, CurveHeader,
    Curve, CurveView, AnmEntry, AnmEntryView, AnmStrmEntry, Entry, EntryBone, EntryMaterial,
    EntryCamera, EntryLightDirc, EntryLightPoint, EntryAmbient, EntryMorphModel, same_variant,
    entry_format_of, curve_vec_view, entry_seq_view, FLOAT_ZERO_BITS, FLOAT_ONE_BITS,
    FRAME_TICK_SCALE, STEP_HOLD_OFFSET,
    CURVE_HEADER_OVERHEAD, ENTRY_FORMAT_BONE, ENTRY_FORMAT_CAMERA, ENTRY_FORMAT_MATERIAL,
    ENTRY_FORMAT_LIGHTDIRC, ENTRY_FORMAT_LIGHTPOINT, ENTRY_FORMAT_AMBIENT,
    ENTRY_FORMAT_MORPHMODEL, CURVE_FORMAT_INT1_FLOAT3, CURVE_FORMAT_INT1_FLOAT1,
    CURVE_FORMAT_FLOAT1, CURVE_FORMAT_FLOAT1ALT, CURVE_FORMAT_SHORT3, CURVE_FORMAT_SHORT4,
    CURVE_FORMAT_BYTE3,
};
use crate::collect::groups_view;
use vstd::pervasive::unreached;
use crate::quant::{quantized_quat, quantized_scale, quantized_rgb, quantize_quat, quantize_scale, quantize_rgb};

verus! {

// ---------------------------------------------------------------------------
// Terminator and padding records.
// ---------------------------------------------------------------------------

/// The zero 3-vector.
pub open spec fn zero_vector3() -> Vector3 {
    Vector3 { x: 0, y: 0, z: 0 }
}

/// Terminator keyframe of a keyframed 3-vector curve.
pub open spec fn null_keyframe_vector3() -> KeyframeVector3 {
    KeyframeVector3 { frame: -1i32, value: zero_vector3() }
}

/// Terminator keyframe of a keyframed scalar curve.
pub open spec fn null_keyframe_float() -> KeyframeFloat {
    KeyframeFloat { frame: -1i32, value: 0 }
}

/// Terminator record of a quantized quaternion curve.
pub open spec fn zero_quaternion_short() -> QuaternionShort {
    QuaternionShort { x: 0, y: 0, z: 0, w: 0 }
}

/// Padding record of a quantized 3-vector curve.
pub open spec fn zero_vector3_short() -> Vector3Short {
    Vector3Short { x: 0, y: 0, z: 0 }
}

/// Padding record of a 3-byte color curve.
pub open spec fn zero_rgb() -> RGB {
    RGB { r: 0, g: 0, b: 0 }
}

// ---------------------------------------------------------------------------
// Raw (pre-finalization) curves of each variant.
// ---------------------------------------------------------------------------

/// Whether every sample of the sequence carries the same variant tag as the
/// first one; entry conversion is defined for such sequences only.
pub open spec fn homogeneous(s: Seq<AnmStrmEntry>) -> bool {
    forall|i: int|
        0 <= i < s.len() ==> same_variant(#[trigger] s[i].entry_data, s[0].entry_data)
}

/// Bone payload of a sample.
pub open spec fn bone_data(e: Entry) -> EntryBone {
    e->Bone_0
}

/// Material payload of a sample.
pub open spec fn material_data(e: Entry) -> EntryMaterial {
    e->Material_0
}

/// Camera payload of a sample.
pub open spec fn camera_data(e: Entry) -> EntryCamera {
    e->Camera_0
}

/// Directional-light payload of a sample.
pub open spec fn light_dirc_data(e: Entry) -> EntryLightDirc {
    e->LightDirc_0
}

/// Point-light payload of a sample.
pub open spec fn light_point_data(e: Entry) -> EntryLightPoint {
    e->LightPoint_0
}

/// Ambient-light payload of a sample.
pub open spec fn ambient_data(e: Entry) -> EntryAmbient {
    e->Ambient_0
}

/// Morph-model payload of a sample.
pub open spec fn morph_model_data(e: Entry) -> EntryMorphModel {
    e->MorphModel_0
}

/// The raw curve list of a bone object: keyframed position, quantized
/// rotation, quantized scale, dense toggled flag.
pub open spec fn bone_raw_curves(p: Seq<EntryBone>) -> Seq<CurveView> {
    seq![
        CurveView::KeyframeVector3(
            Seq::new(p.len(), |i: int| KeyframeVector3 { frame: (100 * i) as i32, value: p[i].location }),
        ),
        CurveView::QuaternionShort(Seq::new(p.len(), |i: int| quantized_quat(p[i].rotation))),
        CurveView::Vector3Short(Seq::new(p.len(), |i: int| quantized_scale(p[i].scale))),
        CurveView::Float(Seq::new(p.len(), |i: int| p[i].toggled)),
    ]
}

/// The raw curve list of a camera object: keyframed position, quantized
/// rotation, keyframed field-of-view.
pub open spec fn camera_raw_curves(p: Seq<EntryCamera>) -> Seq<CurveView> {
    seq![
        CurveView::KeyframeVector3(
            Seq::new(p.len(), |i: int| KeyframeVector3 { frame: (100 * i) as i32, value: p[i].location }),
        ),
        CurveView::QuaternionShort(Seq::new(p.len(), |i: int| quantized_quat(p[i].rotation))),
        CurveView::KeyframeFloat(
            Seq::new(p.len(), |i: int| KeyframeFloat { frame: (100 * i) as i32, value: p[i].fov }),
        ),
    ]
}

/// The raw curve list of a directional light: quantized color, dense
/// intensity, quantized direction.
pub open spec fn light_dirc_raw_curves(p: Seq<EntryLightDirc>) -> Seq<CurveView> {
    seq![
        CurveView::RGB(Seq::new(p.len(), |i: int| quantized_rgb(p[i].color))),
        CurveView::Float(Seq::new(p.len(), |i: int| p[i].intensity)),
        CurveView::QuaternionShort(Seq::new(p.len(), |i: int| quantized_quat(p[i].direction))),
    ]
}

/// The raw curve list of a point light: quantized color, dense intensity,
/// keyframed position, dense radius, dense falloff.
pub open spec fn light_point_raw_curves(p: Seq<EntryLightPoint>) -> Seq<CurveView> {
    seq![
        CurveView::RGB(Seq::new(p.len(), |i: int| quantized_rgb(p[i].color))),
        CurveView::Float(Seq::new(p.len(), |i: int| p[i].intensity)),
        CurveView::KeyframeVector3(
            Seq::new(p.len(), |i: int| KeyframeVector3 { frame: (100 * i) as i32, value: p[i].position }),
        ),
        CurveView::Float(Seq::new(p.len(), |i: int| p[i].radius)),
        CurveView::Float(Seq::new(p.len(), |i: int| p[i].falloff)),
    ]
}

/// The raw curve list of an ambient light: quantized color, dense intensity.
pub open spec fn ambient_raw_curves(p: Seq<EntryAmbient>) -> Seq<CurveView> {
    seq![
        CurveView::RGB(Seq::new(p.len(), |i: int| quantized_rgb(p[i].color))),
        CurveView::Float(Seq::new(p.len(), |i: int| p[i].intensity)),
    ]
}

/// The raw curve list of a morph model: one dense curve per morph weight.
pub open spec fn morph_model_raw_curves(p: Seq<EntryMorphModel>) -> Seq<CurveView> {
    seq![
        CurveView::Float(Seq::new(p.len(), |i: int| p[i].morph_weight@[0])),
        CurveView::Float(Seq::new(p.len(), |i: int| p[i].morph_weight@[1])),
    ]
}

/// Channel `ch` of the material color array across the sample sequence.
pub open spec fn material_channel(p: Seq<EntryMaterial>, ch: int) -> Seq<u32> {
    Seq::new(p.len(), |i: int| p[i].ambient_color@[ch])
}

/// Whether a material color channel is keyframed (stepped) rather than dense.
pub open spec fn material_channel_keyframed(ch: int) -> bool {
    ch == 0 || ch == 1 || ch == 8 || ch == 9
}

/// A stepped keyframe sequence: each sample contributes two points, one on
/// its own tick `100 * i` and one 50 ticks later holding the same value, so
/// record `t` sits on tick `50 * t` and holds the value of sample `t / 2`.
pub open spec fn stepped_keyframes(vals: Seq<u32>) -> Seq<KeyframeFloat> {
    Seq::new(2 * vals.len(), |t: int| KeyframeFloat { frame: (50 * t) as i32, value: vals[t / 2] })
}

/// Raw curve `c` of a material object: 16 color-channel curves (stepped for
/// channels 0, 1, 8, 9, dense otherwise) plus two constant toggle curves.
pub open spec fn material_raw_curve(p: Seq<EntryMaterial>, c: int) -> CurveView {
    if c < 16 {
        if material_channel_keyframed(c) {
            CurveView::KeyframeFloat(stepped_keyframes(material_channel(p, c)))
        } else {
            CurveView::Float(material_channel(p, c))
        }
    } else if c == 16 {
        CurveView::Float(seq![FLOAT_ZERO_BITS])
    } else {
        CurveView::Float(seq![FLOAT_ONE_BITS])
    }
}

/// The raw curve list of a material object.
pub open spec fn material_raw_curves(p: Seq<EntryMaterial>) -> Seq<CurveView> {
    Seq::new(18, |c: int| material_raw_curve(p, c))
}

/// Curve format code of material curve `c`.
pub open spec fn material_format(c: int) -> u16 {
    if c < 16 {
        if material_channel_keyframed(c) {
            CURVE_FORMAT_INT1_FLOAT1
        } else {
            CURVE_FORMAT_FLOAT1ALT
        }
    } else {
        CURVE_FORMAT_FLOAT1
    }
}

/// The ordered curve format codes of a variant's curve layout.
pub open spec fn variant_formats(e: Entry) -> Seq<u16> {
    match e {
        Entry::Bone(_) => seq![
            CURVE_FORMAT_INT1_FLOAT3,
            CURVE_FORMAT_SHORT4,
            CURVE_FORMAT_SHORT3,
            CURVE_FORMAT_FLOAT1ALT,
        ],
        Entry::Material(_) => Seq::new(18, |c: int| material_format(c)),
        Entry::Camera(_) => seq![
            CURVE_FORMAT_INT1_FLOAT3,
            CURVE_FORMAT_SHORT4,
            CURVE_FORMAT_INT1_FLOAT1,
        ],
        Entry::LightDirc(_) => seq![
            CURVE_FORMAT_BYTE3,
            CURVE_FORMAT_FLOAT1ALT,
            CURVE_FORMAT_SHORT4,
        ],
        Entry::LightPoint(_) => seq![
            CURVE_FORMAT_BYTE3,
            CURVE_FORMAT_FLOAT1ALT,
            CURVE_FORMAT_INT1_FLOAT3,
            CURVE_FORMAT_FLOAT1ALT,
            CURVE_FORMAT_FLOAT1ALT,
        ],
        Entry::Ambient(_) => seq![CURVE_FORMAT_BYTE3, CURVE_FORMAT_FLOAT1ALT],
        Entry::MorphModel(_) => seq![CURVE_FORMAT_FLOAT1ALT, CURVE_FORMAT_FLOAT1ALT],
        Entry::Other => Seq::empty(),
    }
}

/// The raw curve list of a sample sequence, per the first sample's variant.
pub open spec fn raw_curves(s: Seq<AnmStrmEntry>) -> Seq<CurveView> {
    match s[0].entry_data {
        Entry::Bone(_) => bone_raw_curves(Seq::new(s.len(), |i: int| bone_data(s[i].entry_data))),
        Entry::Material(_) => material_raw_curves(
            Seq::new(s.len(), |i: int| material_data(s[i].entry_data)),
        ),
        Entry::Camera(_) => camera_raw_curves(
            Seq::new(s.len(), |i: int| camera_data(s[i].entry_data)),
        ),
        Entry::LightDirc(_) => light_dirc_raw_curves(
            Seq::new(s.len(), |i: int| light_dirc_data(s[i].entry_data)),
        ),
        Entry::LightPoint(_) => light_point_raw_curves(
            Seq::new(s.len(), |i: int| light_point_data(s[i].entry_data)),
        ),
        Entry::Ambient(_) => ambient_raw_curves(
            Seq::new(s.len(), |i: int| ambient_data(s[i].entry_data)),
        ),
        Entry::MorphModel(_) => morph_model_raw_curves(
            Seq::new(s.len(), |i: int| morph_model_data(s[i].entry_data)),
        ),
        Entry::Other => Seq::empty(),
    }
}

/// The raw curve headers for a format list: curve `i` gets index `i`, its
/// format code, and zero frame count and byte size.
pub open spec fn raw_headers(fmts: Seq<u16>) -> Seq<CurveHeader> {
    Seq::new(
        fmts.len(),
        |i: int| CurveHeader { curve_index: i as u16, curve_format: fmts[i], frame_count: 0, curve_size: 0 },
    )
}

/// The entry built from a sample sequence before finalization.
pub open spec fn raw_entry(s: Seq<AnmStrmEntry>) -> AnmEntryView {
    AnmEntryView {
        coord: s[0].coord,
        entry_format: entry_format_of(s[0].entry_data),
        curve_count: 0,
        curve_headers: raw_headers(variant_formats(s[0].entry_data)),
        curves: raw_curves(s),
    }
}

// ---------------------------------------------------------------------------
// Finalization.
// ---------------------------------------------------------------------------

/// Count of zero records appended to a 3-byte color curve of `n` records so
/// its total byte size becomes a multiple of 4.
pub open spec fn rgb_pad_count(n: nat) -> nat {
    if n % 4 == 0 {
        0
    } else {
        (4 - n % 4) as nat
    }
}

/// The finalized form of a curve: keyframed curves gain one terminator
/// record; 3-byte color and quantized 3-vector curves are zero-padded to a
/// 4-byte boundary; dense scalar curves are unchanged.
pub open spec fn finalized_curve(c: CurveView) -> CurveView {
    match c {
        CurveView::KeyframeVector3(v) => CurveView::KeyframeVector3(v.push(null_keyframe_vector3())),
        CurveView::KeyframeFloat(v) => CurveView::KeyframeFloat(v.push(null_keyframe_float())),
        CurveView::QuaternionShort(v) => CurveView::QuaternionShort(v.push(zero_quaternion_short())),
        CurveView::Vector3Short(v) => if v.len() % 2 == 1 {
            CurveView::Vector3Short(v.push(zero_vector3_short()))
        } else {
            c
        },
        CurveView::Float(_) => c,
        CurveView::RGB(v) => CurveView::RGB(
            v + Seq::new(rgb_pad_count(v.len()), |i: int| zero_rgb()),
        ),
    }
}

/// The finalized form of a curve header: the byte size grows by exactly the
/// fixed 12-byte overhead and the frame count becomes the finalized curve's
/// record count.
pub open spec fn finalized_header(h: CurveHeader, c: CurveView) -> CurveHeader {
    CurveHeader {
        curve_index: h.curve_index,
        curve_format: h.curve_format,
        frame_count: finalized_curve(c).record_count() as u16,
        curve_size: (h.curve_size + CURVE_HEADER_OVERHEAD) as u16,
    }
}

/// The finalized form of an entry: curves and headers finalized pairwise and
/// the curve count set to the curve list length.
pub open spec fn finalized_entry(ev: AnmEntryView) -> AnmEntryView {
    AnmEntryView {
        coord: ev.coord,
        entry_format: ev.entry_format,
        curve_count: ev.curves.len() as u16,
        curve_headers: Seq::new(
            ev.curves.len(),
            |i: int| finalized_header(ev.curve_headers[i], ev.curves[i]),
        ),
        curves: Seq::new(ev.curves.len(), |i: int| finalized_curve(ev.curves[i])),
    }
}

/// The entry a sample sequence converts to.
pub open spec fn converted_entry(s: Seq<AnmStrmEntry>) -> AnmEntryView {
    finalized_entry(raw_entry(s))
}

// ---------------------------------------------------------------------------
// Executable conversion.
// ---------------------------------------------------------------------------

/// Extracts the bone payloads of a bone-only sample sequence.
fn bone_payloads(s: &Vec<AnmStrmEntry>) -> (r: Vec<EntryBone>)
    requires
        forall|i: int| 0 <= i < s@.len() ==> (#[trigger] s@[i].entry_data) is Bone,
    ensures
        r@ == Seq::new(s@.len(), |i: int| bone_data(s@[i].entry_data)),
{
    let mut r: Vec<EntryBone> = Vec::new();
    let mut i: usize = 0;
    while i < s.len()
        invariant
            i <= s@.len(),
            forall|k: int| 0 <= k < s@.len() ==> (#[trigger] s@[k].entry_data) is Bone,
            r@.len() == i,
            forall|k: int| 0 <= k < i ==> r@[k] == bone_data(s@[k].entry_data),
        decreases s@.len() - i,
    {
        match s[i].entry_data {
            Entry::Bone(b) => {
                r.push(b);
            },
            _ => {
                unreached::<()>();
            },
        }
        i = i + 1;
    }
    proof {
        assert(r@ =~= Seq::new(s@.len(), |i: int| bone_data(s@[i].entry_data)));
    }
    r
}

/// Extracts the material payloads of a material-only sample sequence.
fn material_payloads(s: &Vec<AnmStrmEntry>) -> (r: Vec<EntryMaterial>)
    requires
        forall|i: int| 0 <= i < s@.len() ==> (#[trigger] s@[i].entry_data) is Material,
    ensures
        r@ == Seq::new(s@.len(), |i: int| material_data(s@[i].entry_data)),
{
    let mut r: Vec<EntryMaterial> = Vec::new();
    let mut i: usize = 0;
    while i < s.len()
        invariant
            i <= s@.len(),
            forall|k: int| 0 <= k < s@.len() ==> (#[trigger] s@[k].entry_data) is Material,
            r@.len() == i,
            forall|k: int| 0 <= k < i ==> r@[k] == material_data(s@[k].entry_data),
        decreases s@.len() - i,
    {
        match s[i].entry_data {
            Entry::Material(m) => {
                r.push(m);
            },
            _ => {
                unreached::<()>();
            },
        }
        i = i + 1;
    }
    proof {
        assert(r@ =~= Seq::new(s@.len(), |i: int| material_data(s@[i].entry_data)));
    }
    r
}

/// Extracts the camera payloads of a camera-only sample sequence.
fn camera_payloads(s: &Vec<AnmStrmEntry>) -> (r: Vec<EntryCamera>)
    requires
        forall|i: int| 0 <= i < s@.len() ==> (#[trigger] s@[i].entry_data) is Camera,
    ensures
        r@ == Seq::new(s@.len(), |i: int| camera_data(s@[i].entry_data)),
{
    let mut r: Vec<EntryCamera> = Vec::new();
    let mut i: usize = 0;
    while i < s.len()
        invariant
            i <= s@.len(),
            forall|k: int| 0 <= k < s@.len() ==> (#[trigger] s@[k].entry_data) is Camera,
            r@.len() == i,
            forall|k: int| 0 <= k < i ==> r@[k] == camera_data(s@[k].entry_data),
        decreases s@.len() - i,
    {
        match s[i].entry_data {
            Entry::Camera(c) => {
                r.push(c);
            },
            _ => {
                unreached::<()>();
            },
        }
        i = i + 1;
    }
    proof {
        assert(r@ =~= Seq::new(s@.len(), |i: int| camera_data(s@[i].entry_data)));
    }
    r
}

/// Extracts the directional-light payloads of a matching sample sequence.
fn light_dirc_payloads(s: &Vec<AnmStrmEntry>) -> (r: Vec<EntryLightDirc>)
    requires
        forall|i: int| 0 <= i < s@.len() ==> (#[trigger] s@[i].entry_data) is LightDirc,
    ensures
        r@ == Seq::new(s@.len(), |i: int| light_dirc_data(s@[i].entry_data)),
{
    let mut r: Vec<EntryLightDirc> = Vec::new();
    let mut i: usize = 0;
    while i < s.len()
        invariant
            i <= s@.len(),
            forall|k: int| 0 <= k < s@.len() ==> (#[trigger] s@[k].entry_data) is LightDirc,
            r@.len() == i,
            forall|k: int| 0 <= k < i ==> r@[k] == light_dirc_data(s@[k].entry_data),
        decreases s@.len() - i,
    {
        match s[i].entry_data {
            Entry::LightDirc(d) => {
                r.push(d);
            },
            _ => {
                unreached::<()>();
            },
        }
        i = i + 1;
    }
    proof {
        assert(r@ =~= Seq::new(s@.len(), |i: int| light_dirc_data(s@[i].entry_data)));
    }
    r
}

/// Extracts the point-light payloads of a matching sample sequence.
fn light_point_payloads(s: &Vec<AnmStrmEntry>) -> (r: Vec<EntryLightPoint>)
    requires
        forall|i: int| 0 <= i < s@.len() ==> (#[trigger] s@[i].entry_data) is LightPoint,
    ensures
        r@ == Seq::new(s@.len(), |i: int| light_point_data(s@[i].entry_data)),
{
    let mut r: Vec<EntryLightPoint> = Vec::new();
    let mut i: usize = 0;
    while i < s.len()
        invariant
            i <= s@.len(),
            forall|k: int| 0 <= k < s@.len() ==> (#[trigger] s@[k].entry_data) is LightPoint,
            r@.len() == i,
            forall|k: int| 0 <= k < i ==> r@[k] == light_point_data(s@[k].entry_data),
        decreases s@.len() - i,
    {
        match s[i].entry_data {
            Entry::LightPoint(d) => {
                r.push(d);
            },
            _ => {
                unreached::<()>();
            },
        }
        i = i + 1;
    }
    proof {
        assert(r@ =~= Seq::new(s@.len(), |i: int| light_point_data(s@[i].entry_data)));
    }
    r
}

/// Extracts the ambient-light payloads of a matching sample sequence.
fn ambient_payloads(s: &Vec<AnmStrmEntry>) -> (r: Vec<EntryAmbient>)
    requires
        forall|i: int| 0 <= i < s@.len() ==> (#[trigger] s@[i].entry_data) is Ambient,
    ensures
        r@ == Seq::new(s@.len(), |i: int| ambient_data(s@[i].entry_data)),
{
    let mut r: Vec<EntryAmbient> = Vec::new();
    let mut i: usize = 0;
    while i < s.len()
        invariant
            i <= s@.len(),
            forall|k: int| 0 <= k < s@.len() ==> (#[trigger] s@[k].entry_data) is Ambient,
            r@.len() == i,
            forall|k: int| 0 <= k < i ==> r@[k] == ambient_data(s@[k].entry_data),
        decreases s@.len() - i,
    {
        match s[i].entry_data {
            Entry::Ambient(a) => {
                r.push(a);
            },
            _ => {
                unreached::<()>();
            },
        }
        i = i + 1;
    }
    proof {
        assert(r@ =~= Seq::new(s@.len(), |i: int| ambient_data(s@[i].entry_data)));
    }
    r
}

/// Extracts the morph-model payloads of a matching sample sequence.
fn morph_model_payloads(s: &Vec<AnmStrmEntry>) -> (r: Vec<EntryMorphModel>)
    requires
        forall|i: int| 0 <= i < s@.len() ==> (#[trigger] s@[i].entry_data) is MorphModel,
    ensures
        r@ == Seq::new(s@.len(), |i: int| morph_model_data(s@[i].entry_data)),
{
    let mut r: Vec<EntryMorphModel> = Vec::new();
    let mut i: usize = 0;
    while i < s.len()
        invariant
            i <= s@.len(),
            forall|k: int| 0 <= k < s@.len() ==> (#[trigger] s@[k].entry_data) is MorphModel,
            r@.len() == i,
            forall|k: int| 0 <= k < i ==> r@[k] == morph_model_data(s@[k].entry_data),
        decreases s@.len() - i,
    {
        match s[i].entry_data {
            Entry::MorphModel(m) => {
                r.push(m);
            },
            _ => {
                unreached::<()>();
            },
        }
        i = i + 1;
    }
    proof {
        assert(r@ =~= Seq::new(s@.len(), |i: int| morph_model_data(s@[i].entry_data)));
    }
    r
}

/// Builds the raw curve list of a bone object.
fn build_bone_curves(p: &Vec<EntryBone>) -> (r: Vec<Curve>)
    requires
        p@.len() <= 32767,
    ensures
        curve_vec_view(r@) == bone_raw_curves(p@),
{
    let mut loc: Vec<KeyframeVector3> = Vec::new();
    let mut rot: Vec<QuaternionShort> = Vec::new();
    let mut scl: Vec<Vector3Short> = Vec::new();
    let mut tog: Vec<u32> = Vec::new();
    let mut i: usize = 0;
    while i < p.len()
        invariant
            i <= p@.len(),
            p@.len() <= 32767,
            loc@.len() == i,
            rot@.len() == i,
            scl@.len() == i,
            tog@.len() == i,
            forall|k: int|
                0 <= k < i ==> loc@[k] == (KeyframeVector3 {
                    frame: (100 * k) as i32,
                    value: p@[k].location,
                }),
            forall|k: int| 0 <= k < i ==> rot@[k] == quantized_quat(p@[k].rotation),
            forall|k: int| 0 <= k < i ==> scl@[k] == quantized_scale(p@[k].scale),
            forall|k: int| 0 <= k < i ==> tog@[k] == p@[k].toggled,
        decreases p@.len() - i,
    {
        let b = p[i];
        loc.push(KeyframeVector3 { frame: (i as i32) * FRAME_TICK_SCALE, value: b.location });
        rot.push(quantize_quat(&b.rotation));
        scl.push(quantize_scale(&b.scale));
        tog.push(b.toggled);
        i = i + 1;
    }
    let mut r: Vec<Curve> = Vec::new();
    r.push(Curve::KeyframeVector3(loc));
    r.push(Curve::QuaternionShort(rot));
    r.push(Curve::Vector3Short(scl));
    r.push(Curve::Float(tog));
    proof {
        assert(curve_vec_view(r@) =~~= bone_raw_curves(p@));
    }
    r
}

/// Builds the raw curve list of a camera object.
fn build_camera_curves(p: &Vec<EntryCamera>) -> (r: Vec<Curve>)
    requires
        p@.len() <= 32767,
    ensures
        curve_vec_view(r@) == camera_raw_curves(p@),
{
    let mut loc: Vec<KeyframeVector3> = Vec::new();
    let mut rot: Vec<QuaternionShort> = Vec::new();
    let mut fov: Vec<KeyframeFloat> = Vec::new();
    let mut i: usize = 0;
    while i < p.len()
        invariant
            i <= p@.len(),
            p@.len() <= 32767,
            loc@.len() == i,
            rot@.len() == i,
            fov@.len() == i,
            forall|k: int|
                0 <= k < i ==> loc@[k] == (KeyframeVector3 {
                    frame: (100 * k) as i32,
                    value: p@[k].location,
                }),
            forall|k: int| 0 <= k < i ==> rot@[k] == quantized_quat(p@[k].rotation),
            forall|k: int|
                0 <= k < i ==> fov@[k] == (KeyframeFloat {
                    frame: (100 * k) as i32,
                    value: p@[k].fov,
                }),
        decreases p@.len() - i,
    {
        let c = p[i];
        loc.push(KeyframeVector3 { frame: (i as i32) * FRAME_TICK_SCALE, value: c.location });
        rot.push(quantize_quat(&c.rotation));
        fov.push(KeyframeFloat { frame: (i as i32) * FRAME_TICK_SCALE, value: c.fov });
        i = i + 1;
    }
    let mut r: Vec<Curve> = Vec::new();
    r.push(Curve::KeyframeVector3(loc));
    r.push(Curve::QuaternionShort(rot));
    r.push(Curve::KeyframeFloat(fov));
    proof {
        assert(curve_vec_view(r@) =~~= camera_raw_curves(p@));
    }
    r
}

/// Builds the raw curve list of a directional light.
fn build_light_dirc_curves(p: &Vec<EntryLightDirc>) -> (r: Vec<Curve>)
    requires
        p@.len() <= 32767,
    ensures
        curve_vec_view(r@) == light_dirc_raw_curves(p@),
{
    let mut col: Vec<RGB> = Vec::new();
    let mut its: Vec<u32> = Vec::new();
    let mut dir: Vec<QuaternionShort> = Vec::new();
    let mut i: usize = 0;
    while i < p.len()
        invariant
            i <= p@.len(),
            col@.len() == i,
            its@.len() == i,
            dir@.len() == i,
            forall|k: int| 0 <= k < i ==> col@[k] == quantized_rgb(p@[k].color),
            forall|k: int| 0 <= k < i ==> its@[k] == p@[k].intensity,
            forall|k: int| 0 <= k < i ==> dir@[k] == quantized_quat(p@[k].direction),
        decreases p@.len() - i,
    {
        let d = p[i];
        col.push(quantize_rgb(&d.color));
        its.push(d.intensity);
        dir.push(quantize_quat(&d.direction));
        i = i + 1;
    }
    let mut r: Vec<Curve> = Vec::new();
    r.push(Curve::RGB(col));
    r.push(Curve::Float(its));
    r.push(Curve::QuaternionShort(dir));
    proof {
        assert(curve_vec_view(r@) =~~= light_dirc_raw_curves(p@));
    }
    r
}

/// Builds the raw curve list of a point light.
fn build_light_point_curves(p: &Vec<EntryLightPoint>) -> (r: Vec<Curve>)
    requires
        p@.len() <= 32767,
    ensures
        curve_vec_view(r@) == light_point_raw_curves(p@),
{
    let mut col: Vec<RGB> = Vec::new();
    let mut its: Vec<u32> = Vec::new();
    let mut pos: Vec<KeyframeVector3> = Vec::new();
    let mut rad: Vec<u32> = Vec::new();
    let mut fal: Vec<u32> = Vec::new();
    let mut i: usize = 0;
    while i < p.len()
        invariant
            i <= p@.len(),
            p@.len() <= 32767,
            col@.len() == i,
            its@.len() == i,
            pos@.len() == i,
            rad@.len() == i,
            fal@.len() == i,
            forall|k: int| 0 <= k < i ==> col@[k] == quantized_rgb(p@[k].color),
            forall|k: int| 0 <= k < i ==> its@[k] == p@[k].intensity,
            forall|k: int|
                0 <= k < i ==> pos@[k] == (KeyframeVector3 {
                    frame: (100 * k) as i32,
                    value: p@[k].position,
                }),
            forall|k: int| 0 <= k < i ==> rad@[k] == p@[k].radius,
            forall|k: int| 0 <= k < i ==> fal@[k] == p@[k].falloff,
        decreases p@.len() - i,
    {
        let d = p[i];
        col.push(quantize_rgb(&d.color));
        its.push(d.intensity);
        pos.push(KeyframeVector3 { frame: (i as i32) * FRAME_TICK_SCALE, value: d.position });
        rad.push(d.radius);
        fal.push(d.falloff);
        i = i + 1;
    }
    let mut r: Vec<Curve> = Vec::new();
    r.push(Curve::RGB(col));
    r.push(Curve::Float(its));
    r.push(Curve::KeyframeVector3(pos));
    r.push(Curve::Float(rad));
    r.push(Curve::Float(fal));
    proof {
        assert(curve_vec_view(r@) =~~= light_point_raw_curves(p@));
    }
    r
}

/// Builds the raw curve list of an ambient light.
fn build_ambient_curves(p: &Vec<EntryAmbient>) -> (r: Vec<Curve>)
    requires
        p@.len() <= 32767,
    ensures
        curve_vec_view(r@) == ambient_raw_curves(p@),
{
    let mut col: Vec<RGB> = Vec::new();
    let mut its: Vec<u32> = Vec::new();
    let mut i: usize = 0;
    while i < p.len()
        invariant
            i <= p@.len(),
            col@.len() == i,
            its@.len() == i,
            forall|k: int| 0 <= k < i ==> col@[k] == quantized_rgb(p@[k].color),
            forall|k: int| 0 <= k < i ==> its@[k] == p@[k].intensity,
        decreases p@.len() - i,
    {
        let a = p[i];
        col.push(quantize_rgb(&a.color));
        its.push(a.intensity);
        i = i + 1;
    }
    let mut r: Vec<Curve> = Vec::new();
    r.push(Curve::RGB(col));
    r.push(Curve::Float(its));
    proof {
        assert(curve_vec_view(r@) =~~= ambient_raw_curves(p@));
    }
    r
}

/// Builds the raw curve list of a morph model.
fn build_morph_model_curves(p: &Vec<EntryMorphModel>) -> (r: Vec<Curve>)
    requires
        p@.len() <= 32767,
    ensures
        curve_vec_view(r@) == morph_model_raw_curves(p@),
{
    let mut w0: Vec<u32> = Vec::new();
    let mut w1: Vec<u32> = Vec::new();
    let mut i: usize = 0;
    while i < p.len()
        invariant
            i <= p@.len(),
            w0@.len() == i,
            w1@.len() == i,
            forall|k: int| 0 <= k < i ==> w0@[k] == p@[k].morph_weight@[0],
            forall|k: int| 0 <= k < i ==> w1@[k] == p@[k].morph_weight@[1],
        decreases p@.len() - i,
    {
        let m = p[i];
        w0.push(m.morph_weight[0]);
        w1.push(m.morph_weight[1]);
        i = i + 1;
    }
    let mut r: Vec<Curve> = Vec::new();
    r.push(Curve::Float(w0));
    r.push(Curve::Float(w1));
    proof {
        assert(curve_vec_view(r@) =~~= morph_model_raw_curves(p@));
    }
    r
}

/// Builds one stepped (keyframed) material channel curve: two points per
/// sample, the second 50 ticks after the first.
fn material_stepped_channel(p: &Vec<EntryMaterial>, ch: usize) -> (r: Vec<KeyframeFloat>)
    requires
        ch < 16,
        p@.len() <= 32767,
    ensures
        r@ == stepped_keyframes(material_channel(p@, ch as int)),
{
    let mut r: Vec<KeyframeFloat> = Vec::new();
    let mut i: usize = 0;
    while i < p.len()
        invariant
            ch < 16,
            i <= p@.len(),
            p@.len() <= 32767,
            r@.len() == 2 * i,
            forall|t: int|
                0 <= t < 2 * i ==> r@[t] == (KeyframeFloat {
                    frame: (50 * t) as i32,
                    value: p@[t / 2].ambient_color@[ch as int],
                }),
        decreases p@.len() - i,
    {
        let v = p[i].ambient_color[ch];
        r.push(KeyframeFloat { frame: (i as i32) * FRAME_TICK_SCALE, value: v });
        r.push(KeyframeFloat { frame: (i as i32) * FRAME_TICK_SCALE + STEP_HOLD_OFFSET, value: v });
        i = i + 1;
    }
    proof {
        assert(r@ =~= stepped_keyframes(material_channel(p@, ch as int)));
    }
    r
}

/// Builds one dense material channel curve: one value per sample.
fn material_dense_channel(p: &Vec<EntryMaterial>, ch: usize) -> (r: Vec<u32>)
    requires
        ch < 16,
    ensures
        r@ == material_channel(p@, ch as int),
{
    let mut r: Vec<u32> = Vec::new();
    let mut i: usize = 0;
    while i < p.len()
        invariant
            ch < 16,
            i <= p@.len(),
            r@.len() == i,
            forall|k: int| 0 <= k < i ==> r@[k] == p@[k].ambient_color@[ch as int],
        decreases p@.len() - i,
    {
        r.push(p[i].ambient_color[ch]);
        i = i + 1;
    }
    proof {
        assert(r@ =~= material_channel(p@, ch as int));
    }
    r
}

/// Builds the raw curve list of a material object: 16 channel curves plus
/// the two constant toggle curves.
fn build_material_curves(p: &Vec<EntryMaterial>) -> (r: Vec<Curve>)
    requires
        p@.len() <= 32767,
    ensures
        curve_vec_view(r@) == material_raw_curves(p@),
{
    let mut r: Vec<Curve> = Vec::new();
    let mut ch: usize = 0;
    while ch < 16
        invariant
            ch <= 16,
            p@.len() <= 32767,
            r@.len() == ch,
            forall|c: int| 0 <= c < ch ==> (#[trigger] r@[c])@ == material_raw_curve(p@, c),
        decreases 16 - ch,
    {
        if ch == 0 || ch == 1 || ch == 8 || ch == 9 {
            r.push(Curve::KeyframeFloat(material_stepped_channel(p, ch)));
        } else {
            r.push(Curve::Float(material_dense_channel(p, ch)));
        }
        ch = ch + 1;
    }
    let mut t0: Vec<u32> = Vec::new();
    t0.push(FLOAT_ZERO_BITS);
    r.push(Curve::Float(t0));
    let mut t1: Vec<u32> = Vec::new();
    t1.push(FLOAT_ONE_BITS);
    r.push(Curve::Float(t1));
    proof {
        assert(r@[16]@ =~~= material_raw_curve(p@, 16));
        assert(r@[17]@ =~~= material_raw_curve(p@, 17));
        assert(curve_vec_view(r@) =~~= material_raw_curves(p@));
    }
    r
}

/// The entry-format code of a sample's variant.
fn entry_format_code(e: &Entry) -> (r: u16)
    ensures
        r == entry_format_of(*e),
{
    match e {
        Entry::Bone(_) => ENTRY_FORMAT_BONE,
        Entry::Material(_) => ENTRY_FORMAT_MATERIAL,
        Entry::Camera(_) => ENTRY_FORMAT_CAMERA,
        Entry::LightDirc(_) => ENTRY_FORMAT_LIGHTDIRC,
        Entry::LightPoint(_) => ENTRY_FORMAT_LIGHTPOINT,
        Entry::Ambient(_) => ENTRY_FORMAT_AMBIENT,
        Entry::MorphModel(_) => ENTRY_FORMAT_MORPHMODEL,
        Entry::Other => 0,
    }
}

/// Builds the raw curve headers for a format list.
fn build_raw_headers(formats: &Vec<u16>) -> (r: Vec<CurveHeader>)
    requires
        formats@.len() <= 18,
    ensures
        r@ == raw_headers(formats@),
{
    let mut r: Vec<CurveHeader> = Vec::new();
    let mut i: usize = 0;
    while i < formats.len()
        invariant
            i <= formats@.len(),
            formats@.len() <= 18,
            r@.len() == i,
            forall|k: int|
                0 <= k < i ==> r@[k] == (CurveHeader {
                    curve_index: k as u16,
                    curve_format: formats@[k],
                    frame_count: 0,
                    curve_size: 0,
                }),
        decreases formats@.len() - i,
    {
        r.push(CurveHeader {
            curve_index: i as u16,
            curve_format: formats[i],
            frame_count: 0,
            curve_size: 0,
        });
        i = i + 1;
    }
    proof {
        assert(r@ =~= raw_headers(formats@));
    }
    r
}

/// Number of records a curve holds.
fn curve_record_len(c: &Curve) -> (n: usize)
    ensures
        n == c@.record_count(),
{
    match c {
        Curve::KeyframeVector3(v) => v.len(),
        Curve::KeyframeFloat(v) => v.len(),
        Curve::Float(v) => v.len(),
        Curve::QuaternionShort(v) => v.len(),
        Curve::Vector3Short(v) => v.len(),
        Curve::RGB(v) => v.len(),
    }
}

/// Finalizes one curve: appends the terminator record of its kind, or pads
/// color and quantized 3-vector curves to a 4-byte boundary.
fn finalize_curve(c: Curve) -> (r: Curve)
    ensures
        r@ == finalized_curve(c@),
{
    match c {
        Curve::KeyframeVector3(mut v) => {
            v.push(KeyframeVector3 { frame: -1, value: Vector3 { x: 0, y: 0, z: 0 } });
            Curve::KeyframeVector3(v)
        },
        Curve::KeyframeFloat(mut v) => {
            v.push(KeyframeFloat { frame: -1, value: 0 });
            Curve::KeyframeFloat(v)
        },
        Curve::QuaternionShort(mut v) => {
            v.push(QuaternionShort { x: 0, y: 0, z: 0, w: 0 });
            Curve::QuaternionShort(v)
        },
        Curve::Vector3Short(mut v) => {
            if v.len() % 2 == 1 {
                v.push(Vector3Short { x: 0, y: 0, z: 0 });
            }
            Curve::Vector3Short(v)
        },
        Curve::Float(v) => Curve::Float(v),
        Curve::RGB(mut v) => {
            let ghost orig = v@;
            while v.len() % 4 != 0
                invariant
                    orig.len() <= v@.len(),
                    orig.len() % 4 == 0 ==> v@.len() == orig.len(),
                    orig.len() % 4 != 0 ==> v@.len() <= orig.len() + 4 - orig.len() % 4,
                    v@ == orig + Seq::new((v@.len() - orig.len()) as nat, |i: int| zero_rgb()),
                decreases orig.len() + 3 - v@.len(),
            {
                v.push(RGB { r: 0, g: 0, b: 0 });
                proof {
                    assert(v@ =~= orig + Seq::new(
                        (v@.len() - orig.len()) as nat,
                        |i: int| zero_rgb(),
                    ));
                }
            }
            proof {
                assert(v@.len() - orig.len() == rgb_pad_count(orig.len()));
                assert(v@ =~= orig + Seq::new(rgb_pad_count(orig.len()), |i: int| zero_rgb()));
            }
            Curve::RGB(v)
        },
    }
}

/// Finalizes an entry: every curve gains its terminator or padding, every
/// header gains the fixed 12-byte size overhead and the final record count,
/// and the curve count is set to the curve list length.
fn finalize_entry(e: AnmEntry) -> (r: AnmEntry)
    requires
        e@.curves.len() == e@.curve_headers.len(),
        e@.curves.len() <= 65535,
        forall|i: int|
            0 <= i < e@.curves.len() ==> finalized_curve(#[trigger] e@.curves[i]).record_count()
                <= 65535,
        forall|i: int|
            0 <= i < e@.curve_headers.len() ==> (#[trigger] e@.curve_headers[i]).curve_size
                <= 65523,
    ensures
        r@ == finalized_entry(e@),
{
    let ghost ev = e@;
    let AnmEntry { coord, entry_format, curve_count: _, curve_headers, mut curves } = e;
    let n = curves.len();
    let mut out_curves: Vec<Curve> = Vec::new();
    let mut out_headers: Vec<CurveHeader> = Vec::new();
    let mut i: usize = 0;
    while i < n
        invariant
            i <= n,
            n == ev.curves.len(),
            n <= 65535,
            curve_headers@ == ev.curve_headers,
            curve_headers@.len() == n,
            curves@.len() == n - i,
            forall|k: int| 0 <= k < n - i ==> (#[trigger] curves@[k])@ == ev.curves[k + i],
            forall|k: int|
                0 <= k < ev.curves.len() ==> finalized_curve(#[trigger] ev.curves[k]).record_count()
                    <= 65535,
            forall|k: int|
                0 <= k < ev.curve_headers.len() ==> (#[trigger] ev.curve_headers[k]).curve_size
                    <= 65523,
            out_curves@.len() == i,
            out_headers@.len() == i,
            forall|k: int|
                0 <= k < i ==> (#[trigger] out_curves@[k])@ == finalized_curve(ev.curves[k]),
            forall|k: int|
                0 <= k < i ==> out_headers@[k] == finalized_header(
                    ev.curve_headers[k],
                    ev.curves[k],
                ),
        decreases n - i,
    {
        let c = curves.remove(0);
        let h = curve_headers[i];
        let fc = finalize_curve(c);
        let rc = curve_record_len(&fc);
        out_headers.push(CurveHeader {
            curve_index: h.curve_index,
            curve_format: h.curve_format,
            frame_count: rc as u16,
            curve_size: h.curve_size + CURVE_HEADER_OVERHEAD,
        });
        out_curves.push(fc);
        i = i + 1;
    }
    let r = AnmEntry {
        coord,
        entry_format,
        curve_count: n as u16,
        curve_headers: out_headers,
        curves: out_curves,
    };
    proof {
        assert(r@ =~~= finalized_entry(ev));
    }
    r
}

/// Converts one object's sample sequence into its finalized entry.  The
/// sequence must be non-empty and homogeneous: every sample carries the
/// variant of the first one.
pub fn convert_entry(samples: &Vec<AnmStrmEntry>) -> (r: AnmEntry)
    requires
        0 < samples@.len() <= 32767,
        homogeneous(samples@),
    ensures
        r@ == converted_entry(samples@),
{
    let coord = samples[0].coord;
    let first = samples[0].entry_data;
    let mut formats: Vec<u16> = Vec::new();
    let curves_raw: Vec<Curve> = match first {
        Entry::Bone(_) => {
            proof {
                assert forall|i: int| 0 <= i < samples@.len() implies (#[trigger] samples@[i].entry_data) is Bone by {
                    assert(same_variant(samples@[i].entry_data, samples@[0].entry_data));
                }
            }
            let p = bone_payloads(samples);
            formats.push(CURVE_FORMAT_INT1_FLOAT3);
            formats.push(CURVE_FORMAT_SHORT4);
            formats.push(CURVE_FORMAT_SHORT3);
            formats.push(CURVE_FORMAT_FLOAT1ALT);
            build_bone_curves(&p)
        },
        Entry::Material(_) => {
            proof {
                assert forall|i: int| 0 <= i < samples@.len() implies (#[trigger] samples@[i].entry_data) is Material by {
                    assert(same_variant(samples@[i].entry_data, samples@[0].entry_data));
                }
            }
            let p = material_payloads(samples);
            let mut c: usize = 0;
            while c < 18
                invariant
                    c <= 18,
                    formats@.len() == c,
                    forall|k: int| 0 <= k < c ==> formats@[k] == material_format(k),
                decreases 18 - c,
            {
                if c >= 16 {
                    formats.push(CURVE_FORMAT_FLOAT1);
                } else if c == 0 || c == 1 || c == 8 || c == 9 {
                    formats.push(CURVE_FORMAT_INT1_FLOAT1);
                } else {
                    formats.push(CURVE_FORMAT_FLOAT1ALT);
                }
                c = c + 1;
            }
            build_material_curves(&p)
        },
        Entry::Camera(_) => {
            proof {
                assert forall|i: int| 0 <= i < samples@.len() implies (#[trigger] samples@[i].entry_data) is Camera by {
                    assert(same_variant(samples@[i].entry_data, samples@[0].entry_data));
                }
            }
            let p = camera_payloads(samples);
            formats.push(CURVE_FORMAT_INT1_FLOAT3);
            formats.push(CURVE_FORMAT_SHORT4);
            formats.push(CURVE_FORMAT_INT1_FLOAT1);
            build_camera_curves(&p)
        },
        Entry::LightDirc(_) => {
            proof {
                assert forall|i: int| 0 <= i < samples@.len() implies (#[trigger] samples@[i].entry_data) is LightDirc by {
                    assert(same_variant(samples@[i].entry_data, samples@[0].entry_data));
                }
            }
            let p = light_dirc_payloads(samples);
            formats.push(CURVE_FORMAT_BYTE3);
            formats.push(CURVE_FORMAT_FLOAT1ALT);
            formats.push(CURVE_FORMAT_SHORT4);
            build_light_dirc_curves(&p)
        },
        Entry::LightPoint(_) => {
            proof {
                assert forall|i: int| 0 <= i < samples@.len() implies (#[trigger] samples@[i].entry_data) is LightPoint by {
                    assert(same_variant(samples@[i].entry_data, samples@[0].entry_data));
                }
            }
            let p = light_point_payloads(samples);
            formats.push(CURVE_FORMAT_BYTE3);
            formats.push(CURVE_FORMAT_FLOAT1ALT);
            formats.push(CURVE_FORMAT_INT1_FLOAT3);
            formats.push(CURVE_FORMAT_FLOAT1ALT);
            formats.push(CURVE_FORMAT_FLOAT1ALT);
            build_light_point_curves(&p)
        },
        Entry::Ambient(_) => {
            proof {
                assert forall|i: int| 0 <= i < samples@.len() implies (#[trigger] samples@[i].entry_data) is Ambient by {
                    assert(same_variant(samples@[i].entry_data, samples@[0].entry_data));
                }
            }
            let p = ambient_payloads(samples);
            formats.push(CURVE_FORMAT_BYTE3);
            formats.push(CURVE_FORMAT_FLOAT1ALT);
            build_ambient_curves(&p)
        },
        Entry::MorphModel(_) => {
            proof {
                assert forall|i: int| 0 <= i < samples@.len() implies (#[trigger] samples@[i].entry_data) is MorphModel by {
                    assert(same_variant(samples@[i].entry_data, samples@[0].entry_data));
                }
            }
            let p = morph_model_payloads(samples);
            formats.push(CURVE_FORMAT_FLOAT1ALT);
            formats.push(CURVE_FORMAT_FLOAT1ALT);
            build_morph_model_curves(&p)
        },
        Entry::Other => Vec::new(),
    };
    proof {
        assert(formats@ =~= variant_formats(first));
        assert(curve_vec_view(curves_raw@) =~~= raw_curves(samples@));
    }
    let headers = build_raw_headers(&formats);
    let entry_format = entry_format_code(&first);
    let e = AnmEntry {
        coord,
        entry_format,
        curve_count: 0,
        curve_headers: headers,
        curves: curves_raw,
    };
    proof {
        assert(e@ =~~= raw_entry(samples@));
        assert forall|i: int| 0 <= i < e@.curves.len() implies finalized_curve(
            #[trigger] e@.curves[i],
        ).record_count() <= 65535 by {
            lemma_raw_curve_counts(samples@, i);
        }
    }
    finalize_entry(e)
}

/// Every raw curve of a convertible sample sequence stays within the header
/// frame-count range even after finalization.
proof fn lemma_raw_curve_counts(s: Seq<AnmStrmEntry>, i: int)
    requires
        0 < s.len() <= 32767,
        0 <= i < raw_curves(s).len(),
    ensures
        finalized_curve(raw_curves(s)[i]).record_count() <= 65535,
{
}

/// Converts every sample group into its entry, in group order.
pub open spec fn converted_entries(gs: Seq<(u16, Seq<AnmStrmEntry>)>) -> Seq<AnmEntryView> {
    Seq::new(gs.len(), |i: int| converted_entry(gs[i].1))
}

/// Whether every sample group is non-empty, bounded, and homogeneous: the
/// domain on which entry conversion is defined.
pub open spec fn groups_convertible(gs: Seq<(u16, Seq<AnmStrmEntry>)>) -> bool {
    forall|i: int|
        0 <= i < gs.len() ==> {
            &&& 0 < (#[trigger] gs[i]).1.len() <= 32767
            &&& homogeneous(gs[i].1)
        }
}

/// Converts the whole sample-group list into the entry list, one entry per
/// group, in group order.
pub fn convert_entries(anmstrm_entries: Vec<(u16, Vec<AnmStrmEntry>)>) -> (r: Vec<AnmEntry>)
    requires
        groups_convertible(groups_view(anmstrm_entries@)),
    ensures
        entry_seq_view(r@) == converted_entries(groups_view(anmstrm_entries@)),
{
    let ghost gs = groups_view(anmstrm_entries@);
    let mut r: Vec<AnmEntry> = Vec::new();
    let mut i: usize = 0;
    while i < anmstrm_entries.len()
        invariant
            i <= anmstrm_entries@.len(),
            gs == groups_view(anmstrm_entries@),
            groups_convertible(gs),
            r@.len() == i,
            forall|k: int| 0 <= k < i ==> (#[trigger] r@[k])@ == converted_entry(gs[k].1),
        decreases anmstrm_entries@.len() - i,
    {
        proof {
            assert(gs[i as int].1 == anmstrm_entries@[i as int].1@);
        }
        let e = convert_entry(&anmstrm_entries[i].1);
        r.push(e);
        i = i + 1;
    }
    proof {
        assert(entry_seq_view(r@) =~= converted_entries(gs));
    }
    r
}

} // verus!
