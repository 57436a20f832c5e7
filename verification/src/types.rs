//! Data model of the converter: stream-side sample types, animation-side
//! curve types, and the spec-level views that contracts are stated over.
//!
//! Scalar animation values travel through the converter unchanged, so they
//! are held as raw 32-bit IEEE-754 bit patterns (`u32`).  The only numeric
//! transformations the converter performs — fixed-point quantization of
//! quaternions, scales and colors — are defined over those bit patterns in
//! the `quant` module.

use vstd::prelude::*;

verus! {

// ---------------------------------------------------------------------------
// Named constants of the conversion.
// ---------------------------------------------------------------------------

/// One stream frame equals 100 engine ticks: sample `p` lands on tick `100 * p`.
pub const FRAME_TICK_SCALE: i32 = 100;

/// Stepped material curves pin each value with a second point half a frame
/// (50 ticks) after the first.
pub const STEP_HOLD_OFFSET: i32 = 50;

/// Fixed per-curve-header byte-size overhead added during finalization,
/// independent of the curve's actual frame count or element width.
pub const CURVE_HEADER_OVERHEAD: u16 = 12;

/// Version stamp written into every produced animation.
pub const ANM_VERSION: u16 = 121;

/// A clump whose bone/material index list has exactly this many entries is
/// recognized as the damage-variant skeleton.
pub const DMG_CLUMP_MARKER_LEN: usize = 97;

/// Binary exponent of the quaternion quantization scale (0x4000).
pub const QUAT_QUANT_SHIFT: u32 = 14;

/// Binary exponent of the scale-vector quantization scale (0x1000).
pub const SCALE_QUANT_SHIFT: u32 = 12;

/// Bit pattern of the 32-bit float 0.0.
pub const FLOAT_ZERO_BITS: u32 = 0x0000_0000;

/// Bit pattern of the 32-bit float 1.0.
pub const FLOAT_ONE_BITS: u32 = 0x3F80_0000;

// Entry-format codes of the animation container, one per object variant.
pub const ENTRY_FORMAT_BONE: u16 = 1;
pub const ENTRY_FORMAT_CAMERA: u16 = 2;
pub const ENTRY_FORMAT_MATERIAL: u16 = 4;
pub const ENTRY_FORMAT_LIGHTDIRC: u16 = 5;
pub const ENTRY_FORMAT_LIGHTPOINT: u16 = 6;
pub const ENTRY_FORMAT_AMBIENT: u16 = 8;
pub const ENTRY_FORMAT_MORPHMODEL: u16 = 9;

// Curve-format codes of the animation container's codec.
pub const CURVE_FORMAT_INT1_FLOAT3: u16 = 6;
pub const CURVE_FORMAT_INT1_FLOAT1: u16 = 10;
pub const CURVE_FORMAT_FLOAT1: u16 = 11;
pub const CURVE_FORMAT_FLOAT1ALT: u16 = 12;
pub const CURVE_FORMAT_SHORT3: u16 = 16;
pub const CURVE_FORMAT_SHORT4: u16 = 17;
pub const CURVE_FORMAT_BYTE3: u16 = 20;

// ---------------------------------------------------------------------------
// Plain value types shared by exec code and specifications.
// ---------------------------------------------------------------------------

/// A 3-vector of 32-bit float bit patterns.
#[derive(Clone, Copy, Debug, PartialEq, Eq)]
pub struct Vector3 {
    pub x: u32,
    pub y: u32,
    pub z: u32,
}

/// A 4-vector (quaternion) of 32-bit float bit patterns.
#[derive(Clone, Copy, Debug, PartialEq, Eq)]
pub struct Vector4 {
    pub x: u32,
    pub y: u32,
    pub z: u32,
    pub w: u32,
}

/// An explicit keyframe holding a 3-vector value.
#[derive(Clone, Copy, Debug, PartialEq, Eq)]
pub struct KeyframeVector3 {
    pub frame: i32,
    pub value: Vector3,
}

/// An explicit keyframe holding a scalar value.
#[derive(Clone, Copy, Debug, PartialEq, Eq)]
pub struct KeyframeFloat {
    pub frame: i32,
    pub value: u32,
}

/// A quaternion quantized to 4 signed 16-bit fixed-point components.
#[derive(Clone, Copy, Debug, PartialEq, Eq)]
pub struct QuaternionShort {
    pub x: i16,
    pub y: i16,
    pub z: i16,
    pub w: i16,
}

/// A 3-vector quantized to 3 signed 16-bit fixed-point components.
#[derive(Clone, Copy, Debug, PartialEq, Eq)]
pub struct Vector3Short {
    pub x: i16,
    pub y: i16,
    pub z: i16,
}

/// A color quantized to 3 bytes.
#[derive(Clone, Copy, Debug, PartialEq, Eq)]
pub struct RGB {
    pub r: u8,
    pub g: u8,
    pub b: u8,
}

/// Coordinate key: identifies one animatable object within a clump hierarchy.
#[derive(Clone, Copy, Debug, PartialEq, Eq)]
pub struct AnmCoord {
    pub clump_index: i16,
    pub coord_index: u16,
}

/// A parent-child link of the coordinate hierarchy, copied verbatim.
#[derive(Clone, Copy, Debug, PartialEq, Eq)]
pub struct CoordParent {
    pub parent: AnmCoord,
    pub child: AnmCoord,
}

/// Header describing one curve of an entry: always parallel to the entry's
/// curve list, with `header[i]` describing `curve[i]`.
#[derive(Clone, Copy, Debug, PartialEq, Eq)]
pub struct CurveHeader {
    pub curve_index: u16,
    pub curve_format: u16,
    pub frame_count: u16,
    pub curve_size: u16,
}

// ---------------------------------------------------------------------------
// Stream-side sample types.
// ---------------------------------------------------------------------------

/// One frame's payload for a bone object.
#[derive(Clone, Copy, Debug, PartialEq, Eq)]
pub struct EntryBone {
    pub location: Vector3,
    pub rotation: Vector4,
    pub scale: Vector3,
    pub toggled: u32,
}

/// One frame's payload for a material object: 16 color channels.
#[derive(Clone, Copy, Debug, PartialEq, Eq)]
pub struct EntryMaterial {
    pub ambient_color: [u32; 16],
}

/// One frame's payload for a camera object.
#[derive(Clone, Copy, Debug, PartialEq, Eq)]
pub struct EntryCamera {
    pub location: Vector3,
    pub rotation: Vector4,
    pub fov: u32,
}

/// One frame's payload for a directional light.
#[derive(Clone, Copy, Debug, PartialEq, Eq)]
pub struct EntryLightDirc {
    pub color: Vector3,
    pub intensity: u32,
    pub direction: Vector4,
}

/// One frame's payload for a point light.
#[derive(Clone, Copy, Debug, PartialEq, Eq)]
pub struct EntryLightPoint {
    pub color: Vector3,
    pub intensity: u32,
    pub position: Vector3,
    pub radius: u32,
    pub falloff: u32,
}

/// One frame's payload for an ambient light.
#[derive(Clone, Copy, Debug, PartialEq, Eq)]
pub struct EntryAmbient {
    pub color: Vector3,
    pub intensity: u32,
}

/// One frame's payload for a morph model: 2 morph weights.
#[derive(Clone, Copy, Debug, PartialEq, Eq)]
pub struct EntryMorphModel {
    pub morph_weight: [u32; 2],
}

/// One frame's typed payload for one object.  `Other` covers the variants
/// that are recognized but not convertible; their samples are dropped.
#[derive(Clone, Copy, Debug, PartialEq, Eq)]
pub enum Entry {
    Bone(EntryBone),
    Material(EntryMaterial),
    Camera(EntryCamera),
    LightDirc(EntryLightDirc),
    LightPoint(EntryLightPoint),
    Ambient(EntryAmbient),
    MorphModel(EntryMorphModel),
    Other,
}

/// One object's snapshot in one frame: its coordinate key plus payload.
#[derive(Clone, Copy, Debug, PartialEq, Eq)]
pub struct AnmStrmEntry {
    pub coord: AnmCoord,
    pub entry_data: Entry,
}

/// One stream frame: a fixed-length ordered list of object snapshots.
#[derive(Clone, Debug, PartialEq, Eq)]
pub struct AnmStrmFrame {
    pub entries: Vec<AnmStrmEntry>,
}

impl View for AnmStrmFrame {
    type V = Seq<AnmStrmEntry>;

    open spec fn view(&self) -> Seq<AnmStrmEntry> {
        self.entries@
    }
}

/// A clump: a named grouping of objects, copied verbatim from the input.
#[derive(Clone, Debug, PartialEq, Eq)]
pub struct AnmClump {
    pub clump_index: u32,
    pub bone_material_indices: Vec<u32>,
    pub model_indices: Vec<u32>,
}

/// Spec-level image of an `AnmClump`.
#[verifier::ext_equal]
pub struct AnmClumpView {
    pub clump_index: u32,
    pub bone_material_indices: Seq<u32>,
    pub model_indices: Seq<u32>,
}

impl View for AnmClump {
    type V = AnmClumpView;

    open spec fn view(&self) -> AnmClumpView {
        AnmClumpView {
            clump_index: self.clump_index,
            bone_material_indices: self.bone_material_indices@,
            model_indices: self.model_indices@,
        }
    }
}

/// The parsed stream summary plus its ordered frames: everything the
/// conversion consumes.
#[derive(Clone, Debug, PartialEq, Eq)]
pub struct AnmStrm {
    pub frame_count: u32,
    pub is_looped: bool,
    pub clumps: Vec<AnmClump>,
    pub coord_parents: Vec<CoordParent>,
    pub other_entry_indices: Vec<u32>,
    pub frames: Vec<AnmStrmFrame>,
}

/// Spec-level image of an `AnmStrm`.
#[verifier::ext_equal]
pub struct AnmStrmView {
    pub frame_count: u32,
    pub is_looped: bool,
    pub clumps: Seq<AnmClumpView>,
    pub coord_parents: Seq<CoordParent>,
    pub other_entry_indices: Seq<u32>,
    pub frames: Seq<Seq<AnmStrmEntry>>,
}

impl View for AnmStrm {
    type V = AnmStrmView;

    open spec fn view(&self) -> AnmStrmView {
        AnmStrmView {
            frame_count: self.frame_count,
            is_looped: self.is_looped,
            clumps: Seq::new(self.clumps@.len(), |i: int| self.clumps@[i]@),
            coord_parents: self.coord_parents@,
            other_entry_indices: self.other_entry_indices@,
            frames: Seq::new(self.frames@.len(), |i: int| self.frames@[i]@),
        }
    }
}

// ---------------------------------------------------------------------------
// Animation-side curve types.
// ---------------------------------------------------------------------------

/// A homogeneous sequence of curve records of one kind.
#[derive(Clone, Debug, PartialEq, Eq)]
pub enum Curve {
    KeyframeVector3(Vec<KeyframeVector3>),
    KeyframeFloat(Vec<KeyframeFloat>),
    Float(Vec<u32>),
    QuaternionShort(Vec<QuaternionShort>),
    Vector3Short(Vec<Vector3Short>),
    RGB(Vec<RGB>),
}

/// Spec-level image of a `Curve`.
#[verifier::ext_equal]
pub enum CurveView {
    KeyframeVector3(Seq<KeyframeVector3>),
    KeyframeFloat(Seq<KeyframeFloat>),
    Float(Seq<u32>),
    QuaternionShort(Seq<QuaternionShort>),
    Vector3Short(Seq<Vector3Short>),
    RGB(Seq<RGB>),
}

impl View for Curve {
    type V = CurveView;

    open spec fn view(&self) -> CurveView {
        match self {
            Curve::KeyframeVector3(v) => CurveView::KeyframeVector3(v@),
            Curve::KeyframeFloat(v) => CurveView::KeyframeFloat(v@),
            Curve::Float(v) => CurveView::Float(v@),
            Curve::QuaternionShort(v) => CurveView::QuaternionShort(v@),
            Curve::Vector3Short(v) => CurveView::Vector3Short(v@),
            Curve::RGB(v) => CurveView::RGB(v@),
        }
    }
}

impl CurveView {
    /// Number of records the curve holds.
    pub open spec fn record_count(self) -> nat {
        match self {
            CurveView::KeyframeVector3(v) => v.len(),
            CurveView::KeyframeFloat(v) => v.len(),
            CurveView::Float(v) => v.len(),
            CurveView::QuaternionShort(v) => v.len(),
            CurveView::Vector3Short(v) => v.len(),
            CurveView::RGB(v) => v.len(),
        }
    }
}

/// One converted entry: coordinate key, object-variant format code, and the
/// parallel curve-header and curve lists.
#[derive(Clone, Debug, PartialEq, Eq)]
pub struct AnmEntry {
    pub coord: AnmCoord,
    pub entry_format: u16,
    pub curve_count: u16,
    pub curve_headers: Vec<CurveHeader>,
    pub curves: Vec<Curve>,
}

/// Spec-level image of an `AnmEntry`.
#[verifier::ext_equal]
pub struct AnmEntryView {
    pub coord: AnmCoord,
    pub entry_format: u16,
    pub curve_count: u16,
    pub curve_headers: Seq<CurveHeader>,
    pub curves: Seq<CurveView>,
}

impl View for AnmEntry {
    type V = AnmEntryView;

    open spec fn view(&self) -> AnmEntryView {
        AnmEntryView {
            coord: self.coord,
            entry_format: self.entry_format,
            curve_count: self.curve_count,
            curve_headers: self.curve_headers@,
            curves: Seq::new(self.curves@.len(), |i: int| self.curves@[i]@),
        }
    }
}

impl AnmEntryView {
    /// The entry invariant: the stated curve count and both parallel lists
    /// agree in length.
    pub open spec fn wf(self) -> bool {
        &&& self.curve_count == self.curve_headers.len()
        &&& self.curve_headers.len() == self.curves.len()
    }
}

/// A produced animation object: copied metadata plus the converted entries.
#[derive(Clone, Debug, PartialEq, Eq)]
pub struct Anm {
    pub version: u16,
    pub frame_count: u32,
    pub is_looped: bool,
    pub clumps: Vec<AnmClump>,
    pub other_entries_indices: Vec<u32>,
    pub unk_entry_indices: Vec<u32>,
    pub coord_parents: Vec<CoordParent>,
    pub entries: Vec<AnmEntry>,
}

/// Spec-level image of an `Anm`.
#[verifier::ext_equal]
pub struct AnmView {
    pub version: u16,
    pub frame_count: u32,
    pub is_looped: bool,
    pub clumps: Seq<AnmClumpView>,
    pub other_entries_indices: Seq<u32>,
    pub unk_entry_indices: Seq<u32>,
    pub coord_parents: Seq<CoordParent>,
    pub entries: Seq<AnmEntryView>,
}

impl View for Anm {
    type V = AnmView;

    open spec fn view(&self) -> AnmView {
        AnmView {
            version: self.version,
            frame_count: self.frame_count,
            is_looped: self.is_looped,
            clumps: Seq::new(self.clumps@.len(), |i: int| self.clumps@[i]@),
            other_entries_indices: self.other_entries_indices@,
            unk_entry_indices: self.unk_entry_indices@,
            coord_parents: self.coord_parents@,
            entries: Seq::new(self.entries@.len(), |i: int| self.entries@[i]@),
        }
    }
}

// ---------------------------------------------------------------------------
// Variant tags.
// ---------------------------------------------------------------------------

/// The entry-format code a sample's variant maps to; 0 for `Other`.
pub open spec fn entry_format_of(e: Entry) -> u16 {
    match e {
        Entry::Bone(_) => ENTRY_FORMAT_BONE,
        Entry::Material(_) => ENTRY_FORMAT_MATERIAL,
        Entry::Camera(_) => ENTRY_FORMAT_CAMERA,
        Entry::LightDirc(_) => ENTRY_FORMAT_LIGHTDIRC,
        Entry::LightPoint(_) => ENTRY_FORMAT_LIGHTPOINT,
        Entry::Ambient(_) => ENTRY_FORMAT_AMBIENT,
        Entry::MorphModel(_) => ENTRY_FORMAT_MORPHMODEL,
        Entry::Other => 0,
    }
}

/// Whether a sample's variant is convertible.
pub open spec fn is_supported(e: Entry) -> bool {
    !(e is Other)
}

/// Whether two samples carry the same object-variant tag.
pub open spec fn same_variant(a: Entry, b: Entry) -> bool {
    entry_format_of(a) == entry_format_of(b)
}

/// Spec-level image of a curve list.
pub open spec fn curve_vec_view(cs: Seq<Curve>) -> Seq<CurveView> {
    Seq::new(cs.len(), |i: int| cs[i]@)
}

/// Spec-level image of an entry list.
pub open spec fn entry_seq_view(es: Seq<AnmEntry>) -> Seq<AnmEntryView> {
    Seq::new(es.len(), |i: int| es[i]@)
}

/// Spec-level image of a clump list.
pub open spec fn clump_seq_view(cs: Seq<AnmClump>) -> Seq<AnmClumpView> {
    Seq::new(cs.len(), |i: int| cs[i]@)
}

} // verus!
