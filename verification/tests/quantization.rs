//! Quantization behavior: truncating, saturating fixed-point casts computed
//! on float bit patterns, checked against ordinary float arithmetic.

use strm2anm::quant::{quantize_byte255, quantize_fixed16, quantize_quat, quantize_scale};
use strm2anm::types::{Vector3, Vector4};

fn quat_reference(x: f32) -> i16 {
    (x * 16384.0) as i16
}

fn scale_reference(x: f32) -> i16 {
    (x * 4096.0) as i16
}

#[test]
fn quantize_quat_matches_float_cast() {
    // multiplication by a power of two is exact in f32, so the float cast is
    // the ground truth for the bit-level implementation
    let values: [f32; 12] = [
        0.0, 1.0, -1.0, 0.5, -0.5, 0.3, -0.7071, 0.25, 1.5, 2.5, -2.5, 0.9999,
    ];
    for &v in values.iter() {
        assert_eq!(quantize_fixed16(v.to_bits(), 14), quat_reference(v), "value {}", v);
    }
}

#[test]
fn quantize_scale_matches_float_cast() {
    let values: [f32; 8] = [0.0, 1.0, -1.0, 0.5, 3.25, 12.0, -7.5, 0.125];
    for &v in values.iter() {
        assert_eq!(quantize_fixed16(v.to_bits(), 12), scale_reference(v), "value {}", v);
    }
}

#[test]
fn quantize_saturates_and_zeroes_nan() {
    assert_eq!(quantize_fixed16(f32::NAN.to_bits(), 14), 0);
    assert_eq!(quantize_fixed16(f32::INFINITY.to_bits(), 14), 32767);
    assert_eq!(quantize_fixed16(f32::NEG_INFINITY.to_bits(), 14), -32768);
    assert_eq!(quantize_fixed16(1.0e9f32.to_bits(), 14), 32767);
    assert_eq!(quantize_fixed16((-1.0e9f32).to_bits(), 14), -32768);
    assert_eq!(quantize_fixed16(2.5f32.to_bits(), 14), 32767);
    assert_eq!(quantize_fixed16((-3.0f32).to_bits(), 14), -32768);
    // a subnormal scales to well below one and truncates to zero
    assert_eq!(quantize_fixed16(1.0e-40f32.to_bits(), 14), 0);
    assert_eq!(quantize_fixed16((-0.0f32).to_bits(), 14), 0);
}

#[test]
fn quantize_exact_values() {
    assert_eq!(quantize_fixed16(1.0f32.to_bits(), 14), 16384);
    assert_eq!(quantize_fixed16((-1.0f32).to_bits(), 14), -16384);
    assert_eq!(quantize_fixed16(1.0f32.to_bits(), 12), 4096);
    assert_eq!(quantize_fixed16(0.5f32.to_bits(), 14), 8192);
    // 0.3 * 16384 = 4915.2 at full precision; the f32 value of 0.3 is a
    // hair above, and truncation gives 4915 either way
    assert_eq!(quantize_fixed16(0.3f32.to_bits(), 14), 4915);
}

#[test]
fn quantize_color_values() {
    assert_eq!(quantize_byte255(0.0f32.to_bits()), 0);
    assert_eq!(quantize_byte255(1.0f32.to_bits()), 255);
    assert_eq!(quantize_byte255(0.5f32.to_bits()), 127);
    assert_eq!(quantize_byte255(2.0f32.to_bits()), 255);
    assert_eq!(quantize_byte255((-0.5f32).to_bits()), 0);
    assert_eq!(quantize_byte255(f32::NAN.to_bits()), 0);
    assert_eq!(quantize_byte255(f32::INFINITY.to_bits()), 255);
    assert_eq!(quantize_byte255(f32::NEG_INFINITY.to_bits()), 0);
}

#[test]
fn quantize_component_wise() {
    let q = Vector4 {
        x: 1.0f32.to_bits(),
        y: (-0.5f32).to_bits(),
        z: 0.0f32.to_bits(),
        w: 0.25f32.to_bits(),
    };
    let qs = quantize_quat(&q);
    assert_eq!((qs.x, qs.y, qs.z, qs.w), (16384, -8192, 0, 4096));
    let s = Vector3 { x: 1.0f32.to_bits(), y: 2.0f32.to_bits(), z: 0.5f32.to_bits() };
    let ss = quantize_scale(&s);
    assert_eq!((ss.x, ss.y, ss.z), (4096, 8192, 2048));
}

#[test]
fn quantize_round_trip_error_below_one_step() {
    // quantize then dequantize at scale 0x4000: the error stays strictly
    // below one quantization step (1/16384) for every unit-range component
    let values: [f32; 9] = [0.0, 1.0, -1.0, 0.5, -0.5, 0.3, -0.3, 0.7071, -0.9999];
    for &v in values.iter() {
        let q = quantize_fixed16(v.to_bits(), 14);
        let back = (q as f64) / 16384.0;
        assert!(((back - v as f64).abs()) < 1.0 / 16384.0, "value {}", v);
    }
}
