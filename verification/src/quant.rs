//! Fixed-point quantization of 32-bit float values, computed exactly on
//! their IEEE-754 bit patterns.
//!
//! The converter scales a float by a power of two (0x4000 for quaternion
//! components, 0x1000 for scale components) or by 255 (for color channels)
//! and truncates the scaled value toward zero, saturating at the target
//! type's bounds; a NaN quantizes to 0.  Because the inputs are held as bit
//! patterns, all of this is integer arithmetic on the sign, exponent and
//! significand fields, and is specified and verified exactly.

use vstd::prelude::*;
use vstd::arithmetic::power2::{pow2, lemma_pow2_adds, lemma_pow2_pos, lemma2_to64, lemma2_to64_rest, lemma_pow2_strictly_increases};
use vstd::arithmetic::div_mod::{lemma_basic_div, lemma_fundamental_div_mod, lemma_div_is_ordered};
use vstd::arithmetic::mul::{lemma_mul_inequality, lemma_mul_is_associative, lemma_mul_unary_negation};
use vstd::bits::{lemma_u64_shl_is_mul, lemma_u64_shr_is_div};
use vstd::math::abs;
use crate::types::{Vector3, Vector4, QuaternionShort, Vector3Short, RGB, QUAT_QUANT_SHIFT, SCALE_QUANT_SHIFT};

verus! {

// ---------------------------------------------------------------------------
// The IEEE-754 single-precision fields of a bit pattern.
// ---------------------------------------------------------------------------

/// Sign bit of the float encoded by `b`.
pub open spec fn f32_sign(b: u32) -> bool {
    b & 0x8000_0000 == 0x8000_0000
}

/// Biased exponent field of the float encoded by `b`.
pub open spec fn f32_exp(b: u32) -> u32 {
    (b >> 23u32) & 0xFF
}

/// Fraction (trailing significand) field of the float encoded by `b`.
pub open spec fn f32_frac(b: u32) -> u32 {
    b & 0x007F_FFFF
}

/// Whether `b` encodes a NaN.
pub open spec fn f32_is_nan(b: u32) -> bool {
    f32_exp(b) == 255 && f32_frac(b) != 0
}

/// Whether `b` encodes an infinity.
pub open spec fn f32_is_inf(b: u32) -> bool {
    f32_exp(b) == 255 && f32_frac(b) == 0
}

/// Whether `b` encodes a finite value.
pub open spec fn f32_is_finite(b: u32) -> bool {
    f32_exp(b) != 255
}

/// Integer significand of a finite float: the fraction with the implicit
/// leading bit added for normal numbers.
pub open spec fn f32_sig(b: u32) -> nat {
    if f32_exp(b) == 0 {
        f32_frac(b) as nat
    } else {
        (f32_frac(b) + 0x0080_0000) as nat
    }
}

/// Effective biased exponent of a finite float: subnormals share the
/// exponent of the smallest normals.
pub open spec fn f32_bexp(b: u32) -> nat {
    if f32_exp(b) == 0 {
        1
    } else {
        f32_exp(b) as nat
    }
}

/// The exact value encoded by a finite `b`, scaled by 2^149 so that it is an
/// integer: a finite float's value is `sig * 2^(bexp - 150)` up to sign.
pub open spec fn f32_val149(b: u32) -> int {
    let mag = f32_sig(b) * pow2((f32_bexp(b) - 1) as nat);
    if f32_sign(b) {
        -(mag as int)
    } else {
        mag as int
    }
}

// ---------------------------------------------------------------------------
// Truncating quantization, specified.
// ---------------------------------------------------------------------------

/// Magnitude of the float's value scaled by 2^k and truncated toward zero:
/// `sig * 2^(bexp + k - 150)`, with a negative power of two acting as a
/// flooring division of the (non-negative) magnitude.
pub open spec fn trunc_mag_pow2(b: u32, k: nat) -> nat {
    if f32_bexp(b) + k >= 150 {
        f32_sig(b) * pow2((f32_bexp(b) + k - 150) as nat)
    } else {
        f32_sig(b) / pow2((150 - f32_bexp(b) - k) as nat)
    }
}

/// Magnitude of the float's value scaled by 255 and truncated toward zero.
pub open spec fn trunc_mag_255(b: u32) -> nat {
    if f32_bexp(b) >= 150 {
        (f32_sig(b) * 255) * pow2((f32_bexp(b) - 150) as nat)
    } else {
        (f32_sig(b) * 255) / pow2((150 - f32_bexp(b)) as nat)
    }
}

/// The float encoded by `b`, scaled by 2^k and converted to `i16` with
/// truncating, saturating cast semantics: NaN gives 0, values past the type's
/// bounds saturate.
pub open spec fn quantize_i16(b: u32, k: nat) -> int {
    if f32_is_nan(b) {
        0
    } else if f32_sign(b) {
        if f32_is_inf(b) || trunc_mag_pow2(b, k) >= 32768 {
            -32768
        } else {
            -(trunc_mag_pow2(b, k) as int)
        }
    } else {
        if f32_is_inf(b) || trunc_mag_pow2(b, k) >= 32767 {
            32767
        } else {
            trunc_mag_pow2(b, k) as int
        }
    }
}

/// The float encoded by `b`, scaled by 255 and converted to `u8` with
/// truncating, saturating cast semantics: NaN and all negative values give 0.
pub open spec fn quantize_u8_255(b: u32) -> int {
    if f32_is_nan(b) {
        0
    } else if f32_sign(b) {
        0
    } else if f32_is_inf(b) || trunc_mag_255(b) >= 255 {
        255
    } else {
        trunc_mag_255(b) as int
    }
}

/// A quaternion quantized component-wise at scale 0x4000.
pub open spec fn quantized_quat(q: Vector4) -> QuaternionShort {
    QuaternionShort {
        x: quantize_i16(q.x, 14) as i16,
        y: quantize_i16(q.y, 14) as i16,
        z: quantize_i16(q.z, 14) as i16,
        w: quantize_i16(q.w, 14) as i16,
    }
}

/// A scale vector quantized component-wise at scale 0x1000.
pub open spec fn quantized_scale(v: Vector3) -> Vector3Short {
    Vector3Short {
        x: quantize_i16(v.x, 12) as i16,
        y: quantize_i16(v.y, 12) as i16,
        z: quantize_i16(v.z, 12) as i16,
    }
}

/// A unit color vector quantized component-wise to bytes.
pub open spec fn quantized_rgb(c: Vector3) -> RGB {
    RGB {
        r: quantize_u8_255(c.x) as u8,
        g: quantize_u8_255(c.y) as u8,
        b: quantize_u8_255(c.z) as u8,
    }
}

// ---------------------------------------------------------------------------
// Executable quantization.
// ---------------------------------------------------------------------------

/// Scales the float encoded by `bits` by 2^shift and truncates it to `i16`
/// with saturating cast semantics, entirely in integer arithmetic.
pub fn quantize_fixed16(bits: u32, shift: u32) -> (r: i16)
    requires
        shift <= 30,
    ensures
        r as int == quantize_i16(bits, shift as nat),
{
    let exp: u32 = (bits >> 23u32) & 0xFF;
    let frac: u32 = bits & 0x007F_FFFF;
    let neg: bool = (bits & 0x8000_0000) == 0x8000_0000;
    if exp == 255 {
        if frac != 0 {
            0
        } else if neg {
            -32768
        } else {
            32767
        }
    } else {
        proof {
            assert(bits & 0x007F_FFFF < 0x0080_0000) by (bit_vector);
            assert((bits >> 23u32) & 0xFF < 256) by (bit_vector);
        }
        let sig: u64 = (if exp == 0 { frac } else { frac + 0x0080_0000 }) as u64;
        let bexp: u32 = if exp == 0 { 1 } else { exp };
        proof {
            assert(sig == f32_sig(bits) && bexp == f32_bexp(bits) && neg == f32_sign(bits)
                && f32_is_finite(bits));
        }
        let mag: u64 = if bexp + shift >= 150 {
            let sh: u32 = bexp + shift - 150;
            if sig == 0 {
                proof {
                    assert(trunc_mag_pow2(bits, shift as nat) == 0);
                }
                0
            } else if sh >= 16 {
                proof {
                    if sh > 16 {
                        lemma_pow2_strictly_increases(16, sh as nat);
                    }
                    lemma2_to64();
                    assert(pow2(sh as nat) >= 65536);
                    lemma_mul_inequality(1, sig as int, pow2(sh as nat) as int);
                    lemma_pow2_pos(sh as nat);
                    assert(trunc_mag_pow2(bits, shift as nat) >= 65536);
                }
                65536
            } else {
                proof {
                    lemma_pow2_strictly_increases(sh as nat, 16);
                    lemma2_to64();
                    assert(sig * pow2(sh as nat) <= u64::MAX) by (nonlinear_arith)
                        requires
                            sig < 0x0100_0000,
                            pow2(sh as nat) <= 65536,
                    ;
                    lemma_u64_shl_is_mul(sig, sh as u64);
                    assert((sig << (sh as u64)) == trunc_mag_pow2(bits, shift as nat));
                }
                sig << (sh as u64)
            }
        } else {
            let sh: u32 = 150 - bexp - shift;
            if sh >= 25 {
                proof {
                    lemma_pow2_strictly_increases(24, sh as nat);
                    lemma2_to64();
                    lemma_basic_div(sig as int, pow2(sh as nat) as int);
                    assert(trunc_mag_pow2(bits, shift as nat) == 0);
                }
                0
            } else {
                proof {
                    lemma_u64_shr_is_div(sig, sh as u64);
                    assert((sig >> (sh as u64)) == trunc_mag_pow2(bits, shift as nat));
                }
                sig >> (sh as u64)
            }
        };
        if neg {
            if mag >= 32768 {
                -32768
            } else {
                -(mag as i16)
            }
        } else {
            if mag >= 32767 {
                32767
            } else {
                mag as i16
            }
        }
    }
}

/// Scales the float encoded by `bits` by 255 and truncates it to `u8` with
/// saturating cast semantics, entirely in integer arithmetic.
pub fn quantize_byte255(bits: u32) -> (r: u8)
    ensures
        r as int == quantize_u8_255(bits),
{
    let exp: u32 = (bits >> 23u32) & 0xFF;
    let frac: u32 = bits & 0x007F_FFFF;
    let neg: bool = (bits & 0x8000_0000) == 0x8000_0000;
    if exp == 255 {
        if frac != 0 {
            0
        } else if neg {
            0
        } else {
            255
        }
    } else if neg {
        0
    } else {
        proof {
            assert(bits & 0x007F_FFFF < 0x0080_0000) by (bit_vector);
            assert((bits >> 23u32) & 0xFF < 256) by (bit_vector);
        }
        let sig: u64 = (if exp == 0 { frac } else { frac + 0x0080_0000 }) as u64;
        let bexp: u32 = if exp == 0 { 1 } else { exp };
        proof {
            assert(sig == f32_sig(bits) && bexp == f32_bexp(bits) && !f32_sign(bits)
                && f32_is_finite(bits));
        }
        let p: u64 = sig * 255;
        let mag: u64 = if bexp >= 150 {
            let sh: u32 = bexp - 150;
            if p == 0 {
                proof {
                    assert(trunc_mag_255(bits) == 0);
                }
                0
            } else if sh >= 9 {
                proof {
                    if sh > 9 {
                        lemma_pow2_strictly_increases(9, sh as nat);
                    }
                    lemma2_to64();
                    assert(pow2(sh as nat) >= 512);
                    lemma_mul_inequality(1, p as int, pow2(sh as nat) as int);
                    lemma_pow2_pos(sh as nat);
                    assert(trunc_mag_255(bits) >= 512);
                }
                256
            } else {
                proof {
                    lemma_pow2_strictly_increases(sh as nat, 9);
                    lemma2_to64();
                    assert(p * pow2(sh as nat) <= u64::MAX) by (nonlinear_arith)
                        requires
                            p < 0x1_0000_0000,
                            pow2(sh as nat) <= 512,
                    ;
                    lemma_u64_shl_is_mul(p, sh as u64);
                    assert((p << (sh as u64)) == trunc_mag_255(bits));
                }
                p << (sh as u64)
            }
        } else {
            let sh: u32 = 150 - bexp;
            if sh >= 32 {
                proof {
                    if sh > 32 {
                        lemma_pow2_strictly_increases(32, sh as nat);
                    }
                    lemma2_to64();
                    lemma2_to64_rest();
                    assert(pow2(sh as nat) >= 0x1_0000_0000);
                    lemma_basic_div(p as int, pow2(sh as nat) as int);
                    assert(trunc_mag_255(bits) == 0);
                }
                0
            } else {
                proof {
                    lemma_u64_shr_is_div(p, sh as u64);
                    assert((p >> (sh as u64)) == trunc_mag_255(bits));
                }
                p >> (sh as u64)
            }
        };
        if mag >= 255 {
            255
        } else {
            mag as u8
        }
    }
}

/// Quantizes a quaternion component-wise at scale 0x4000.
pub fn quantize_quat(q: &Vector4) -> (r: QuaternionShort)
    ensures
        r == quantized_quat(*q),
{
    QuaternionShort {
        x: quantize_fixed16(q.x, QUAT_QUANT_SHIFT),
        y: quantize_fixed16(q.y, QUAT_QUANT_SHIFT),
        z: quantize_fixed16(q.z, QUAT_QUANT_SHIFT),
        w: quantize_fixed16(q.w, QUAT_QUANT_SHIFT),
    }
}

/// Quantizes a scale vector component-wise at scale 0x1000.
pub fn quantize_scale(v: &Vector3) -> (r: Vector3Short)
    ensures
        r == quantized_scale(*v),
{
    Vector3Short {
        x: quantize_fixed16(v.x, SCALE_QUANT_SHIFT),
        y: quantize_fixed16(v.y, SCALE_QUANT_SHIFT),
        z: quantize_fixed16(v.z, SCALE_QUANT_SHIFT),
    }
}

/// Quantizes a unit color vector component-wise to bytes.
pub fn quantize_rgb(c: &Vector3) -> (r: RGB)
    ensures
        r == quantized_rgb(*c),
{
    RGB {
        r: quantize_byte255(c.x),
        g: quantize_byte255(c.y),
        b: quantize_byte255(c.z),
    }
}

// ---------------------------------------------------------------------------
// Round-trip accuracy of quaternion quantization.
// ---------------------------------------------------------------------------

/// The value of a quantized component divided back by 0x4000, scaled by
/// 2^149 like `f32_val149`: `q / 2^14 * 2^149 == q * 2^135`.
pub open spec fn dequantized14_val149(q: int) -> int {
    q * pow2(135)
}

/// Quantizing a quaternion component at scale 0x4000 and dividing back by
/// 0x4000 recovers the component to within one quantization step: for every
/// finite value of magnitude at most 1, the round-trip error is strictly
/// below 2^-14 (stated here with both sides scaled by 2^149).
pub proof fn lemma_quat_quant_round_trip(b: u32)
    requires
        f32_is_finite(b),
        -pow2(149) <= f32_val149(b) <= pow2(149),
    ensures
        abs(dequantized14_val149(quantize_i16(b, 14)) - f32_val149(b)) < pow2(135),
{
    let sig = f32_sig(b) as int;
    let bexp = f32_bexp(b);
    let mag149 = sig * pow2((bexp - 1) as nat);
    lemma_pow2_pos((bexp - 1) as nat);
    lemma_pow2_pos(135);
    lemma_pow2_pos(149);
    assert(mag149 <= pow2(149));
    if bexp + 14 >= 150 {
        let sh = (bexp + 14 - 150) as nat;
        let mag = sig * pow2(sh);
        assert(trunc_mag_pow2(b, 14) == mag);
        // mag * 2^135 == sig * 2^(bexp - 1) == |value| * 2^149, exactly.
        assert(mag * pow2(135) == mag149) by {
            lemma_pow2_adds(sh, 135);
            lemma_mul_is_associative(sig, pow2(sh) as int, pow2(135) as int);
        }
        // no saturation: mag <= 2^14
        assert(mag <= pow2(14)) by {
            lemma_pow2_adds(14, 135);
            assert(mag <= pow2(14)) by (nonlinear_arith)
                requires
                    mag * pow2(135) == mag149,
                    mag149 <= pow2(149),
                    pow2(149) == pow2(14) * pow2(135),
                    pow2(135) > 0,
                    mag >= 0,
            ;
        }
        assert(pow2(14) == 16384) by {
            lemma2_to64();
        }
        assert(quantize_i16(b, 14) == if f32_sign(b) { -mag } else { mag });
        assert(abs(dequantized14_val149(quantize_i16(b, 14)) - f32_val149(b)) == 0) by {
            if f32_sign(b) {
                lemma_mul_unary_negation(mag, pow2(135) as int);
            }
        }
    } else {
        let sh = (150 - bexp - 14) as nat;
        let mag = sig / pow2(sh) as int;
        assert(trunc_mag_pow2(b, 14) == mag);
        lemma_pow2_pos(sh);
        lemma_fundamental_div_mod(sig, pow2(sh) as int);
        let r = sig % pow2(sh) as int;
        assert(sig == pow2(sh) * mag + r);
        assert(0 <= r < pow2(sh));
        // 135 - sh == bexp - 1, so multiplying the division identity by
        // 2^(bexp - 1) relates mag * 2^135 to sig * 2^(bexp - 1).
        assert(sh + (bexp - 1) == 135);
        assert(pow2(sh) * pow2((bexp - 1) as nat) == pow2(135)) by {
            lemma_pow2_adds(sh, (bexp - 1) as nat);
        }
        assert(mag * pow2(135) == (pow2(sh) * mag) * pow2((bexp - 1) as nat)) by (nonlinear_arith)
            requires
                pow2(sh) * pow2((bexp - 1) as nat) == pow2(135),
        ;
        assert(mag149 - mag * pow2(135) == r * pow2((bexp - 1) as nat)) by (nonlinear_arith)
            requires
                sig == pow2(sh) * mag + r,
                mag * pow2(135) == (pow2(sh) * mag) * pow2((bexp - 1) as nat),
                mag149 == sig * pow2((bexp - 1) as nat),
        ;
        assert(0 <= r * pow2((bexp - 1) as nat) < pow2(135)) by (nonlinear_arith)
            requires
                0 <= r < pow2(sh),
                pow2(sh) * pow2((bexp - 1) as nat) == pow2(135),
                pow2((bexp - 1) as nat) > 0,
        ;
        // no saturation: mag <= 2^14 because sig * 2^(bexp-1) <= 2^149
        assert(mag <= pow2(14)) by {
            assert(sig <= pow2((150 - bexp) as nat)) by {
                lemma_pow2_adds((150 - bexp) as nat, (bexp - 1) as nat);
                assert(sig <= pow2((150 - bexp) as nat)) by (nonlinear_arith)
                    requires
                        sig * pow2((bexp - 1) as nat) == mag149,
                        mag149 <= pow2(149),
                        pow2(149) == pow2((150 - bexp) as nat) * pow2((bexp - 1) as nat),
                        pow2((bexp - 1) as nat) > 0,
                        sig >= 0,
                ;
            }
            assert(pow2((150 - bexp) as nat) == pow2(sh) * pow2(14)) by {
                lemma_pow2_adds(sh, 14);
            }
            lemma_div_is_ordered(sig, (pow2(sh) * pow2(14)) as int, pow2(sh) as int);
            assert(((pow2(sh) * pow2(14)) as int) / (pow2(sh) as int) == pow2(14)) by (nonlinear_arith)
                requires
                    pow2(sh) > 0,
            ;
        }
        assert(pow2(14) == 16384) by {
            lemma2_to64();
        }
        assert(quantize_i16(b, 14) == if f32_sign(b) { -mag } else { mag });
        if f32_sign(b) {
            lemma_mul_unary_negation(mag, pow2(135) as int);
            assert(abs(dequantized14_val149(quantize_i16(b, 14)) - f32_val149(b)) == abs(
                -(mag * pow2(135)) + mag149));
        }
    }
}

} // verus!
