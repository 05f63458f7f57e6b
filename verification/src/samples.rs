//! Arithmetic on 32-bit float PCM samples, carried as `u32` bit patterns.
//!
//! The converter needs exactly two arithmetic operations on samples: the
//! stereo-to-mono average `(l + r) * 0.5` and the linear interpolation
//! `s0 + frac * (s1 - s0)`.  Both are built here from IEEE-754 primitives
//! computed in software by `rustc_apfloat`, which operates directly on bit
//! patterns and rounds to nearest-even exactly as hardware binary32 and
//! binary64 arithmetic does.  Each primitive's result is a pure function of
//! its operand bits and is given a name below; everything above the
//! primitives is verified.

use vstd::prelude::*;

use rustc_apfloat::Float;
use rustc_apfloat::FloatConvert;

verus! {

/// The IEEE binary32 sum of two samples given as bit patterns.
pub uninterp spec fn f32_add_bits(a: u32, b: u32) -> u32;

/// The IEEE binary32 difference of two samples given as bit patterns.
pub uninterp spec fn f32_sub_bits(a: u32, b: u32) -> u32;

/// The IEEE binary32 product of two samples given as bit patterns.
pub uninterp spec fn f32_mul_bits(a: u32, b: u32) -> u32;

/// The IEEE binary64 value of a 32-bit unsigned integer, as bit pattern.
pub uninterp spec fn f64_of_u32(n: u32) -> u64;

/// The IEEE binary64 quotient of two values given as bit patterns.
pub uninterp spec fn f64_div_bits(a: u64, b: u64) -> u64;

/// The IEEE binary32 value nearest to a binary64 value, as bit patterns.
pub uninterp spec fn f32_of_f64(x: u64) -> u32;

/// Relies on rustc_apfloat's `Single` addition (`Float::add_r` through
/// `core::ops::Add`, rounding to nearest-even): IEEE binary32 `a + b` on
/// bit patterns.
#[verifier::external_body]
fn f32_add(a: u32, b: u32) -> (r: u32)
    ensures
        r == f32_add_bits(a, b),
{
    let x = rustc_apfloat::ieee::Single::from_bits(a as u128);
    let y = rustc_apfloat::ieee::Single::from_bits(b as u128);
    (x + y).value.to_bits() as u32
}

/// Relies on rustc_apfloat's `Single` subtraction (`Float::sub_r` through
/// `core::ops::Sub`, rounding to nearest-even): IEEE binary32 `a - b` on
/// bit patterns.
#[verifier::external_body]
fn f32_sub(a: u32, b: u32) -> (r: u32)
    ensures
        r == f32_sub_bits(a, b),
{
    let x = rustc_apfloat::ieee::Single::from_bits(a as u128);
    let y = rustc_apfloat::ieee::Single::from_bits(b as u128);
    (x - y).value.to_bits() as u32
}

/// Relies on rustc_apfloat's `Single` multiplication (`Float::mul_r` through
/// `core::ops::Mul`, rounding to nearest-even): IEEE binary32 `a * b` on
/// bit patterns.
#[verifier::external_body]
fn f32_mul(a: u32, b: u32) -> (r: u32)
    ensures
        r == f32_mul_bits(a, b),
{
    let x = rustc_apfloat::ieee::Single::from_bits(a as u128);
    let y = rustc_apfloat::ieee::Single::from_bits(b as u128);
    (x * y).value.to_bits() as u32
}

/// Relies on rustc_apfloat's `Float::from_u128` for `Double`: the IEEE
/// binary64 value of `n` (exact, since `n < 2^32 < 2^53`), as bit pattern.
#[verifier::external_body]
fn f64_from_u32(n: u32) -> (r: u64)
    ensures
        r == f64_of_u32(n),
{
    rustc_apfloat::ieee::Double::from_u128(n as u128).value.to_bits() as u64
}

/// Relies on rustc_apfloat's `Double` division (`Float::div_r` through
/// `core::ops::Div`, rounding to nearest-even): IEEE binary64 `a / b` on
/// bit patterns.
#[verifier::external_body]
fn f64_div(a: u64, b: u64) -> (r: u64)
    ensures
        r == f64_div_bits(a, b),
{
    let x = rustc_apfloat::ieee::Double::from_bits(a as u128);
    let y = rustc_apfloat::ieee::Double::from_bits(b as u128);
    (x / y).value.to_bits() as u64
}

/// Relies on rustc_apfloat's `FloatConvert::convert` from `Double` to
/// `Single` (rounding to nearest-even): the IEEE binary32 value nearest to
/// a binary64 value, on bit patterns.
#[verifier::external_body]
fn f64_to_f32(x: u64) -> (r: u32)
    ensures
        r == f32_of_f64(x),
{
    let d = rustc_apfloat::ieee::Double::from_bits(x as u128);
    let mut loses_info = false;
    let s: rustc_apfloat::StatusAnd<rustc_apfloat::ieee::Single> = d.convert(&mut loses_info);
    s.value.to_bits() as u32
}

/// The stereo-to-mono downmix `(l + r) * 0.5`; `0x3F00_0000` is the
/// binary32 bit pattern of one half.
pub open spec fn spec_mix_stereo(l: u32, r: u32) -> u32 {
    f32_mul_bits(f32_add_bits(l, r), 0x3F00_0000)
}

/// Average the two channels of one stereo frame into one mono sample.
pub fn mix_stereo(l: u32, r: u32) -> (out: u32)
    ensures
        out == spec_mix_stereo(l, r),
{
    f32_mul(f32_add(l, r), 0x3F00_0000)
}

/// The binary32 interpolation weight `num / den`, computed in binary64 and
/// then rounded to binary32.
pub open spec fn spec_frac(num: u32, den: u32) -> u32 {
    f32_of_f64(f64_div_bits(f64_of_u32(num), f64_of_u32(den)))
}

/// The linear interpolation `s0 + (num / den) * (s1 - s0)` on sample bit
/// patterns.
pub open spec fn spec_lerp(s0: u32, s1: u32, num: u32, den: u32) -> u32 {
    f32_add_bits(s0, f32_mul_bits(spec_frac(num, den), f32_sub_bits(s1, s0)))
}

/// Interpolate between two samples with weight `num / den`.
pub fn lerp(s0: u32, s1: u32, num: u32, den: u32) -> (r: u32)
    ensures
        r == spec_lerp(s0, s1, num, den),
{
    let frac = f64_to_f32(f64_div(f64_from_u32(num), f64_from_u32(den)));
    f32_add(s0, f32_mul(frac, f32_sub(s1, s0)))
}

} // verus!
