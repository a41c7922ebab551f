//! Integer trigonometry.
//!
//! Angles cross three representations here.  Fixed-point degrees and
//! fixed-point radians are `i64` values scaled by [`crate::fxp::SCALE`].
//! The trigonometric kernel itself works on a binary phase: an `i32`
//! counting turns, where one full turn spans the whole `i32` range
//! (`i32::MIN` is half a turn, i.e. -180 degrees).  The kernel's results
//! are named, not computed, at the specification level: `cossin_of` and
//! `atan2_of` stand for whatever the kernel returns, which depends on
//! its arguments alone.

use vstd::prelude::*;
use crate::fxp::muldiv;
use crate::fxp::emod;
use crate::fxp::sdiv;

verus! {

/// One full turn in fixed-point degrees: 360 * SCALE.
pub const TURN_FX: i64 = 23592960;

/// Pi in fixed-point: round(pi * SCALE).
pub const PI_FX: i64 = 205887;

/// 180 * SCALE, the numerator and denominator partner of `PI_FX` in
/// degree/radian conversions.
pub const HALF_TURN_FX: i64 = 11796480;

/// What `idsp::cossin` returns for a phase: a (cosine, sine) pair,
/// each scaled to the `i32` range.
pub uninterp spec fn cossin_of(phase: int) -> (int, int);

/// Relies on `idsp::cossin`: the cosine and sine of a binary phase,
/// scaled to the `i32` range; the result depends on the phase alone.
#[verifier::external_body]
pub(crate) fn cossin(phase: i32) -> (r: (i32, i32))
    ensures
        (r.0 as int, r.1 as int) == cossin_of(phase as int),
{
    idsp::cossin(phase)
}

/// What `idsp::atan2` returns for a vector: the binary phase of the ray
/// from the origin through `(x, y)`.
pub uninterp spec fn atan2_of(y: int, x: int) -> int;

/// Relies on `idsp::atan2`: the binary-phase arctangent of `y / x`;
/// the result depends on the arguments alone.
#[verifier::external_body]
pub(crate) fn atan2(y: i32, x: i32) -> (r: i32)
    ensures
        r as int == atan2_of(y as int, x as int),
{
    idsp::atan2(y, x)
}

/// Binary phase of an angle in fixed-point degrees: the angle is reduced
/// to one turn, rescaled so that a full turn is `2^32`, and wrapped into
/// the `i32` range.
pub open spec fn phase_of_deg(deg: int) -> int {
    (sdiv((deg % 23592960) * 65536, 360) as i32) as int
}

pub fn deg_to_phase(deg: i64) -> (r: i32)
    requires
        deg > i64::MIN,
    ensures
        r as int == phase_of_deg(deg as int),
{
    let m: i64 = emod(deg, TURN_FX);
    let q: i64 = muldiv(m, 65536, 360);
    #[verifier::truncate] (q as i32)
}

/// Fixed-point radians of an angle in fixed-point degrees.
pub open spec fn rad_of_deg(deg: int) -> int {
    sdiv(deg * 205887, 11796480)
}

pub fn deg_to_rad(deg: i64) -> (r: i64)
    requires
        -0x1_0000_0000_0000 <= deg <= 0x1_0000_0000_0000,
    ensures
        r as int == rad_of_deg(deg as int),
        -0x1_0000_0000_0000 <= r <= 0x1_0000_0000_0000,
{
    proof {
        crate::fxp::lemma_sdiv_bound(deg as int * 205887, 11796480, 0x1_0000_0000_0000);
    }
    muldiv(deg, PI_FX, HALF_TURN_FX)
}

/// Fixed-point degrees of an angle in fixed-point radians.
pub open spec fn deg_of_rad(rad: int) -> int {
    sdiv(rad * 11796480, 205887)
}

pub fn rad_to_deg(rad: i64) -> (r: i64)
    requires
        -0x1_0000_0000_0000 <= rad <= 0x1_0000_0000_0000,
    ensures
        r as int == deg_of_rad(rad as int),
        -0x40_0000_0000_0000 <= r <= 0x40_0000_0000_0000,
{
    proof {
        crate::fxp::lemma_sdiv_bound(rad as int * 11796480, 205887, 0x40_0000_0000_0000);
    }
    muldiv(rad, HALF_TURN_FX, PI_FX)
}

/// Fixed-point radians of a binary phase.
pub open spec fn rad_of_phase(phase: int) -> int {
    sdiv(phase * 411774, 4294967296)
}

pub fn phase_to_rad(phase: i32) -> (r: i64)
    ensures
        r as int == rad_of_phase(phase as int),
        -0x40_0000 <= r <= 0x40_0000,
{
    proof {
        crate::fxp::lemma_sdiv_bound(phase as int * 411774, 4294967296, 0x40_0000);
    }
    muldiv(phase as i64, 2 * PI_FX, 4294967296)
}

} // verus!
