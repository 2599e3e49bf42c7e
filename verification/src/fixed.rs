//! Fixed-point arithmetic and the three wire conversions built on it.
//!
//! A [`Fixed`] is a real number scaled by 4096, the resolution of the
//! protocol's relative entity moves: one block is 4096 units, one degree is
//! 4096 units, one metre per second is 4096 units.

use vstd::prelude::*;
use vstd::arithmetic::div_mod::lemma_fundamental_div_mod;
use vstd::arithmetic::div_mod::lemma_div_pos_is_pos;

verus! {

/// A real number in 4096ths.
pub type Fixed = i64;

/// The fixed-point representation of 1.
pub const ONE: Fixed = 4096;

/// Sixteen blocks: the edge of a chunk and of a chunk section.
pub const SECTION: Fixed = 65536;

/// Eight blocks: the first per-axis move that no relative-move packet can carry.
pub const MAX_RELATIVE_MOVE: Fixed = 32768;

/// The fixed-point units in one step of a byte angle (360 degrees / 256).
pub const BYTE_ANGLE_STEP: Fixed = 5760;

/// `v` limited to `lo..=hi`.
pub open spec fn clamp(v: int, lo: int, hi: int) -> int {
    if v < lo {
        lo
    } else if v > hi {
        hi
    } else {
        v
    }
}

/// `v` limited to the range of `i64`.
pub open spec fn sat_i64(v: int) -> int {
    clamp(v, i64::MIN as int, i64::MAX as int)
}

/// `v` limited to the range of `i32`.
pub open spec fn sat_i32(v: int) -> int {
    clamp(v, i32::MIN as int, i32::MAX as int)
}

/// `v` limited to the range of `i16`.
pub open spec fn sat_i16(v: int) -> int {
    clamp(v, i16::MIN as int, i16::MAX as int)
}

/// The quotient of `n` by a positive `d`, rounded toward zero.
pub open spec fn trunc_div(n: int, d: int) -> int {
    if n >= 0 {
        n / d
    } else {
        -((-n) / d)
    }
}

/// The integer nearest to `n / d` for a positive `d`; a tie goes away from zero.
pub open spec fn round_div(n: int, d: int) -> int {
    if n >= 0 {
        (2 * n + d) / (2 * d)
    } else {
        -((2 * (-n) + d) / (2 * d))
    }
}

/// The absolute value of `v`.
pub open spec fn abs(v: int) -> int {
    if v < 0 {
        -v
    } else {
        v
    }
}

/// The one-byte angle of `degrees`: the nearest 256th of a turn, modulo a full turn.
pub open spec fn byte_angle_spec(degrees: Fixed) -> int {
    round_div(degrees as int, BYTE_ANGLE_STEP as int) % 256
}

/// One axis of a velocity in packet units: 8000 per block per tick, rounded
/// toward zero and limited to `i16`.
pub open spec fn packet_velocity_spec(v: Fixed) -> int {
    sat_i16(trunc_div(v as int * 25, 256))
}

/// The section (and chunk) coordinate that holds `v`.
pub open spec fn section_spec(v: Fixed) -> int {
    sat_i32(v as int / SECTION as int)
}

/// `v` limited to the range of `i64`.
pub fn saturate(v: i128) -> (r: i64)
    ensures
        r as int == sat_i64(v as int),
{
    if v > i64::MAX as i128 {
        i64::MAX
    } else if v < i64::MIN as i128 {
        i64::MIN
    } else {
        v as i64
    }
}

/// `a - b`, limited to the range of `i64`.
pub fn sat_sub(a: Fixed, b: Fixed) -> (r: Fixed)
    ensures
        r as int == sat_i64(a as int - b as int),
{
    saturate(a as i128 - b as i128)
}

/// `a * k`, limited to the range of `i64`.
pub fn sat_scale(a: Fixed, k: i64) -> (r: Fixed)
    ensures
        r as int == sat_i64(a as int * k as int),
{
    assert(-0x8000_0000_0000_0000 * 0x8000_0000_0000_0000 <= a as int * k as int
        <= 0x8000_0000_0000_0000 * 0x8000_0000_0000_0000) by (nonlinear_arith)
        requires
            -0x8000_0000_0000_0000 <= a as int <= 0x7fff_ffff_ffff_ffff,
            -0x8000_0000_0000_0000 <= k as int <= 0x7fff_ffff_ffff_ffff,
    ;
    saturate(a as i128 * k as i128)
}

/// `v` limited to the range of `i16`.
pub fn saturate_i16(v: i64) -> (r: i16)
    ensures
        r as int == sat_i16(v as int),
{
    if v > i16::MAX as i64 {
        i16::MAX
    } else if v < i16::MIN as i64 {
        i16::MIN
    } else {
        v as i16
    }
}

/// The one-byte angle of `degrees`.
pub fn byte_angle(degrees: Fixed) -> (r: u8)
    ensures
        r as int == byte_angle_spec(degrees),
{
    let n: i128 = degrees as i128;
    let d: i128 = BYTE_ANGLE_STEP as i128;
    if n >= 0 {
        let q: i128 = (2 * n + d) / (2 * d);
        assert(q >= 0) by {
            lemma_div_pos_is_pos(2 * n + d, 2 * d);
        }
        (q % 256) as u8
    } else {
        let q: i128 = (2 * (-n) + d) / (2 * d);
        assert(q >= 0) by {
            lemma_div_pos_is_pos(2 * (-n) + d, 2 * d);
        }
        let m: i128 = q % 256;
        assert((-q) % 256 == if m == 0 { 0 } else { 256 - m }) by {
            lemma_fundamental_div_mod(q as int, 256);
            lemma_fundamental_div_mod(-q, 256);
        }
        if m == 0 {
            0
        } else {
            (256 - m) as u8
        }
    }
}

/// One axis of a velocity in packet units.
pub fn packet_velocity(v: Fixed) -> (r: i16)
    ensures
        r as int == packet_velocity_spec(v),
{
    let n: i128 = v as i128 * 25;
    let q: i128 = if n >= 0 {
        n / 256
    } else {
        -((-n) / 256)
    };
    saturate_i16(saturate(q))
}

/// The section (and chunk) coordinate that holds `v`.
pub fn section(v: Fixed) -> (r: i32)
    ensures
        r as int == section_spec(v),
{
    let q: i64 = match v.checked_div_euclid(SECTION) {
        Some(q) => q,
        None => 0,
    };
    if q > i32::MAX as i64 {
        i32::MAX
    } else if q < i32::MIN as i64 {
        i32::MIN
    } else {
        q as i32
    }
}

} // verus!
