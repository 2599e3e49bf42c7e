//! Points, block and chunk coordinates, boxes, and the distance tests the
//! client update is built on.

use vstd::prelude::*;
use crate::fixed::{
    abs, packet_velocity, packet_velocity_spec, sat_i16, sat_i64, sat_scale, sat_sub,
    saturate_i16, section, section_spec, Fixed, MAX_RELATIVE_MOVE, SECTION,
};

verus! {

/// A point or a displacement in fixed-point coordinates.
#[derive(Clone, Copy, PartialEq, Eq, Debug, Structural)]
pub struct Vec3 {
    pub x: Fixed,
    pub y: Fixed,
    pub z: Fixed,
}

/// Three 16-bit components: a relative move or a velocity as a packet carries it.
#[derive(Clone, Copy, PartialEq, Eq, Debug, Structural)]
pub struct ShortVec3 {
    pub x: i16,
    pub y: i16,
    pub z: i16,
}

/// The absolute coordinates of a block.
#[derive(Clone, Copy, PartialEq, Eq, Debug, Structural)]
pub struct BlockPos {
    pub x: i32,
    pub y: i32,
    pub z: i32,
}

/// The coordinates of a chunk: those of its blocks divided by sixteen.
#[derive(Clone, Copy, PartialEq, Eq, Debug, Structural)]
pub struct ChunkPos {
    pub x: i32,
    pub z: i32,
}

/// An axis-aligned box, `min` to `max` on every axis.
#[derive(Clone, Copy, PartialEq, Eq, Debug, Structural)]
pub struct Aabb {
    pub min: Vec3,
    pub max: Vec3,
}

/// The square of the distance between `a` and `b`.
pub open spec fn distance_sq(a: Vec3, b: Vec3) -> int {
    (a.x - b.x) * (a.x - b.x) + (a.y - b.y) * (a.y - b.y) + (a.z - b.z) * (a.z - b.z)
}

/// Whether `a` and `b` are at most `radius` apart.
pub open spec fn within_spec(a: Vec3, b: Vec3, radius: Fixed) -> bool {
    radius >= 0 && distance_sq(a, b) <= radius * radius
}

/// How far `p` lies outside the interval `lo..=hi` (0 inside it).
pub open spec fn axis_gap(p: int, lo: int, hi: int) -> int {
    if p < lo {
        lo - p
    } else if p > hi {
        p - hi
    } else {
        0
    }
}

/// The square of the distance from `p` to the nearest point of `bb`.
pub open spec fn box_distance_sq(bb: Aabb, p: Vec3) -> int {
    let gx = axis_gap(p.x as int, bb.min.x as int, bb.max.x as int);
    let gy = axis_gap(p.y as int, bb.min.y as int, bb.max.y as int);
    let gz = axis_gap(p.z as int, bb.min.z as int, bb.max.z as int);
    gx * gx + gy * gy + gz * gz
}

/// Whether some point of `bb` is at most `radius` from `p`.
pub open spec fn box_within_spec(bb: Aabb, p: Vec3, radius: Fixed) -> bool {
    radius >= 0 && box_distance_sq(bb, p) <= radius * radius
}

/// Whether `pos` lies in the square of chunks that reaches `distance` chunks
/// from `center` on both axes.
pub open spec fn in_view_spec(center: ChunkPos, pos: ChunkPos, distance: int) -> bool {
    abs(center.x - pos.x) <= distance && abs(center.z - pos.z) <= distance
}

/// Whether three non-negative gaps fit in a ball of radius `radius`.
fn gaps_within(gx: u64, gy: u64, gz: u64, radius: Fixed) -> (r: bool)
    ensures
        r == (radius >= 0 && gx * gx + gy * gy + gz * gz <= radius * radius),
{
    if radius < 0 {
        return false;
    }
    let rad: u64 = radius as u64;
    if gx > rad || gy > rad || gz > rad {
        assert(gx * gx + gy * gy + gz * gz > rad * rad) by (nonlinear_arith)
            requires
                gx > rad || gy > rad || gz > rad,
        ;
        return false;
    }
    assert(gx * gx <= rad * rad && gy * gy <= rad * rad && gz * gz <= rad * rad
        && rad * rad <= 0x7fff_ffff_ffff_ffff * 0x7fff_ffff_ffff_ffff) by (nonlinear_arith)
        requires
            gx <= rad,
            gy <= rad,
            gz <= rad,
            rad <= 0x7fff_ffff_ffff_ffff,
    ;
    let r2: u128 = rad as u128 * rad as u128;
    let sum: u128 = gx as u128 * gx as u128 + gy as u128 * gy as u128 + gz as u128 * gz as u128;
    sum <= r2
}

/// The distance between two coordinates.
fn axis_distance(a: Fixed, b: Fixed) -> (r: u64)
    ensures
        r as int == abs(a - b),
{
    let d: i128 = a as i128 - b as i128;
    if d < 0 {
        (-d) as u64
    } else {
        d as u64
    }
}

/// How far `p` lies outside `lo..=hi`.
fn axis_gap_of(p: Fixed, lo: Fixed, hi: Fixed) -> (r: u64)
    ensures
        r as int == axis_gap(p as int, lo as int, hi as int),
{
    if p < lo {
        axis_distance(lo, p)
    } else if p > hi {
        axis_distance(p, hi)
    } else {
        0
    }
}

impl Vec3 {
    /// The origin.
    pub fn zero() -> (r: Vec3)
        ensures
            r == (Vec3 { x: 0, y: 0, z: 0 }),
    {
        Vec3 { x: 0, y: 0, z: 0 }
    }

    /// `self - other` on every axis, each limited to the range of `i64`.
    pub open spec fn minus(self, other: Vec3) -> Vec3 {
        Vec3 {
            x: sat_i64(self.x - other.x) as i64,
            y: sat_i64(self.y - other.y) as i64,
            z: sat_i64(self.z - other.z) as i64,
        }
    }

    /// `self * k` on every axis, each limited to the range of `i64`.
    pub open spec fn times(self, k: i64) -> Vec3 {
        Vec3 {
            x: sat_i64(self.x * k) as i64,
            y: sat_i64(self.y * k) as i64,
            z: sat_i64(self.z * k) as i64,
        }
    }

    /// The largest absolute component.
    pub open spec fn max_abs(self) -> int {
        let ax = abs(self.x as int);
        let ay = abs(self.y as int);
        let az = abs(self.z as int);
        if ax >= ay && ax >= az {
            ax
        } else if ay >= az {
            ay
        } else {
            az
        }
    }

    /// The displacement as a relative-move packet carries it.
    pub open spec fn to_delta(self) -> ShortVec3 {
        ShortVec3 {
            x: sat_i16(self.x as int) as i16,
            y: sat_i16(self.y as int) as i16,
            z: sat_i16(self.z as int) as i16,
        }
    }

    /// The velocity in packet units.
    pub open spec fn to_packet_velocity(self) -> ShortVec3 {
        ShortVec3 {
            x: packet_velocity_spec(self.x) as i16,
            y: packet_velocity_spec(self.y) as i16,
            z: packet_velocity_spec(self.z) as i16,
        }
    }

    /// The section that holds the point, on every axis.
    pub open spec fn section_of(self) -> BlockPos {
        BlockPos {
            x: section_spec(self.x) as i32,
            y: section_spec(self.y) as i32,
            z: section_spec(self.z) as i32,
        }
    }

    /// `self - other`, saturating.
    pub fn saturating_sub(self, other: Vec3) -> (r: Vec3)
        ensures
            r == self.minus(other),
    {
        Vec3 {
            x: sat_sub(self.x, other.x),
            y: sat_sub(self.y, other.y),
            z: sat_sub(self.z, other.z),
        }
    }

    /// `self * k`, saturating.
    pub fn saturating_scale(self, k: i64) -> (r: Vec3)
        ensures
            r == self.times(k),
    {
        Vec3 { x: sat_scale(self.x, k), y: sat_scale(self.y, k), z: sat_scale(self.z, k) }
    }

    /// Whether some component is eight blocks or more in absolute value, so
    /// that no relative-move packet can carry the displacement.
    pub fn exceeds_relative_move(self) -> (r: bool)
        ensures
            r == (self.max_abs() >= MAX_RELATIVE_MOVE),
    {
        axis_distance(self.x, 0) >= MAX_RELATIVE_MOVE as u64 || axis_distance(self.y, 0)
            >= MAX_RELATIVE_MOVE as u64 || axis_distance(self.z, 0) >= MAX_RELATIVE_MOVE as u64
    }

    /// The displacement as a relative-move packet carries it.
    pub fn delta(self) -> (r: ShortVec3)
        ensures
            r == self.to_delta(),
    {
        ShortVec3 { x: saturate_i16(self.x), y: saturate_i16(self.y), z: saturate_i16(self.z) }
    }

    /// The velocity in packet units.
    pub fn packet_velocity(self) -> (r: ShortVec3)
        ensures
            r == self.to_packet_velocity(),
    {
        ShortVec3 {
            x: packet_velocity(self.x),
            y: packet_velocity(self.y),
            z: packet_velocity(self.z),
        }
    }

    /// The section that holds the point.
    pub fn section(self) -> (r: BlockPos)
        ensures
            r == self.section_of(),
    {
        BlockPos { x: section(self.x), y: section(self.y), z: section(self.z) }
    }

    /// Whether `self` and `other` are at most `radius` apart.
    pub fn within(self, other: Vec3, radius: Fixed) -> (r: bool)
        ensures
            r == within_spec(self, other, radius),
    {
        let gx: u64 = axis_distance(self.x, other.x);
        let gy: u64 = axis_distance(self.y, other.y);
        let gz: u64 = axis_distance(self.z, other.z);
        assert(gx * gx == (self.x - other.x) * (self.x - other.x)) by (nonlinear_arith)
            requires
                gx as int == abs(self.x - other.x),
        ;
        assert(gy * gy == (self.y - other.y) * (self.y - other.y)) by (nonlinear_arith)
            requires
                gy as int == abs(self.y - other.y),
        ;
        assert(gz * gz == (self.z - other.z) * (self.z - other.z)) by (nonlinear_arith)
            requires
                gz as int == abs(self.z - other.z),
        ;
        gaps_within(gx, gy, gz, radius)
    }
}

impl ShortVec3 {
    /// The displacement in fixed-point units that the packet stands for.
    pub open spec fn widen(self) -> Vec3 {
        Vec3 { x: self.x as i64, y: self.y as i64, z: self.z as i64 }
    }
}

impl BlockPos {
    pub fn new(x: i32, y: i32, z: i32) -> (r: BlockPos)
        ensures
            r == (BlockPos { x, y, z }),
    {
        BlockPos { x, y, z }
    }
}

impl ChunkPos {
    pub fn new(x: i32, z: i32) -> (r: ChunkPos)
        ensures
            r == (ChunkPos { x, z }),
    {
        ChunkPos { x, z }
    }

    /// The chunk that holds the column at `x`, `z`.
    pub open spec fn at_spec(x: Fixed, z: Fixed) -> ChunkPos {
        ChunkPos { x: section_spec(x) as i32, z: section_spec(z) as i32 }
    }

    /// The chunk that holds the column at `x`, `z`.
    pub fn at(x: Fixed, z: Fixed) -> (r: ChunkPos)
        ensures
            r == ChunkPos::at_spec(x, z),
    {
        ChunkPos { x: section(x), z: section(z) }
    }

    /// Whether `self` lies within `distance` chunks of `center` on both axes.
    pub fn in_view(self, center: ChunkPos, distance: u16) -> (r: bool)
        ensures
            r == in_view_spec(center, self, distance as int),
    {
        let dx: i64 = center.x as i64 - self.x as i64;
        let dz: i64 = center.z as i64 - self.z as i64;
        let d: i64 = distance as i64;
        -d <= dx && dx <= d && -d <= dz && dz <= d
    }
}

impl Aabb {
    /// Whether some point of the box is at most `radius` from `p`.
    pub fn within(self, p: Vec3, radius: Fixed) -> (r: bool)
        ensures
            r == box_within_spec(self, p, radius),
    {
        let gx: u64 = axis_gap_of(p.x, self.min.x, self.max.x);
        let gy: u64 = axis_gap_of(p.y, self.min.y, self.max.y);
        let gz: u64 = axis_gap_of(p.z, self.min.z, self.max.z);
        gaps_within(gx, gy, gz, radius)
    }
}

/// The radius, in fixed-point units, of a view of `chunks` chunks.
pub open spec fn view_radius_spec(chunks: u8) -> Fixed {
    (chunks as int * SECTION as int) as i64
}

/// The radius, in fixed-point units, of a view of `chunks` chunks.
pub fn view_radius(chunks: u8) -> (r: Fixed)
    ensures
        r == view_radius_spec(chunks),
{
    chunks as i64 * SECTION
}

} // verus!
