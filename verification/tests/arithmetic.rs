use valence::fixed::{
    byte_angle, packet_velocity, sat_scale, sat_sub, saturate, saturate_i16, section,
    BYTE_ANGLE_STEP, MAX_RELATIVE_MOVE, ONE, SECTION,
};
use valence::geometry::{view_radius, Aabb, BlockPos, ChunkPos, ShortVec3, Vec3};
use valence::wire::{to_signed, to_unsigned};

fn v(x: i64, y: i64, z: i64) -> Vec3 {
    Vec3 { x, y, z }
}

#[test]
fn constants_fit_together() {
    assert_eq!(ONE, 4096);
    assert_eq!(SECTION, 16 * ONE);
    assert_eq!(MAX_RELATIVE_MOVE, 8 * ONE);
    assert_eq!(BYTE_ANGLE_STEP * 256, 360 * ONE);
}

#[test]
fn byte_angle_of_whole_turns() {
    assert_eq!(byte_angle(0), 0);
    assert_eq!(byte_angle(90 * ONE), 64);
    assert_eq!(byte_angle(180 * ONE), 128);
    assert_eq!(byte_angle(270 * ONE), 192);
    assert_eq!(byte_angle(360 * ONE), 0);
    assert_eq!(byte_angle(450 * ONE), 64);
}

#[test]
fn byte_angle_of_negative_angles() {
    assert_eq!(byte_angle(-90 * ONE), 192);
    assert_eq!(byte_angle(-360 * ONE), 0);
    assert_eq!(byte_angle(-BYTE_ANGLE_STEP), 255);
}

#[test]
fn byte_angle_rounds_to_nearest_with_ties_away_from_zero() {
    assert_eq!(byte_angle(BYTE_ANGLE_STEP / 2 - 1), 0);
    assert_eq!(byte_angle(BYTE_ANGLE_STEP / 2), 1);
    assert_eq!(byte_angle(BYTE_ANGLE_STEP + BYTE_ANGLE_STEP / 2), 2);
    assert_eq!(byte_angle(-(BYTE_ANGLE_STEP / 2) + 1), 0);
    assert_eq!(byte_angle(-(BYTE_ANGLE_STEP / 2)), 255);
    // Just below a full turn rounds up to the full turn, which is 0.
    assert_eq!(byte_angle(360 * ONE - 1), 0);
}

#[test]
fn byte_angle_at_the_ends_of_the_range() {
    // round(i64::MAX / 5760) = 1601279867509510, which is 6 modulo 256.
    assert_eq!(byte_angle(i64::MAX), 6);
    assert_eq!(byte_angle(i64::MIN), 250);
}

#[test]
fn packet_velocity_is_8000_per_block_per_tick() {
    // 1 m/s = 1/20 block per tick = 400 packet units.
    assert_eq!(packet_velocity(ONE), 400);
    assert_eq!(packet_velocity(-ONE), -400);
    assert_eq!(packet_velocity(0), 0);
    // 20 m/s = one block per tick.
    assert_eq!(packet_velocity(20 * ONE), 8000);
}

#[test]
fn packet_velocity_rounds_toward_zero() {
    // 10 units * 25 / 256 = 0.97...
    assert_eq!(packet_velocity(10), 0);
    assert_eq!(packet_velocity(-10), 0);
    assert_eq!(packet_velocity(11), 1);
    assert_eq!(packet_velocity(-11), -1);
}

#[test]
fn packet_velocity_is_limited_to_sixteen_bits() {
    assert_eq!(packet_velocity(100 * ONE), i16::MAX);
    assert_eq!(packet_velocity(-100 * ONE), i16::MIN);
    assert_eq!(packet_velocity(i64::MAX), i16::MAX);
    assert_eq!(packet_velocity(i64::MIN), i16::MIN);
}

#[test]
fn section_is_the_floor_of_a_sixteenth() {
    assert_eq!(section(0), 0);
    assert_eq!(section(SECTION - 1), 0);
    assert_eq!(section(SECTION), 1);
    assert_eq!(section(-1), -1);
    assert_eq!(section(-SECTION), -1);
    assert_eq!(section(-SECTION - 1), -2);
    assert_eq!(section(100 * SECTION + 5), 100);
}

#[test]
fn section_is_limited_to_thirty_two_bits() {
    assert_eq!(section(i64::MAX), i32::MAX);
    assert_eq!(section(i64::MIN), i32::MIN);
}

#[test]
fn saturating_operations() {
    assert_eq!(saturate(5), 5);
    assert_eq!(saturate(i64::MAX as i128 + 1), i64::MAX);
    assert_eq!(saturate(i64::MIN as i128 - 1), i64::MIN);
    assert_eq!(sat_sub(10, 3), 7);
    assert_eq!(sat_sub(i64::MAX, -1), i64::MAX);
    assert_eq!(sat_sub(i64::MIN, 1), i64::MIN);
    assert_eq!(sat_scale(3, 20), 60);
    assert_eq!(sat_scale(i64::MAX, 20), i64::MAX);
    assert_eq!(sat_scale(i64::MIN, 20), i64::MIN);
    assert_eq!(sat_scale(i64::MIN, -1), i64::MAX);
    assert_eq!(saturate_i16(40000), i16::MAX);
    assert_eq!(saturate_i16(-40000), i16::MIN);
    assert_eq!(saturate_i16(-7), -7);
}

#[test]
fn vector_difference_and_scale() {
    let a = v(10, 20, 30);
    let b = v(1, 2, 3);
    assert_eq!(a.saturating_sub(b), v(9, 18, 27));
    assert_eq!(a.saturating_scale(20), v(200, 400, 600));
    assert_eq!(v(i64::MAX, 0, i64::MIN).saturating_sub(v(-1, 0, 1)), v(i64::MAX, 0, i64::MIN));
    assert_eq!(Vec3::zero(), v(0, 0, 0));
}

#[test]
fn relative_move_limit_is_eight_blocks() {
    assert!(!v(8 * ONE - 1, 0, 0).exceeds_relative_move());
    assert!(v(8 * ONE, 0, 0).exceeds_relative_move());
    assert!(v(0, -8 * ONE, 0).exceeds_relative_move());
    assert!(!v(0, -8 * ONE + 1, 0).exceeds_relative_move());
    assert!(v(0, 0, i64::MIN).exceeds_relative_move());
    assert!(!v(0, 0, 0).exceeds_relative_move());
}

#[test]
fn a_move_under_eight_blocks_survives_the_packet() {
    let old = v(5 * ONE + 17, -3 * ONE, 100);
    let new = v(12 * ONE, -3 * ONE - 4095, -32000);
    let d = new.saturating_sub(old);
    assert!(!d.exceeds_relative_move());
    let carried: ShortVec3 = d.delta();
    assert_eq!(old.x + carried.x as i64, new.x);
    assert_eq!(old.y + carried.y as i64, new.y);
    assert_eq!(old.z + carried.z as i64, new.z);
}

#[test]
fn delta_is_limited_to_sixteen_bits() {
    assert_eq!(v(40000, -40000, 1).delta(), ShortVec3 { x: i16::MAX, y: i16::MIN, z: 1 });
}

#[test]
fn vector_packet_velocity() {
    assert_eq!(
        v(ONE, -2 * ONE, 0).packet_velocity(),
        ShortVec3 { x: 400, y: -800, z: 0 }
    );
}

#[test]
fn vector_section() {
    assert_eq!(
        v(17 * ONE, -1, 16 * ONE * 100).section(),
        BlockPos { x: 1, y: -1, z: 100 }
    );
}

#[test]
fn distance_on_the_boundary_is_within() {
    let origin = v(0, 0, 0);
    let r = view_radius(2);
    assert_eq!(r, 32 * ONE);
    assert!(v(0, 0, 32 * ONE).within(origin, r));
    assert!(!v(0, 0, 32 * ONE + 1).within(origin, r));
    assert!(v(0, 0, -32 * ONE).within(origin, r));
    // 3-4-5 triangle, scaled.
    assert!(v(3 * ONE, 4 * ONE, 0).within(origin, 5 * ONE));
    assert!(!v(3 * ONE, 4 * ONE, 1).within(origin, 5 * ONE));
}

#[test]
fn distance_with_a_negative_radius_or_far_points() {
    assert!(!v(0, 0, 0).within(v(0, 0, 0), -1));
    assert!(v(0, 0, 0).within(v(0, 0, 0), 0));
    assert!(!v(i64::MAX, 0, 0).within(v(i64::MIN, 0, 0), i64::MAX));
    assert!(v(i64::MAX, 0, 0).within(v(0, 0, 0), i64::MAX));
}

#[test]
fn box_distance_is_to_the_nearest_point() {
    let bb = Aabb { min: v(-ONE, 0, -ONE), max: v(ONE, 2 * ONE, ONE) };
    assert!(bb.within(v(0, ONE, 0), 0));
    assert!(bb.within(v(4 * ONE, ONE, 0), 3 * ONE));
    assert!(!bb.within(v(4 * ONE, ONE, 0), 3 * ONE - 1));
    // Off a corner: the gap is (3, 4) blocks.
    assert!(bb.within(v(4 * ONE, 6 * ONE, 0), 5 * ONE));
    assert!(!bb.within(v(4 * ONE, 6 * ONE, 1 + ONE), 5 * ONE));
    assert!(!bb.within(v(0, 0, 0), -1));
}

#[test]
fn chunk_of_a_column() {
    assert_eq!(ChunkPos::at(0, 0), ChunkPos { x: 0, z: 0 });
    assert_eq!(ChunkPos::at(-1, SECTION), ChunkPos { x: -1, z: 1 });
    assert_eq!(ChunkPos::at(100 * SECTION, 0), ChunkPos::new(100, 0));
}

#[test]
fn view_is_a_square() {
    let center = ChunkPos::new(0, 0);
    assert!(ChunkPos::new(2, 2).in_view(center, 2));
    assert!(ChunkPos::new(-2, 2).in_view(center, 2));
    assert!(!ChunkPos::new(3, 0).in_view(center, 2));
    assert!(!ChunkPos::new(0, -3).in_view(center, 2));
    assert!(ChunkPos::new(0, 0).in_view(center, 0));
    assert!(!ChunkPos::new(i32::MAX, 0).in_view(ChunkPos::new(i32::MIN, 0), u16::MAX));
}

#[test]
fn counters_on_the_wire() {
    assert_eq!(to_signed(0), 0);
    assert_eq!(to_signed(1), 1);
    assert_eq!(to_signed(i32::MAX as u32), i32::MAX);
    assert_eq!(to_signed(i32::MAX as u32 + 1), i32::MIN);
    assert_eq!(to_signed(u32::MAX), -1);
    assert_eq!(to_unsigned(-1), u32::MAX);
    assert_eq!(to_unsigned(i32::MIN), 0x8000_0000);
    assert_eq!(to_unsigned(7), 7);
    for x in [0u32, 1, 77, 0x7fff_ffff, 0x8000_0000, u32::MAX] {
        assert_eq!(to_unsigned(to_signed(x)), x);
    }
}
