use boyar_tournament::common::Direction;
use boyar_tournament::geometry::{isqrt, step_len, step_toward, ArenaPos, UNIT};
use boyar_tournament::server::networking::calc_direction;

fn units(x: f64, y: f64) -> ArenaPos {
    ArenaPos((x * UNIT as f64).round() as i32, (y * UNIT as f64).round() as i32)
}

#[test]
fn isqrt_is_the_floor_of_the_root() {
    assert_eq!(isqrt(0), 0);
    assert_eq!(isqrt(1), 1);
    assert_eq!(isqrt(3), 1);
    assert_eq!(isqrt(4), 2);
    assert_eq!(isqrt(24), 4);
    assert_eq!(isqrt(25), 5);
    assert_eq!(isqrt(1_000_000_000_000), 1_000_000);
    assert_eq!(isqrt(999_999_999_999), 999_999);
    assert_eq!(isqrt((1u128 << 126) - 1), (1u64 << 63) - 1);
    assert_eq!(isqrt(u128::MAX), u64::MAX);
    assert_eq!(isqrt((u64::MAX as u128) * (u64::MAX as u128) - 1), u64::MAX - 1);
}

#[test]
fn distance_of_a_three_four_five_triangle() {
    let a = units(0.0, 0.0);
    let b = units(3.0, 4.0);
    assert_eq!(a.distance_squared(&b), 25_000_000_000_000);
    assert_eq!(a.distance(&b), 5_000_000);
    assert_eq!(b.distance(&a), 5_000_000);
}

#[test]
fn distance_rounds_down() {
    let a = ArenaPos(0, 0);
    let b = ArenaPos(1, 1);
    assert_eq!(a.distance(&b), 1);
    let c = ArenaPos(2, 2);
    assert_eq!(a.distance(&c), 2);
}

#[test]
fn distance_between_the_far_corners_does_not_overflow() {
    let a = ArenaPos(i32::MIN, i32::MIN);
    let b = ArenaPos(i32::MAX, i32::MAX);
    let side = u32::MAX as u128;
    assert_eq!(a.distance_squared(&b), 2 * side * side);
    assert_eq!(a.distance(&b), 6_074_000_998);
}

#[test]
fn within_includes_the_boundary() {
    let a = units(0.0, 0.0);
    let b = units(6.0, 0.0);
    assert!(a.within(&b, 6_000_000));
    assert!(!a.within(&b, 5_999_999));
    assert!(a.within(&a, 0));
}

#[test]
fn normalize_scales_to_one_unit() {
    assert_eq!(units(3.0, 4.0).normalize(), ArenaPos(600_000, 800_000));
    assert_eq!(units(-3.0, 4.0).normalize(), ArenaPos(-600_000, 800_000));
    assert_eq!(units(0.0, -7.5).normalize(), ArenaPos(0, -1_000_000));
    assert_eq!(ArenaPos(0, 0).normalize(), ArenaPos(0, 0));
}

#[test]
fn normalize_divides_by_the_floored_length() {
    // the length of (1, 1) is 1.41421356..., floored to 1.414213
    assert_eq!(units(1.0, 1.0).normalize(), ArenaPos(707_107, 707_107));
    assert_eq!(units(-1.0, -1.0).normalize(), ArenaPos(-707_107, -707_107));
    // 2 / floor(sqrt(5) * 1e6) = 2 / 2.236067 and 1 / 2.236067
    assert_eq!(units(2.0, -1.0).normalize(), ArenaPos(894_427, -447_213));
}

#[test]
fn direction_points_from_self_to_the_other() {
    let a = units(1.0, 1.0);
    let b = units(4.0, 5.0);
    assert_eq!(a.direction(&b), ArenaPos(600_000, 800_000));
    assert_eq!(b.direction(&a), ArenaPos(-600_000, -800_000));
}

#[test]
fn direction_of_near_points_is_zero() {
    let a = units(1.0, 1.0);
    assert_eq!(a.direction(&a), ArenaPos(0, 0));
    let near = ArenaPos(a.0 + 9_999, a.1);
    assert_eq!(a.direction(&near), ArenaPos(0, 0));
    let far_enough = ArenaPos(a.0 + 10_000, a.1);
    assert_eq!(a.direction(&far_enough), ArenaPos(1_000_000, 0));
}

#[test]
fn mul_scales_by_millionths() {
    assert_eq!(ArenaPos(600_000, 800_000).mul(31_250), ArenaPos(18_750, 25_000));
    assert_eq!(ArenaPos(707_106, -707_106).mul(31_250), ArenaPos(22_097, -22_097));
    assert_eq!(ArenaPos(1_000_000, 0).mul(-500_000), ArenaPos(-500_000, 0));
    assert_eq!(ArenaPos(i32::MAX, i32::MIN).mul(i32::MAX), ArenaPos(i32::MAX, i32::MIN));
}

#[test]
fn shifting_saturates() {
    assert_eq!(ArenaPos(1, 2).shifted(ArenaPos(10, -20)), ArenaPos(11, -18));
    assert_eq!(ArenaPos(i32::MAX, i32::MIN).shifted(ArenaPos(1, -1)), ArenaPos(i32::MAX, i32::MIN));
}

#[test]
fn mirror_negates_both_coordinates() {
    assert_eq!(units(3.0, 5.0).mirror(), units(-3.0, -5.0));
    assert_eq!(ArenaPos(i32::MIN, 0).mirror(), ArenaPos(i32::MAX, 0));
}

#[test]
fn step_len_is_speed_times_time() {
    // speed 2 units/s for 1/64 s
    assert_eq!(step_len(2_000_000, 15_625), 31_250);
    assert_eq!(step_len(40_000_000, 15_625), 625_000);
    assert_eq!(step_len(1_500_000, 1_000_000), 1_500_000);
    assert_eq!(step_len(0, 1_000_000), 0);
    assert_eq!(step_len(u32::MAX, u64::MAX), i32::MAX);
}

#[test]
fn step_toward_moves_along_the_direction() {
    let from = units(0.0, 0.0);
    let to = units(3.0, 4.0);
    assert_eq!(step_toward(from, to, 2_000_000, 500_000), units(0.6, 0.8));
    // a step longer than the way goes past the target
    assert_eq!(step_toward(from, to, 40_000_000, 1_000_000), units(24.0, 32.0));
    // no step toward a point that is already reached
    assert_eq!(step_toward(to, to, 2_000_000, 500_000), to);
}

#[test]
fn calc_direction_buckets() {
    assert_eq!(calc_direction(&units(1.0, 0.0)), Direction::Right);
    assert_eq!(calc_direction(&units(-1.0, 0.0)), Direction::Left);
    assert_eq!(calc_direction(&units(0.0, 1.0)), Direction::Up);
    assert_eq!(calc_direction(&units(0.0, -1.0)), Direction::Down);
    assert_eq!(calc_direction(&units(0.0, 0.0)), Direction::Up);
    // 45 degrees is well outside the twenty of Right and Left
    assert_eq!(calc_direction(&units(1.0, 1.0)), Direction::Up);
    assert_eq!(calc_direction(&units(1.0, -1.0)), Direction::Down);
    assert_eq!(calc_direction(&units(-1.0, 1.0)), Direction::Up);
    assert_eq!(calc_direction(&units(-1.0, -1.0)), Direction::Down);
}

#[test]
fn calc_direction_turns_at_twenty_degrees() {
    // tan 20 degrees = 0.363970...
    assert_eq!(calc_direction(&ArenaPos(1_000_000, 363_969)), Direction::Right);
    assert_eq!(calc_direction(&ArenaPos(1_000_000, 363_970)), Direction::Up);
    assert_eq!(calc_direction(&ArenaPos(1_000_000, -363_969)), Direction::Right);
    assert_eq!(calc_direction(&ArenaPos(1_000_000, -363_970)), Direction::Down);
    assert_eq!(calc_direction(&ArenaPos(-1_000_000, 363_969)), Direction::Left);
    assert_eq!(calc_direction(&ArenaPos(-1_000_000, 363_970)), Direction::Up);
    assert_eq!(calc_direction(&ArenaPos(-1_000_000, -363_970)), Direction::Down);
}
