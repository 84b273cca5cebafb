use boyar_tournament::common::{
    ClientChannel, Direction, Health, PlayerNumber, ServerChannel, UnitState,
};
use boyar_tournament::timer::{Timer, TimerMode};

#[test]
fn opposite_flips_each_direction() {
    assert_eq!(Direction::Up.opposite(), Direction::Down);
    assert_eq!(Direction::Down.opposite(), Direction::Up);
    assert_eq!(Direction::Left.opposite(), Direction::Right);
    assert_eq!(Direction::Right.opposite(), Direction::Left);
}

#[test]
fn opposite_twice_is_the_same_direction() {
    for d in [Direction::Up, Direction::Down, Direction::Left, Direction::Right] {
        assert_eq!(d.opposite().opposite(), d);
    }
}

#[test]
fn defaults() {
    assert_eq!(Health::default(), Health(100, 100));
    assert_eq!(Direction::default(), Direction::Up);
    assert_eq!(UnitState::default(), UnitState::Idle);
    assert_eq!(PlayerNumber::default(), PlayerNumber::One);
}

#[test]
fn health_new_is_full() {
    assert_eq!(Health::new(1400), Health(1400, 1400));
    assert!(!Health::new(1).is_dead());
    assert!(Health::new(0).is_dead());
}

#[test]
fn damage_lowers_current_health_only() {
    let mut h = Health::new(340);
    h.damage(50);
    assert_eq!(h, Health(290, 340));
    h.damage(0);
    assert_eq!(h, Health(290, 340));
}

#[test]
fn damage_saturates_at_zero() {
    let mut h = Health::new(100);
    h.damage(30);
    assert_eq!(h, Health(70, 100));
    h.damage(200);
    assert_eq!(h, Health(0, 100));
    assert!(h.is_dead());
    h.damage(u16::MAX);
    assert_eq!(h, Health(0, 100));
}

#[test]
fn damage_equal_to_health_kills() {
    let mut h = Health::new(80);
    h.damage(80);
    assert_eq!(h, Health(0, 80));
}

#[test]
fn channel_numbers() {
    assert_eq!(ClientChannel::OrderedReliable.id(), 0);
    assert_eq!(ServerChannel::OrderedReliable.id(), 0);
    assert_eq!(ServerChannel::UnorderedReliable.id(), 1);
    assert_eq!(ServerChannel::Unreliable.id(), 2);
}

#[test]
fn repeating_timer_wraps_and_keeps_the_rest() {
    let mut t = Timer::new(750_000, TimerMode::Repeating);
    assert!(!t.tick(500_000));
    assert_eq!(t.elapsed, 500_000);
    assert!(!t.finished);
    assert!(t.tick(500_000));
    assert_eq!(t.elapsed, 250_000);
    assert!(t.finished);
    assert!(t.just_finished);
    assert!(!t.tick(100_000));
    assert_eq!(t.elapsed, 350_000);
    assert!(!t.finished);
    assert!(!t.just_finished);
}

#[test]
fn repeating_timer_finishes_exactly_on_its_duration() {
    let mut t = Timer::new(1_000_000, TimerMode::Repeating);
    assert!(!t.tick(999_999));
    assert!(t.tick(1));
    assert_eq!(t.elapsed, 0);
}

#[test]
fn once_timer_stays_finished() {
    let mut t = Timer::new(1_500_000, TimerMode::Once);
    assert!(!t.tick(1_000_000));
    assert!(t.tick(1_000_000));
    assert_eq!(t.elapsed, 1_500_000);
    assert!(t.finished);
    assert!(!t.tick(1_000_000));
    assert!(t.finished);
    assert!(!t.just_finished);
    assert_eq!(t.elapsed, 1_500_000);
}

#[test]
fn timer_of_no_duration_finishes_on_every_tick() {
    let mut t = Timer::new(0, TimerMode::Repeating);
    assert!(t.tick(0));
    assert!(t.tick(5));
    assert_eq!(t.elapsed, 0);
}

#[test]
fn timer_counts_beyond_what_a_u64_holds() {
    let mut t = Timer::new(u64::MAX, TimerMode::Repeating);
    assert!(!t.tick(u64::MAX - 1));
    assert_eq!(t.elapsed, u64::MAX - 1);
    // the time that passed is 2 * u64::MAX - 1; the remainder, u64::MAX - 1
    // microseconds, is more than 64 bits of nanoseconds hold and is cut short
    assert!(t.tick(u64::MAX));
    assert!(t.finished);
    assert_eq!(t.elapsed, 18_446_744_073_709_549);

    let mut t = Timer::new(u64::MAX, TimerMode::Repeating);
    assert!(t.tick(u64::MAX));
    assert_eq!(t.elapsed, 0);

    // the longest remainder that is kept whole
    let mut t = Timer::new(18_446_744_073_709_552, TimerMode::Repeating);
    assert!(t.tick(2 * 18_446_744_073_709_552 - 1));
    assert_eq!(t.elapsed, 18_446_744_073_709_551);

    let mut t = Timer::new(u64::MAX, TimerMode::Once);
    t.tick(u64::MAX - 1);
    assert!(t.tick(u64::MAX));
    assert_eq!(t.elapsed, u64::MAX);
}

#[test]
fn a_tick_over_a_multiple_of_two_to_the_32_durations_is_no_finish() {
    let mut t = Timer::new(1, TimerMode::Repeating);
    assert!(!t.tick(1 << 32));
    assert!(t.finished);
    assert!(!t.just_finished);
    assert_eq!(t.elapsed, 0);
    assert!(t.tick((1 << 32) - 1));

    let mut t = Timer::new(3, TimerMode::Repeating);
    t.tick(1);
    assert!(!t.tick(3 * (1 << 32)));
    assert!(t.finished);
    assert_eq!(t.elapsed, 1);
    assert!(t.tick(3 * (1 << 32) + 3));
    assert_eq!(t.elapsed, 1);
}

#[test]
fn reset_starts_over() {
    let mut t = Timer::new(750_000, TimerMode::Repeating);
    t.tick(800_000);
    t.reset();
    assert_eq!(t, Timer::new(750_000, TimerMode::Repeating));
}
