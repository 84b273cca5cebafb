use std::time::Duration;

use boyar_tournament::timer::{Timer, TimerMode};
use rand::rngs::StdRng;
use rand::{Rng, SeedableRng};

/// Runs a timer of this library and one of bevy through the same ticks and
/// holds them against each other after every tick.
fn run_both(duration: u64, repeating: bool, deltas: &[u64]) {
    let mut ours = Timer::new(
        duration,
        if repeating { TimerMode::Repeating } else { TimerMode::Once },
    );
    let mut theirs = bevy::time::Timer::new(
        Duration::from_micros(duration),
        if repeating { bevy::time::TimerMode::Repeating } else { bevy::time::TimerMode::Once },
    );
    for delta in deltas {
        let fired = ours.tick(*delta);
        theirs.tick(Duration::from_micros(*delta));
        assert_eq!(fired, theirs.just_finished());
        assert_eq!(ours.just_finished, theirs.just_finished());
        assert_eq!(ours.finished, theirs.finished());
        assert_eq!(ours.elapsed as u128, theirs.elapsed().as_micros());
    }
    ours.reset();
    theirs.reset();
    assert_eq!(ours.just_finished, theirs.just_finished());
    assert_eq!(ours.finished, theirs.finished());
    assert_eq!(ours.elapsed as u128, theirs.elapsed().as_micros());
}

#[test]
fn a_repeating_timer_keeps_step_with_bevy() {
    run_both(750_000, true, &[15_625; 200]);
    run_both(750_000, true, &[500_000, 500_000, 100_000, 0, 650_000, 2_000_000, 1]);
    run_both(1_500_000, true, &[1_499_999, 1, 1, 1_499_999, 3_000_000]);
    run_both(1, true, &[0, 1, 2, 3]);
    run_both(0, true, &[0, 1, 5]);
}

#[test]
fn a_timer_that_runs_once_keeps_step_with_bevy() {
    run_both(1_500_000, false, &[15_625; 200]);
    run_both(1_500_000, false, &[1_000_000, 1_000_000, 1_000_000, 0]);
    run_both(1_500_000, false, &[1_500_000, 1]);
    run_both(0, false, &[0, 1]);
}

#[test]
fn timers_keep_step_with_bevy_through_ticks_of_any_length() {
    let mut rng = StdRng::seed_from_u64(7);
    for round in 0..200 {
        let duration = match round % 4 {
            0 => rng.gen_range(0..10),
            1 => rng.gen_range(1..2_000_000),
            2 => 750_000,
            _ => rng.gen_range(1..u32::MAX as u64),
        };
        let longest = 3 * duration + 10;
        let deltas: Vec<u64> = (0..100).map(|_| rng.gen_range(0..longest)).collect();
        run_both(duration, true, &deltas);
        run_both(duration, false, &deltas);
    }
}
