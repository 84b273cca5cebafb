//! Countdowns of the simulation: attack cooldowns and the stun after a spawn.
//! Time is counted in whole microseconds.

use vstd::prelude::*;
use std::time::Duration;
use vstd::arithmetic::div_mod::{lemma_fundamental_div_mod, lemma_fundamental_div_mod_converse};

verus! {

/// What a timer does once its duration has passed.
#[derive(Clone, Copy, Debug, PartialEq, Eq, Structural)]
pub enum TimerMode {
    /// It stays finished.
    Once,
    /// It starts over, keeping what went beyond the duration.
    Repeating,
}

/// A countdown that is advanced by `tick`.
#[derive(Clone, Copy, Debug, PartialEq, Eq, Structural)]
pub struct Timer {
    /// Time gone since the timer started or last wrapped around.
    pub elapsed: u64,
    /// Time from start to finish.
    pub duration: u64,
    pub mode: TimerMode,
    /// Whether the duration has been reached; a repeating timer is finished
    /// only on the tick that reached it.
    pub finished: bool,
    /// Whether the last tick reached the duration.
    pub just_finished: bool,
}

/// What a timer of `duration` that stands at `elapsed` and has not stopped
/// shows after `delta` more microseconds: its elapsed time, whether it is
/// finished, and whether it just finished.
///
/// Short of the duration the time simply adds up. On reaching the duration
/// the timer is finished. One that runs once then stands at its duration and
/// has just finished. A repeating one keeps the remainder of the division by
/// its duration and has just finished; but the remainder is kept as
/// nanoseconds in 64 bits and the number of durations that passed in 32 bits,
/// so a remainder of more than 584 years is cut short, and a tick over a
/// multiple of 4294967296 durations does not count as a finish.
pub open spec fn spec_count(duration: u64, mode: TimerMode, elapsed: u64, delta: u64) -> (
    u64,
    bool,
    bool,
) {
    let total: int = elapsed + delta;
    if total < duration {
        (total as u64, false, false)
    } else if mode == TimerMode::Once {
        (duration, true, true)
    } else if duration == 0 {
        (0, true, true)
    } else {
        (
            ((((total % (duration as int)) * 1000) % 0x1_0000_0000_0000_0000) / 1000) as u64,
            true,
            (total / (duration as int)) % 0x1_0000_0000 != 0,
        )
    }
}

/// Makes a `Timer` of bevy with this duration, mode and elapsed time, calls
/// its `tick` with `delta`, and reads off `elapsed`, `finished` and
/// `just_finished`. Claimed, not proved: they are what `spec_count` says.
#[verifier::external_body]
fn count(duration: u64, mode: TimerMode, elapsed: u64, delta: u64) -> (counted: (u64, bool, bool))
    ensures
        counted == spec_count(duration, mode, elapsed, delta),
{
    let mode = match mode {
        TimerMode::Once => bevy::time::TimerMode::Once,
        TimerMode::Repeating => bevy::time::TimerMode::Repeating,
    };
    let mut timer = bevy::time::Timer::new(Duration::from_micros(duration), mode);
    timer.set_elapsed(Duration::from_micros(elapsed));
    timer.tick(Duration::from_micros(delta));
    (timer.elapsed().as_micros() as u64, timer.finished(), timer.just_finished())
}

impl Timer {
    /// A timer at its start.
    pub open spec fn spec_new(duration: u64, mode: TimerMode) -> Timer {
        Timer { elapsed: 0, duration, mode, finished: false, just_finished: false }
    }

    /// The timer after `delta` more microseconds. A timer that runs once and
    /// has finished stays as it is, no longer just finished. Any other timer
    /// goes on counting, as `spec_count` says.
    pub open spec fn spec_tick(self, delta: u64) -> Timer {
        if self.mode == TimerMode::Once && self.finished {
            Timer { just_finished: false, ..self }
        } else {
            let counted = spec_count(self.duration, self.mode, self.elapsed, delta);
            Timer { elapsed: counted.0, finished: counted.1, just_finished: counted.2, ..self }
        }
    }

    /// The timer back at its start.
    pub open spec fn spec_reset(self) -> Timer {
        Timer { elapsed: 0, finished: false, just_finished: false, ..self }
    }

    /// A fresh timer of `duration` microseconds.
    pub fn new(duration: u64, mode: TimerMode) -> (t: Timer)
        ensures
            t == Timer::spec_new(duration, mode),
    {
        Timer { elapsed: 0, duration, mode, finished: false, just_finished: false }
    }

    /// Advances the timer by `delta` microseconds and says whether this tick
    /// reached the duration.
    pub fn tick(&mut self, delta: u64) -> (just_finished: bool)
        ensures
            *final(self) == old(self).spec_tick(delta),
            just_finished == old(self).spec_tick(delta).just_finished,
    {
        if self.mode == TimerMode::Once && self.finished {
            self.just_finished = false;
            return false;
        }
        let counted = count(self.duration, self.mode, self.elapsed, delta);
        self.elapsed = counted.0;
        self.finished = counted.1;
        self.just_finished = counted.2;
        self.just_finished
    }

    /// Puts the timer back at its start.
    pub fn reset(&mut self)
        ensures
            *final(self) == old(self).spec_reset(),
    {
        self.elapsed = 0;
        self.finished = false;
        self.just_finished = false;
    }
}

/// The sum of `deltas`.
pub open spec fn total(deltas: Seq<u64>) -> nat
    decreases deltas.len(),
{
    if deltas.len() == 0 {
        0
    } else {
        total(deltas.drop_last()) + deltas.last() as nat
    }
}

impl Timer {
    /// The timer after one tick for each of `deltas`, in order.
    pub open spec fn spec_run(self, deltas: Seq<u64>) -> Timer
        decreases deltas.len(),
    {
        if deltas.len() == 0 {
            self
        } else {
            self.spec_run(deltas.drop_last()).spec_tick(deltas.last())
        }
    }

    /// How many of those ticks reach the duration.
    pub open spec fn spec_completions(self, deltas: Seq<u64>) -> nat
        decreases deltas.len(),
    {
        if deltas.len() == 0 {
            0
        } else if self.spec_run(deltas).just_finished {
            self.spec_completions(deltas.drop_last()) + 1
        } else {
            self.spec_completions(deltas.drop_last())
        }
    }
}

/// A repeating timer completes once for every full duration that passes:
/// over ticks that are each shorter than the duration, the number of ticks
/// that reach the duration is the time that passed divided by the duration,
/// and what is left on the timer is the remainder. So ticks that sum to `n`
/// cooldowns, counted from the start of a cooldown, complete exactly `n`
/// times.
pub proof fn lemma_cooldowns_count(t: Timer, deltas: Seq<u64>)
    requires
        t.mode == TimerMode::Repeating,
        0 < t.duration <= u64::MAX / 1000,
        t.elapsed < t.duration,
        forall|i: int| 0 <= i < deltas.len() ==> #[trigger] deltas[i] < t.duration,
    ensures
        t.spec_run(deltas).mode == TimerMode::Repeating,
        t.spec_run(deltas).duration == t.duration,
        t.spec_run(deltas).elapsed == (t.elapsed + total(deltas)) % (t.duration as int),
        t.spec_completions(deltas) == (t.elapsed + total(deltas)) / (t.duration as int),
    decreases deltas.len(),
{
    let cd = t.duration as int;
    if deltas.len() == 0 {
        lemma_fundamental_div_mod_converse(t.elapsed as int, cd, 0, t.elapsed as int);
    } else {
        let front = deltas.drop_last();
        let d = deltas.last() as int;
        assert forall|i: int| 0 <= i < front.len() implies #[trigger] front[i] < t.duration by {
            assert(front[i] == deltas[i]);
        }
        lemma_cooldowns_count(t, front);
        let before = t.spec_run(front);
        let passed = t.elapsed + total(front);
        let q = passed / cd;
        let e = before.elapsed as int;
        lemma_fundamental_div_mod(passed, cd);
        assert(passed == q * cd + e) by (nonlinear_arith)
            requires
                passed == cd * q + e,
        ;
        assert(deltas[deltas.len() - 1] < t.duration);
        if e + d >= cd {
            let left = e + d - cd;
            lemma_fundamental_div_mod_converse(e + d, cd, 1, left);
            assert(((left * 1000) % 0x1_0000_0000_0000_0000) / 1000 == left) by {
                assert(0 <= left * 1000 < 0x1_0000_0000_0000_0000) by (nonlinear_arith)
                    requires
                        0 <= left < cd,
                        cd <= 18446744073709551,
                ;
                lemma_fundamental_div_mod_converse(left * 1000, 0x1_0000_0000_0000_0000, 0, left * 1000);
                lemma_fundamental_div_mod_converse(left * 1000, 1000, left, 0);
            }
            assert(1int % 0x1_0000_0000 == 1) by {
                lemma_fundamental_div_mod_converse(1, 0x1_0000_0000, 0, 1);
            }
            assert(passed + d == (q + 1) * cd + left) by (nonlinear_arith)
                requires
                    passed == q * cd + e,
                    left == e + d - cd,
            ;
            lemma_fundamental_div_mod_converse(passed + d, cd, q + 1, left);
        } else {
            assert(passed + d == q * cd + (e + d));
            lemma_fundamental_div_mod_converse(passed + d, cd, q, e + d);
        }
    }
}

} // verus!
