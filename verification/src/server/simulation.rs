//! One tick of the whole simulation: every system once, in a fixed order.

use vstd::prelude::*;
use crate::common::ServerMessage;
use crate::server::invariants::{all_sound, lemma_tick_keeps_soundness};
use crate::server::ledger::lemma_tick_replays;
use crate::server::world::{World, WorldView};

verus! {

impl WorldView {
    /// The arena after one tick of `delta` microseconds. The systems run in
    /// this order: attacks, the units' decisions, the giants' turns, stun
    /// expiry, movement, the projectiles' flight, and the health check. So a
    /// unit whose health went this tick is gone before the next tick's
    /// attacks, and a unit that wakes from its stun does not decide in the
    /// tick in which it wakes.
    pub open spec fn tick(self, delta: u64) -> WorldView {
        self.after_attacks(delta).after_unit_states().after_giants(delta).after_stuns(
            delta,
        ).after_movements(delta).after_projectiles(delta).after_health_check()
    }

    /// The arena just before the projectiles fly in a tick.
    pub open spec fn before_projectiles(self, delta: u64) -> WorldView {
        self.after_attacks(delta).after_unit_states().after_giants(delta).after_stuns(
            delta,
        ).after_movements(delta)
    }

    /// The spawn and despawn notices of one tick, in the order in which the
    /// tick produces them: projectiles spawned by attacks, projectiles gone,
    /// units gone.
    pub open spec fn tick_notices(self, delta: u64) -> Seq<ServerMessage> {
        self.attack_notices(delta) + self.before_projectiles(delta).spent_notices(delta)
            + self.before_projectiles(delta).after_projectiles(delta).death_notices()
    }
}

/// Appends `more` to `to`.
pub fn append_messages(to: &mut Vec<ServerMessage>, more: Vec<ServerMessage>)
    ensures
        final(to)@ == old(to)@ + more@,
{
    let mut more = more;
    to.append(&mut more);
}

impl World {
    /// Advances the simulation by one tick of `delta` microseconds and
    /// returns the spawn and despawn notices of the tick, in order.
    pub fn tick(&mut self, delta: u64) -> (notices: Vec<ServerMessage>)
        ensures
            final(self)@ == old(self)@.tick(delta),
            notices@ == old(self)@.tick_notices(delta),
            old(self)@.wf() ==> final(self)@.wf(),
            all_sound(old(self)@.units) ==> all_sound(final(self)@.units),
    {
        proof {
            if self@.wf() {
                lemma_tick_replays(self@, delta);
            }
            if all_sound(self@.units) {
                lemma_tick_keeps_soundness(self@, delta);
            }
        }
        let mut notices = self.update_attacks(delta);
        self.update_unit_state();
        self.update_giants(delta);
        self.update_stun_timers(delta);
        self.update_movement(delta);
        let spent = self.update_projectiles(delta);
        append_messages(&mut notices, spent);
        let dead = self.check_health();
        append_messages(&mut notices, dead);
        notices
    }
}

} // verus!
