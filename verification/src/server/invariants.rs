//! What holds of the units at every tick: health only ever goes down, a unit
//! has a target only while it is `Attacking`, and after every tick a unit is
//! `Attacking` exactly while it has somebody to attack.

use vstd::prelude::*;
use crate::common::{Health, PlayerNumber, Projectile, ServerMessage, Unit, UnitState};
use crate::geometry::ArenaPos;
use crate::seq_search::{first, lemma_first_sound};
use crate::server::ai::{
    after_attack, after_movement, after_stun, fallen_back, is_alive, lemma_fire_keeps_units,
    reachable, shots_upto, spec_next_state, units_after_attacks,
};
use crate::server::ai::{
    AggroRadius, Attack, AttackTargetType, AttackType, Movement, StunnedTimer,
};
use crate::server::networking::SpawnOrder;
use crate::server::projectiles::units_after_projectiles;
use crate::server::units::{
    after_giant, lookup_tower, units_after_giants, Hitbox, UnitRecord, UnitType,
};
use crate::timer::{Timer, TimerMode};
use crate::server::world::{has_id, lookup, present, WorldView};

verus! {

impl UnitRecord {
    /// The unit is `Attacking` exactly while its attack, or its giant part,
    /// has a target; it has at most one of the two; and it is not
    /// `Attacking` while it is stunned.
    pub open spec fn is_consistent(self) -> bool {
        &&& !(self.attack is Some && self.giant is Some)
        &&& self.attack matches Some(a) ==> (a.target is Some <==> self.state
            == UnitState::Attacking)
        &&& self.giant matches Some(g) ==> (g.target is Some <==> self.state
            == UnitState::Attacking)
        &&& self.attack is None && self.giant is None ==> self.state != UnitState::Attacking
        &&& self.stun is Some ==> self.state != UnitState::Attacking
    }

    /// The unit has a target only while it is `Attacking`. This holds at
    /// every moment of a tick, also between the attacks, which take a lost
    /// target away, and the decisions, which then end the attack.
    pub open spec fn is_tidy(self) -> bool {
        &&& !(self.attack is Some && self.giant is Some)
        &&& self.attack matches Some(a) ==> (a.target is Some ==> self.state
            == UnitState::Attacking)
        &&& self.giant matches Some(g) ==> (g.target is Some <==> self.state
            == UnitState::Attacking)
        &&& self.attack is None && self.giant is None ==> self.state != UnitState::Attacking
        &&& self.stun is Some ==> self.state != UnitState::Attacking
    }
}

/// `after` is what became of `before`: the same entity, with the same
/// maximal health and no more health than before, still within its maximum
/// if it was, and still tidy if it was.
pub open spec fn evolves(before: UnitRecord, after: UnitRecord) -> bool {
    &&& after.entity == before.entity
    &&& after.health.1 == before.health.1
    &&& after.health.0 <= before.health.0
    &&& before.health.is_valid() ==> after.health.is_valid()
    &&& before.is_tidy() ==> after.is_tidy()
}

/// Every unit of `before` that was consistent is so in `after`, place by
/// place.
pub open spec fn all_stay_consistent(before: Seq<UnitRecord>, after: Seq<UnitRecord>) -> bool {
    &&& after.len() == before.len()
    &&& forall|j: int|
        0 <= j < before.len() && before[j].is_consistent() ==> (#[trigger] after[j]).is_consistent()
}

/// `after` holds, place by place, what became of the units of `before`.
pub open spec fn all_evolve(before: Seq<UnitRecord>, after: Seq<UnitRecord>) -> bool {
    &&& after.len() == before.len()
    &&& forall|j: int| 0 <= j < before.len() ==> evolves(before[j], #[trigger] after[j])
}

/// Every unit of `units` is consistent and has no more health than its
/// maximum.
pub open spec fn all_sound(units: Seq<UnitRecord>) -> bool {
    forall|j: int|
        0 <= j < units.len() ==> (#[trigger] units[j]).is_consistent() && units[j].health.is_valid()
}

/// A unit is spawned consistent and at full health.
pub proof fn lemma_spawned_is_sound(kind: Unit, entity: u64, pos: ArenaPos, owner: PlayerNumber)
    ensures
        kind.spec_record(entity, pos, owner).is_consistent(),
        kind.spec_record(entity, pos, owner).health.is_valid(),
{
}

/// A unit that decided what to do next is `Attacking` only with a target
/// that is on the arena as it decides; and a unit whose target is gone stops
/// `Attacking` with this decision.
pub proof fn lemma_decision_is_sound(me: UnitRecord, units: Seq<UnitRecord>)
    requires
        me.is_tidy(),
        me.attack is Some,
    ensures
        spec_next_state(me, units).is_consistent(),
        spec_next_state(me, units).state == UnitState::Attacking ==> {
            &&& spec_next_state(me, units).attack->0.target matches Some(t)
            &&& present(units, t)
        },
        me.stun is None && me.attack->0.target is Some && !present(
            units,
            me.attack->0.target->0,
        ) ==> spec_next_state(me, units) == fallen_back(me),
        me.stun is None && me.state == UnitState::Attacking && me.attack->0.target is None
            ==> spec_next_state(me, units) == fallen_back(me),
{
    let r = spec_next_state(me, units);
    if me.stun is None && me.state != UnitState::Attacking {
        let near = reachable(me, me.attack->0.range as nat);
        lemma_first_sound(units, near);
        if first(units, near) is Some {
            lemma_present(units, first(units, near)->0);
        }
    }
}

/// Every unit of the arena is there under its own identifier.
pub proof fn lemma_present(units: Seq<UnitRecord>, i: int)
    requires
        0 <= i < units.len(),
    ensures
        lookup(units, units[i].entity) matches Some(j) && j <= i && units[j].entity
            == units[i].entity,
{
    lemma_first_sound(units, has_id(units[i].entity));
    if first(units, has_id(units[i].entity)) is Some {
        let j = first(units, has_id(units[i].entity))->0;
        if i < j {
            assert(!has_id(units[i].entity)(units[i]));
        }
    } else {
        assert(!has_id(units[i].entity)(units[i]));
    }
}

/// A giant after its turn is `Attacking` only a tower that is on the arena.
pub proof fn lemma_giant_is_sound(me: UnitRecord, units: Seq<UnitRecord>, delta: u64)
    requires
        me.is_tidy(),
    ensures
        after_giant(me, units, delta).is_tidy(),
        me.is_consistent() ==> after_giant(me, units, delta).is_consistent(),
        me.giant is Some && me.movement is Some && after_giant(me, units, delta).state
            == UnitState::Attacking ==> {
            &&& after_giant(me, units, delta).giant->0.target matches Some(t)
            &&& lookup_tower(units, t) is Some
        },
{
}

/// Attacks leave every unit what it was, but for its cooldown and the
/// health it lost.
pub proof fn lemma_attacks_evolve(w: WorldView, delta: u64)
    ensures
        all_evolve(w.units, w.after_attacks(delta).units),
{
    let shots = shots_upto(w.units, delta, w.units.len() as int);
    lemma_fire_keeps_units(WorldView { units: units_after_attacks(w.units, delta), ..w }, shots);
    assert forall|j: int| 0 <= j < w.units.len() implies evolves(
        w.units[j],
        #[trigger] w.after_attacks(delta).units[j],
    ) by {
        let a = after_attack(w.units[j], w.units, delta);
        assert(w.units[j].is_tidy() ==> a.is_tidy());
    }
}

/// The units' decisions keep every unit what it was, and leave every unit
/// consistent that was tidy.
pub proof fn lemma_unit_states_evolve(w: WorldView)
    ensures
        all_evolve(w.units, w.after_unit_states().units),
        forall|j: int|
            0 <= j < w.units.len() && w.units[j].is_tidy() ==> (
            #[trigger] w.after_unit_states().units[j]).is_consistent(),
{
    assert forall|j: int| 0 <= j < w.units.len() implies evolves(
        w.units[j],
        #[trigger] w.after_unit_states().units[j],
    ) && (w.units[j].is_tidy() ==> w.after_unit_states().units[j].is_consistent()) by {
        if w.units[j].is_tidy() && w.units[j].attack is Some {
            lemma_decision_is_sound(w.units[j], w.units);
        }
    }
}

/// The giants' turns leave every unit what it was, but for the health it
/// lost.
pub proof fn lemma_giants_evolve(w: WorldView, delta: u64)
    ensures
        all_evolve(w.units, w.after_giants(delta).units),
        all_stay_consistent(w.units, w.after_giants(delta).units),
{
    assert forall|j: int| 0 <= j < w.units.len() implies evolves(
        w.units[j],
        #[trigger] w.after_giants(delta).units[j],
    ) && (w.units[j].is_consistent() ==> w.after_giants(delta).units[j].is_consistent()) by {
        if w.units[j].is_tidy() {
            lemma_giant_is_sound(w.units[j], w.units, delta);
        }
        let g = after_giant(w.units[j], w.units, delta);
        assert(units_after_giants(w.units, delta)[j].is_consistent() == g.is_consistent());
        assert(units_after_giants(w.units, delta)[j].is_tidy() == g.is_tidy());
    }
}

/// Stun expiry keeps every unit what it was.
pub proof fn lemma_stuns_evolve(w: WorldView, delta: u64)
    ensures
        all_evolve(w.units, w.after_stuns(delta).units),
        all_stay_consistent(w.units, w.after_stuns(delta).units),
{
    assert forall|j: int| 0 <= j < w.units.len() implies evolves(
        w.units[j],
        #[trigger] w.after_stuns(delta).units[j],
    ) && (w.units[j].is_consistent() ==> w.after_stuns(delta).units[j].is_consistent()) by {
        let s = after_stun(w.units[j], delta);
    }
}

/// Movement keeps every unit what it was.
pub proof fn lemma_movements_evolve(w: WorldView, delta: u64)
    ensures
        all_evolve(w.units, w.after_movements(delta).units),
        all_stay_consistent(w.units, w.after_movements(delta).units),
{
    assert forall|j: int| 0 <= j < w.units.len() implies evolves(
        w.units[j],
        #[trigger] w.after_movements(delta).units[j],
    ) && (w.units[j].is_consistent() ==> w.after_movements(delta).units[j].is_consistent()) by {
        let m = after_movement(w.units[j], w.units, delta);
    }
}

/// The projectiles leave every unit what it was, but for the health it lost.
pub proof fn lemma_projectiles_evolve(w: WorldView, delta: u64)
    ensures
        all_evolve(w.units, w.after_projectiles(delta).units),
        all_stay_consistent(w.units, w.after_projectiles(delta).units),
{
    assert forall|j: int| 0 <= j < w.units.len() implies evolves(
        w.units[j],
        #[trigger] w.after_projectiles(delta).units[j],
    ) && (w.units[j].is_consistent() ==> w.after_projectiles(delta).units[j].is_consistent()) by {
        let p = units_after_projectiles(w.units, w.projectiles, delta)[j];
        assert(p.is_consistent() == w.units[j].is_consistent());
        assert(p.is_tidy() == w.units[j].is_tidy());
    }
}

/// What became of what became of a unit became of that unit.
pub proof fn lemma_all_evolve_chain(a: Seq<UnitRecord>, b: Seq<UnitRecord>, c: Seq<UnitRecord>)
    requires
        all_evolve(a, b),
        all_evolve(b, c),
    ensures
        all_evolve(a, c),
{
    assert forall|j: int| 0 <= j < a.len() implies evolves(a[j], #[trigger] c[j]) by {
        assert(evolves(a[j], b[j]));
        assert(evolves(b[j], c[j]));
    }
}

/// Up to the health check, a tick keeps every unit in its place and what it
/// was, but for the health it lost, and it leaves every unit consistent that
/// was tidy.
pub proof fn lemma_systems_evolve(w: WorldView, delta: u64)
    ensures
        all_evolve(w.units, w.before_projectiles(delta).units),
        all_evolve(w.units, w.before_projectiles(delta).after_projectiles(delta).units),
        forall|j: int|
            0 <= j < w.units.len() && w.units[j].is_tidy() ==> (#[trigger] w.before_projectiles(
                delta,
            ).after_projectiles(delta).units[j]).is_consistent(),
{
    let a = w.after_attacks(delta);
    let b = a.after_unit_states();
    let c = b.after_giants(delta);
    let d = c.after_stuns(delta);
    let e = d.after_movements(delta);
    let f = e.after_projectiles(delta);
    lemma_attacks_evolve(w, delta);
    lemma_unit_states_evolve(a);
    lemma_giants_evolve(b, delta);
    lemma_stuns_evolve(c, delta);
    lemma_movements_evolve(d, delta);
    lemma_projectiles_evolve(e, delta);
    lemma_all_evolve_chain(w.units, a.units, b.units);
    lemma_all_evolve_chain(w.units, b.units, c.units);
    lemma_all_evolve_chain(w.units, c.units, d.units);
    lemma_all_evolve_chain(w.units, d.units, e.units);
    lemma_all_evolve_chain(w.units, e.units, f.units);
    assert forall|j: int| 0 <= j < w.units.len() && w.units[j].is_tidy() implies (
    #[trigger] f.units[j]).is_consistent() by {
        assert(evolves(w.units[j], a.units[j]));
        assert(b.units[j].is_consistent());
        assert(c.units[j].is_consistent());
        assert(d.units[j].is_consistent());
        assert(e.units[j].is_consistent());
    }
}

/// Whatever damage a tick does, no unit gains health by it: every unit that
/// is on the arena after the tick was on it before, with the same maximal
/// health and at least as much health as it has now, and it has health left.
pub proof fn lemma_tick_never_heals(w: WorldView, delta: u64, i: int)
    requires
        0 <= i < w.tick(delta).units.len(),
    ensures
        exists|j: int|
            0 <= j < w.units.len() && evolves(w.units[j], w.tick(delta).units[i]) && (
            w.units[j].is_tidy() ==> w.tick(delta).units[i].is_consistent()),
        w.tick(delta).units[i].health.0 > 0,
{
    let f = w.before_projectiles(delta).after_projectiles(delta);
    lemma_systems_evolve(w, delta);
    let u = w.tick(delta).units[i];
    assert(w.tick(delta).units == f.units.filter(is_alive()));
    f.units.lemma_filter_pred(is_alive(), i);
    assert(f.units.filter(is_alive()).contains(u));
    f.units.lemma_filter_contains_rev(is_alive(), u);
    let j = choose|j: int| 0 <= j < f.units.len() && f.units[j] == u;
    assert(evolves(w.units[j], f.units[j]));
}

/// A tick keeps the arena sound: if every unit was consistent and within its
/// maximal health before the tick, every unit is so after it. So after every
/// tick a unit that is `Attacking` has a target, and a unit that has a target
/// is `Attacking`.
pub proof fn lemma_tick_keeps_soundness(w: WorldView, delta: u64)
    requires
        all_sound(w.units),
    ensures
        all_sound(w.tick(delta).units),
{
    assert forall|i: int| 0 <= i < w.tick(delta).units.len() implies (#[trigger] w.tick(
        delta,
    ).units[i]).is_consistent() && w.tick(delta).units[i].health.is_valid() by {
        lemma_tick_never_heals(w, delta, i);
        let j = choose|j: int|
            0 <= j < w.units.len() && evolves(w.units[j], w.tick(delta).units[i]) && (
            w.units[j].is_tidy() ==> w.tick(delta).units[i].is_consistent());
        assert(w.units[j].is_consistent());
    }
}

/// Where an identifier is left, a spawn adds exactly the unit of its kind,
/// as that kind is spawned, behind the units that are there, under the next
/// identifier, and gives exactly the notice of it. Where none is left, it
/// adds nothing and gives no notice.
pub proof fn lemma_spawn_adds_one_unit(w: WorldView, kind: Unit, pos: ArenaPos, owner: PlayerNumber)
    ensures
        w.can_spawn() ==> w.spawn_unit(kind, pos, owner).units == w.units.push(
            kind.spec_record(w.next_entity, pos, owner),
        ) && w.spawn_unit(kind, pos, owner).next_entity == w.next_entity + 1,
        !w.can_spawn() ==> w.spawn_unit(kind, pos, owner) == w,
        w.spawn_unit(kind, pos, owner).projectiles == w.projectiles,
        w.spawn_units(seq![SpawnOrder { kind, pos, owner }]) == w.spawn_unit(kind, pos, owner),
        w.spawn_units_notices(seq![SpawnOrder { kind, pos, owner }]) == (if w.can_spawn() {
            seq![
                ServerMessage::SpawnUnit { server_entity: w.next_entity, unit: kind, pos, owner },
            ]
        } else {
            Seq::<ServerMessage>::empty()
        }),
{
    let orders = seq![SpawnOrder { kind, pos, owner }];
    assert(orders.drop_last() =~= Seq::<SpawnOrder>::empty());
    assert(orders.last() == (SpawnOrder { kind, pos, owner }));
    assert(w.spawn_units(orders.drop_last()) == w);
    assert(w.spawn_units_notices(orders.drop_last()) =~= Seq::<ServerMessage>::empty());
    assert(w.spawn_units_notices(orders) =~= w.spawn_notice(
        (SpawnOrder { kind, pos, owner }).notice(w.next_entity),
    ));
}

/// A Musketeer is spawned with 340 health, a speed of 2 and an aggro radius
/// of 7, on the ground, with a half-unit hitbox, stunned for a second and a
/// half, and with an attack that shoots bullets at anything within 6, once
/// every 0.75 s.
pub proof fn lemma_musketeer_is_as_stated(entity: u64, pos: ArenaPos, owner: PlayerNumber)
    ensures
        Unit::Musketeer.spec_record(entity, pos, owner) == (UnitRecord {
            entity,
            kind: Unit::Musketeer,
            pos,
            owner,
            health: Health(340, 340),
            unit_type: UnitType::Ground,
            state: UnitState::Moving,
            hitbox: Hitbox(500_000),
            attack: Some(
                Attack {
                    target: None,
                    a_type: AttackType::Ranged(Projectile::Bullet),
                    t_type: AttackTargetType::All,
                    cooldown_timer: Timer::spec_new(750_000, TimerMode::Repeating),
                    range: 6_000_000,
                },
            ),
            movement: Some(Movement { target: None, speed: 2_000_000 }),
            aggro_radius: Some(AggroRadius(7_000_000)),
            stun: Some(StunnedTimer(Timer::spec_new(1_500_000, TimerMode::Once))),
            giant: None,
        }),
{
}

/// A spawn keeps the arena sound.
pub proof fn lemma_spawn_keeps_soundness(w: WorldView, kind: Unit, pos: ArenaPos, owner: PlayerNumber)
    requires
        all_sound(w.units),
    ensures
        all_sound(w.spawn_unit(kind, pos, owner).units),
{
    lemma_spawned_is_sound(kind, w.next_entity, pos, owner);
}

} // verus!
