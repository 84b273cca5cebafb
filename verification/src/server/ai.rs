//! Targeting, movement and combat of units: the parts a unit is made of, and
//! the systems that run over all units once per tick.

use vstd::prelude::*;
use crate::common::{Health, PlayerNumber, Projectile, ServerMessage, UnitState};
use crate::geometry::{spec_dist2, spec_step_toward, spec_within, step_toward, ArenaPos};
use crate::seq_search::{
    first, is_first, lemma_first_is, lemma_first_none, lemma_first_sound, lemma_sum_upto_agree,
    lemma_sum_upto_none, lemma_sum_upto_single, sum_upto,
};
use crate::server::units::{UnitRecord, UnitType};
use crate::server::world::{find_unit, lookup, present, Shot, World, WorldView};
use crate::timer::{lemma_cooldowns_count, total, Timer, TimerMode};

verus! {

/// How long a unit stays stunned after its spawn, in microseconds.
pub const STUN_DURATION: u64 = 1_500_000;

/// How an attack does its damage.
#[derive(Clone, Copy, Debug, PartialEq, Eq, Structural)]
pub enum AttackType {
    /// Directly, by this much.
    Melee(u16),
    /// By a projectile of this kind.
    Ranged(Projectile),
}

/// What an attack can be aimed at.
#[derive(Clone, Copy, Debug, PartialEq, Eq, Structural)]
pub enum AttackTargetType {
    /// Units on the ground only.
    Ground,
    /// Any unit.
    All,
}

/// A unit's attack: whom it is aimed at, what it does, and how often.
#[derive(Clone, Copy, Debug, PartialEq, Eq, Structural)]
pub struct Attack {
    /// The entity under attack; set exactly while the unit is `Attacking`.
    pub target: Option<u64>,
    pub a_type: AttackType,
    pub t_type: AttackTargetType,
    pub cooldown_timer: Timer,
    pub range: u32,
}

impl Attack {
    /// An attack without a target, at the start of its cooldown.
    pub open spec fn spec_new(
        a_type: AttackType,
        targets: AttackTargetType,
        cd: u64,
        range: u32,
    ) -> Attack {
        Attack {
            target: None,
            a_type,
            t_type: targets,
            cooldown_timer: Timer::spec_new(cd, TimerMode::Repeating),
            range,
        }
    }

    /// An attack without a target, with a repeating cooldown of `cd`
    /// microseconds.
    pub fn new(a_type: AttackType, targets: AttackTargetType, cd: u64, range: u32) -> (a: Attack)
        ensures
            a == Attack::spec_new(a_type, targets, cd, range),
    {
        Attack {
            target: None,
            a_type,
            t_type: targets,
            cooldown_timer: Timer::new(cd, TimerMode::Repeating),
            range,
        }
    }
}

/// A unit's ability to move: toward whom, and how fast (per second).
#[derive(Clone, Copy, Debug, PartialEq, Eq, Structural)]
pub struct Movement {
    pub target: Option<u64>,
    pub speed: u32,
}

impl Movement {
    /// Movement at `speed`, as yet toward nothing.
    pub fn new(speed: u32) -> (m: Movement)
        ensures
            m == (Movement { target: None, speed }),
    {
        Movement { target: None, speed }
    }
}

/// Marks a freshly spawned unit: while it is there the unit neither moves
/// nor reconsiders what it does.
#[derive(Clone, Copy, Debug, PartialEq, Eq, Structural)]
pub struct StunnedTimer(pub Timer);

impl StunnedTimer {
    /// The stun of a fresh spawn: a second and a half, once.
    pub open spec fn spec_default() -> StunnedTimer {
        StunnedTimer(Timer::spec_new(STUN_DURATION, TimerMode::Once))
    }
}

impl Default for StunnedTimer {
    fn default() -> (s: StunnedTimer)
        ensures
            s == StunnedTimer::spec_default(),
    {
        StunnedTimer(Timer::new(STUN_DURATION, TimerMode::Once))
    }
}

/// The distance within which a unit turns toward an enemy that it cannot
/// reach yet.
#[derive(Clone, Copy, Debug, PartialEq, Eq, Structural)]
pub struct AggroRadius(pub u32);


/// Whether a unit of `owner` whose attack aims at `t_type` may go for `c`:
/// never for one of its own side, and a ground-only attack not for a flier.
pub open spec fn can_target(owner: PlayerNumber, t_type: AttackTargetType, c: UnitRecord) -> bool {
    c.owner != owner && !(t_type == AttackTargetType::Ground && c.unit_type == UnitType::Air)
}

/// The test "`me` may go for this unit, and it is within `radius` of `me`".
pub open spec fn reachable(me: UnitRecord, radius: nat) -> spec_fn(UnitRecord) -> bool {
    |c: UnitRecord|
        me.attack matches Some(a) && can_target(me.owner, a.t_type, c) && spec_within(
            me.pos,
            c.pos,
            radius,
        )
}

/// A tower of the other side.
pub open spec fn is_enemy_tower(owner: PlayerNumber, c: UnitRecord) -> bool {
    c.movement is None && c.owner != owner
}

/// `a` is the better tower to walk to from `pos` than `b`: it is nearer, or
/// as near and of the lower identifier.
pub open spec fn closer(pos: ArenaPos, a: UnitRecord, b: UnitRecord) -> bool {
    spec_dist2(pos, a.pos) < spec_dist2(pos, b.pos) || (spec_dist2(pos, a.pos) == spec_dist2(
        pos,
        b.pos,
    ) && a.entity < b.entity)
}

/// `i` is the position of an enemy tower than which none is better.
pub open spec fn is_nearest_at(
    units: Seq<UnitRecord>,
    pos: ArenaPos,
    owner: PlayerNumber,
    i: int,
) -> bool {
    &&& 0 <= i < units.len()
    &&& is_enemy_tower(owner, units[i])
    &&& forall|j: int|
        0 <= j < units.len() && is_enemy_tower(owner, #[trigger] units[j]) ==> !closer(
            pos,
            units[j],
            units[i],
        )
}

/// `id` names an enemy tower than which none is better.
pub open spec fn is_nearest_tower(
    units: Seq<UnitRecord>,
    pos: ArenaPos,
    owner: PlayerNumber,
    id: u64,
) -> bool {
    exists|i: int| is_nearest_at(units, pos, owner, i) && units[i].entity == id
}

/// The nearest tower of the other side, seen from `pos`; of several equally
/// near, the one with the lowest identifier. None where the other side has
/// no tower left.
pub open spec fn nearest_tower(units: Seq<UnitRecord>, pos: ArenaPos, owner: PlayerNumber) -> Option<
    u64,
> {
    if exists|id: u64| is_nearest_tower(units, pos, owner, id) {
        Some(choose|id: u64| is_nearest_tower(units, pos, owner, id))
    } else {
        None
    }
}

/// Finds the nearest tower of the other side.
pub fn find_nearest_tower(units: &Vec<UnitRecord>, pos: ArenaPos, owner: PlayerNumber) -> (r:
    Option<u64>)
    ensures
        r == nearest_tower(units@, pos, owner),
        r is None <==> forall|j: int|
            0 <= j < units.len() ==> !is_enemy_tower(owner, #[trigger] units@[j]),
{
    let mut best: Option<usize> = None;
    let mut best_d2: u128 = 0;
    let mut i: usize = 0;
    while i < units.len()
        invariant
            i <= units.len(),
            match best {
                Some(b) => b < i && is_enemy_tower(owner, units@[b as int]) && best_d2
                    == spec_dist2(pos, units@[b as int].pos) && forall|j: int|
                    0 <= j < i && is_enemy_tower(owner, #[trigger] units@[j]) ==> !closer(
                        pos,
                        units@[j],
                        units@[b as int],
                    ),
                None => forall|j: int| 0 <= j < i ==> !is_enemy_tower(owner, #[trigger] units@[j]),
            },
        decreases units.len() - i,
    {
        let c = units[i];
        if c.movement.is_none() && c.owner != owner {
            let d2 = pos.distance_squared(&c.pos);
            let better = match best {
                Some(b) => d2 < best_d2 || (d2 == best_d2 && c.entity < units[b].entity),
                None => true,
            };
            if better {
                best = Some(i);
                best_d2 = d2;
            }
        }
        i += 1;
    }
    match best {
        Some(b) => {
            let id = units[b].entity;
            proof {
                assert(is_nearest_at(units@, pos, owner, b as int));
                assert(is_nearest_tower(units@, pos, owner, id));
                let chosen = choose|id: u64| is_nearest_tower(units@, pos, owner, id);
                let k = choose|k: int| is_nearest_at(units@, pos, owner, k) && units@[k].entity == chosen;
                assert(!closer(pos, units@[k], units@[b as int]));
                assert(!closer(pos, units@[b as int], units@[k]));
            }
            Some(id)
        },
        None => {
            proof {
                if exists|id: u64| is_nearest_tower(units@, pos, owner, id) {
                    let chosen = choose|id: u64| is_nearest_tower(units@, pos, owner, id);
                    let k = choose|k: int| is_nearest_at(units@, pos, owner, k) && units@[k].entity == chosen;
                    assert(is_enemy_tower(owner, units@[k]));
                }
            }
            None
        },
    }
}

/// `me` with its attack aimed at `target`.
pub open spec fn with_attack_target(me: UnitRecord, target: Option<u64>) -> UnitRecord {
    match me.attack {
        Some(a) => UnitRecord { attack: Some(Attack { target, ..a }), ..me },
        None => me,
    }
}

/// `me` walking toward `target`.
pub open spec fn with_movement_target(me: UnitRecord, target: Option<u64>) -> UnitRecord {
    match me.movement {
        Some(m) => UnitRecord { movement: Some(Movement { target, ..m }), ..me },
        None => me,
    }
}

/// `me` after it gave up its attack: without a target, `Moving` if it can
/// move and `Idle` if it cannot.
pub open spec fn fallen_back(me: UnitRecord) -> UnitRecord {
    UnitRecord {
        state: if me.movement is Some {
            UnitState::Moving
        } else {
            UnitState::Idle
        },
        ..with_attack_target(me, None)
    }
}

/// `me` walking toward the nearest enemy tower, or keeping its course where
/// no enemy tower is left.
pub open spec fn toward_tower(me: UnitRecord, units: Seq<UnitRecord>) -> UnitRecord {
    match nearest_tower(units, me.pos, me.owner) {
        Some(t) => with_movement_target(me, Some(t)),
        None => me,
    }
}

/// What a unit that is not attacking does next. If a unit that it may go for
/// is within its attack range, it starts `Attacking` the first such unit in
/// the arena's order, wherever others stand. If there is none and the unit
/// can move, it walks toward the first unit that it may go for within its
/// aggro radius. With nobody there either it walks toward the nearest enemy
/// tower.
pub open spec fn spec_acquire(me: UnitRecord, units: Seq<UnitRecord>) -> UnitRecord {
    match first(units, reachable(me, me.attack->0.range as nat)) {
        Some(i) => UnitRecord {
            state: UnitState::Attacking,
            ..with_attack_target(me, Some(units[i].entity))
        },
        None => match spec_mobile_reach(me) {
            Some(r) => match first(units, reachable(me, r as nat)) {
                Some(i) => with_movement_target(me, Some(units[i].entity)),
                None => toward_tower(me, units),
            },
            None => toward_tower(me, units),
        },
    }
}

/// What a unit does next, among `units`. A stunned unit, and one without an
/// attack, stays as it is.
///
/// A unit that is attacking goes on while its target is on the arena and
/// within attack range; otherwise it falls back. A unit that is not
/// attacking looks for somebody to attack, as `spec_acquire` says.
pub open spec fn spec_next_state(me: UnitRecord, units: Seq<UnitRecord>) -> UnitRecord {
    if me.stun is Some || me.attack is None {
        me
    } else if me.state == UnitState::Attacking {
        match me.attack->0.target {
            Some(t) => match lookup(units, t) {
                Some(j) => if spec_within(me.pos, units[j].pos, me.attack->0.range as nat) {
                    me
                } else {
                    fallen_back(me)
                },
                None => fallen_back(me),
            },
            None => fallen_back(me),
        }
    } else {
        spec_acquire(me, units)
    }
}

/// An enemy within attack range is attacked, wherever it stands in the
/// arena's order and whoever else is within the aggro radius: a unit that is
/// awake and not attacking, with a unit that it may go for within its attack
/// range, is `Attacking` after its decision, and its target is such a unit.
pub proof fn lemma_enemy_in_range_is_attacked(me: UnitRecord, units: Seq<UnitRecord>, k: int)
    requires
        me.stun is None,
        me.attack is Some,
        me.state != UnitState::Attacking,
        0 <= k < units.len(),
        reachable(me, me.attack->0.range as nat)(units[k]),
    ensures
        spec_next_state(me, units).state == UnitState::Attacking,
        exists|i: int|
            0 <= i < units.len() && reachable(me, me.attack->0.range as nat)(#[trigger] units[i])
                && spec_next_state(me, units).attack->0.target == Some(units[i].entity),
{
    let p = reachable(me, me.attack->0.range as nat);
    lemma_first_sound(units, p);
    let i = first(units, p)->0;
    assert(p(units[i]));
}

/// Gives up the attack of `me`.
fn fall_back(me: UnitRecord) -> (r: UnitRecord)
    requires
        me.attack is Some,
    ensures
        r == fallen_back(me),
{
    let mut r = me;
    match me.attack {
        Some(a) => {
            r.attack = Some(Attack { target: None, ..a });
        },
        None => {},
    }
    r.state = if me.movement.is_some() {
        UnitState::Moving
    } else {
        UnitState::Idle
    };
    r
}

/// The aggro radius of a unit that can move.
pub open spec fn spec_mobile_reach(me: UnitRecord) -> Option<u32> {
    match (me.movement, me.aggro_radius) {
        (Some(_), Some(r)) => Some(r.0),
        _ => None,
    }
}

/// Finds the first unit that `me` may go for within `radius`.
fn find_within(me: &UnitRecord, a: &Attack, units: &Vec<UnitRecord>, radius: u32) -> (r: Option<
    usize,
>)
    requires
        me.attack == Some(*a),
    ensures
        match r {
            Some(i) => first(units@, reachable(*me, radius as nat)) == Some(i as int) && i
                < units.len(),
            None => first(units@, reachable(*me, radius as nat)) is None,
        },
{
    let mut i: usize = 0;
    while i < units.len()
        invariant
            i <= units.len(),
            me.attack == Some(*a),
            forall|j: int| 0 <= j < i ==> !reachable(*me, radius as nat)(#[trigger] units@[j]),
        decreases units.len() - i,
    {
        let c = units[i];
        let eligible = c.owner != me.owner && !(a.t_type == AttackTargetType::Ground && c.unit_type
            == UnitType::Air);
        if eligible && me.pos.within(&c.pos, radius as u64) {
            proof {
                assert(is_first(units@, reachable(*me, radius as nat), i as int));
                lemma_first_is(units@, reachable(*me, radius as nat), i as int);
            }
            return Some(i);
        }
        i += 1;
    }
    proof {
        lemma_first_none(units@, reachable(*me, radius as nat));
    }
    None
}

/// Sends `me` toward the nearest enemy tower.
fn head_for_tower(me: UnitRecord, units: &Vec<UnitRecord>) -> (r: UnitRecord)
    ensures
        r == toward_tower(me, units@),
{
    let mut r = me;
    match me.movement {
        Some(m) => {
            match find_nearest_tower(units, me.pos, me.owner) {
                Some(t) => {
                    r.movement = Some(Movement { target: Some(t), ..m });
                },
                None => {},
            }
        },
        None => {},
    }
    r
}

/// Decides what `me` does next, among `units`.
pub fn next_state(me: UnitRecord, units: &Vec<UnitRecord>) -> (r: UnitRecord)
    ensures
        r == spec_next_state(me, units@),
{
    let a = match me.attack {
        Some(a) => a,
        None => {
            return me;
        },
    };
    if me.stun.is_some() {
        return me;
    }
    if me.state == UnitState::Attacking {
        let t = match a.target {
            Some(t) => t,
            None => {
                return fall_back(me);
            },
        };
        match find_unit(units, t) {
            Some(j) => {
                if me.pos.within(&units[j].pos, a.range as u64) {
                    me
                } else {
                    fall_back(me)
                }
            },
            None => fall_back(me),
        }
    } else {
        match find_within(&me, &a, units, a.range) {
            Some(i) => {
                return UnitRecord {
                    state: UnitState::Attacking,
                    attack: Some(Attack { target: Some(units[i].entity), ..a }),
                    ..me
                };
            },
            None => {},
        }
        match (me.movement, me.aggro_radius) {
            (Some(m), Some(reach)) => match find_within(&me, &a, units, reach.0) {
                Some(i) => UnitRecord {
                    movement: Some(Movement { target: Some(units[i].entity), ..m }),
                    ..me
                },
                None => head_for_tower(me, units),
            },
            _ => head_for_tower(me, units),
        }
    }
}

/// Every unit of `units` after it decided what to do next.
pub open spec fn spec_update_unit_state(units: Seq<UnitRecord>) -> Seq<UnitRecord> {
    units.map_values(|u: UnitRecord| spec_next_state(u, units))
}

impl World {
    /// Lets every unit decide what to do next, each looking at the arena as
    /// it was before any of them decided.
    pub fn update_unit_state(&mut self)
        ensures
            final(self)@ == old(self)@.after_unit_states(),
    {
        let mut out: Vec<UnitRecord> = Vec::new();
        let mut i: usize = 0;
        while i < self.units.len()
            invariant
                i <= self.units.len(),
                out@.len() == i,
                *self == *old(self),
                forall|j: int| 0 <= j < i ==> out@[j] == spec_next_state(self.units@[j], self.units@),
            decreases self.units.len() - i,
        {
            let r = next_state(self.units[i], &self.units);
            out.push(r);
            i += 1;
        }
        assert(out@ == spec_update_unit_state(self.units@));
        self.units = out;
    }
}


/// Whether the attack of `me` goes off in a tick of `delta` microseconds: it
/// has a target, the target is on the arena, and the cooldown completes.
pub open spec fn attack_fires(me: UnitRecord, units: Seq<UnitRecord>, delta: u64) -> bool {
    me.attack matches Some(a) && a.target matches Some(t) && lookup(units, t) is Some
        && a.cooldown_timer.spec_tick(delta).just_finished
}

/// What a tick of `delta` microseconds does to the attack of `me`, but for
/// the damage. Without a target the cooldown starts over, so that the next
/// engagement begins with a full one. With a target that is on the arena the
/// cooldown advances. A target that is no longer on the arena is lost: the
/// attack is left without a target, its cooldown untouched.
pub open spec fn after_attack(me: UnitRecord, units: Seq<UnitRecord>, delta: u64) -> UnitRecord {
    match me.attack {
        None => me,
        Some(a) => match a.target {
            None => UnitRecord {
                attack: Some(Attack { cooldown_timer: a.cooldown_timer.spec_reset(), ..a }),
                ..me
            },
            Some(t) => if lookup(units, t) is Some {
                UnitRecord {
                    attack: Some(Attack { cooldown_timer: a.cooldown_timer.spec_tick(delta), ..a }),
                    ..me
                }
            } else {
                with_attack_target(me, None)
            },
        },
    }
}

/// The melee blow that `me` lands in this tick: the position of the unit it
/// hits, and the damage.
pub open spec fn melee_blow(me: UnitRecord, units: Seq<UnitRecord>, delta: u64) -> Option<
    (int, u16),
> {
    if attack_fires(me, units, delta) {
        match me.attack->0.a_type {
            AttackType::Melee(d) => Some((lookup(units, me.attack->0.target->0)->0, d)),
            AttackType::Ranged(_) => None,
        }
    } else {
        None
    }
}

/// The projectile that `me` shoots in this tick, from where it stands, locked
/// onto its target.
pub open spec fn shot_of(me: UnitRecord, units: Seq<UnitRecord>, delta: u64) -> Option<Shot> {
    if attack_fires(me, units, delta) {
        match me.attack->0.a_type {
            AttackType::Melee(_) => None,
            AttackType::Ranged(kind) => Some(
                Shot { kind, attacker: me.entity, receiver: me.attack->0.target->0, pos: me.pos },
            ),
        }
    } else {
        None
    }
}

/// For each position `k`, the melee damage that the unit at `k` does in this
/// tick to the unit at `victim`.
pub open spec fn melee_on(units: Seq<UnitRecord>, delta: u64, victim: int) -> spec_fn(int) -> nat {
    |k: int|
        match melee_blow(units[k], units, delta) {
            Some((v, d)) => if v == victim {
                d as nat
            } else {
                0
            },
            None => 0,
        }
}

/// The projectiles that the first `n` units shoot in this tick, in order.
pub open spec fn shots_upto(units: Seq<UnitRecord>, delta: u64, n: int) -> Seq<Shot>
    decreases n,
{
    if n <= 0 {
        Seq::empty()
    } else {
        match shot_of(units[n - 1], units, delta) {
            Some(s) => shots_upto(units, delta, n - 1).push(s),
            None => shots_upto(units, delta, n - 1),
        }
    }
}

/// The units after every attack of this tick: each with its cooldown
/// advanced, and with its health lowered by all the melee damage done to it.
pub open spec fn units_after_attacks(units: Seq<UnitRecord>, delta: u64) -> Seq<UnitRecord> {
    Seq::new(
        units.len(),
        |j: int|
            UnitRecord {
                health: units[j].health.after_damage(
                    sum_upto(melee_on(units, delta, j), units.len() as int),
                ),
                ..after_attack(units[j], units, delta)
            },
    )
}

/// Whatever the damage, the health that is left is between nothing and the
/// maximum, is no more than before, and the maximum is what it was.
pub proof fn lemma_damage_is_bounded(h: Health, amount: nat)
    requires
        h.is_valid(),
    ensures
        0 <= h.after_damage(amount).0 <= h.0 <= h.1,
        h.after_damage(amount).1 == h.1,
        h.after_damage(amount).is_valid(),
{
}

/// A melee blow that lands alone takes its damage from the unit it is aimed
/// at, stopping at zero, and changes no other unit's health.
pub proof fn lemma_one_melee_blow(units: Seq<UnitRecord>, delta: u64, i: int, v: int, d: u16)
    requires
        0 <= i < units.len(),
        melee_blow(units[i], units, delta) == Some((v, d)),
        forall|k: int|
            0 <= k < units.len() && k != i ==> melee_blow(#[trigger] units[k], units, delta)
                is None,
    ensures
        0 <= v < units.len(),
        forall|j: int|
            0 <= j < units.len() ==> (#[trigger] units_after_attacks(units, delta)[j]).health == (
            if j == v {
                units[j].health.after_damage(d as nat)
            } else {
                units[j].health
            }),
{
    lemma_first_sound(units, crate::server::world::has_id(units[i].attack->0.target->0));
    assert forall|j: int| 0 <= j < units.len() implies (#[trigger] units_after_attacks(
        units,
        delta,
    )[j]).health == (if j == v {
        units[j].health.after_damage(d as nat)
    } else {
        units[j].health
    }) by {
        let f = melee_on(units, delta, j);
        assert forall|k: int| 0 <= k < units.len() && k != i implies #[trigger] f(k) == 0 by {
            assert(melee_blow(units[k], units, delta) is None);
        }
        lemma_sum_upto_single(f, units.len() as int, i);
    }
}

/// Where no melee blow lands, the attacks change no unit's health.
pub proof fn lemma_no_melee_blow(units: Seq<UnitRecord>, delta: u64)
    requires
        forall|k: int|
            0 <= k < units.len() ==> melee_blow(#[trigger] units[k], units, delta) is None,
    ensures
        forall|j: int|
            0 <= j < units.len() ==> (#[trigger] units_after_attacks(units, delta)[j]).health
                == units[j].health,
{
    assert forall|j: int| 0 <= j < units.len() implies (#[trigger] units_after_attacks(
        units,
        delta,
    )[j]).health == units[j].health by {
        let f = melee_on(units, delta, j);
        assert forall|k: int| 0 <= k < units.len() implies #[trigger] f(k) == 0 by {
            assert(melee_blow(units[k], units, delta) is None);
        }
        lemma_sum_upto_none(f, units.len() as int);
    }
}

/// The unit `me` after the attacks of several ticks in a row, each on its
/// own arena and of its own length.
pub open spec fn after_attacks_of(
    me: UnitRecord,
    arenas: Seq<Seq<UnitRecord>>,
    deltas: Seq<u64>,
) -> UnitRecord
    decreases deltas.len(),
{
    if deltas.len() == 0 || arenas.len() != deltas.len() {
        me
    } else {
        after_attack(
            after_attacks_of(me, arenas.drop_last(), deltas.drop_last()),
            arenas.last(),
            deltas.last(),
        )
    }
}

/// The projectiles that `me` shoots in those ticks, in order.
pub open spec fn shots_of(me: UnitRecord, arenas: Seq<Seq<UnitRecord>>, deltas: Seq<u64>) -> Seq<
    Shot,
>
    decreases deltas.len(),
{
    if deltas.len() == 0 || arenas.len() != deltas.len() {
        Seq::empty()
    } else {
        let earlier = shots_of(me, arenas.drop_last(), deltas.drop_last());
        match shot_of(
            after_attacks_of(me, arenas.drop_last(), deltas.drop_last()),
            arenas.last(),
            deltas.last(),
        ) {
            Some(s) => earlier.push(s),
            None => earlier,
        }
    }
}

/// While the target of a ranged attack stays on the arena, the attack
/// changes nothing of its unit but the cooldown, which runs on from tick to
/// tick, and it shoots one projectile at its target for each tick that
/// completes the cooldown.
pub proof fn lemma_ranged_attack_runs(
    me: UnitRecord,
    arenas: Seq<Seq<UnitRecord>>,
    deltas: Seq<u64>,
    kind: Projectile,
    t: u64,
)
    requires
        arenas.len() == deltas.len(),
        me.attack is Some,
        me.attack->0.a_type == AttackType::Ranged(kind),
        me.attack->0.target == Some(t),
        forall|k: int| 0 <= k < arenas.len() ==> present(#[trigger] arenas[k], t),
    ensures
        after_attacks_of(me, arenas, deltas) == (UnitRecord {
            attack: Some(
                Attack {
                    cooldown_timer: me.attack->0.cooldown_timer.spec_run(deltas),
                    ..me.attack->0
                },
            ),
            ..me
        }),
        shots_of(me, arenas, deltas).len() == me.attack->0.cooldown_timer.spec_completions(deltas),
        forall|i: int|
            0 <= i < shots_of(me, arenas, deltas).len() ==> #[trigger] shots_of(
                me,
                arenas,
                deltas,
            )[i] == (Shot { kind, attacker: me.entity, receiver: t, pos: me.pos }),
    decreases deltas.len(),
{
    if deltas.len() > 0 {
        let front = arenas.drop_last();
        assert forall|k: int| 0 <= k < front.len() implies present(#[trigger] front[k], t) by {
            assert(front[k] == arenas[k]);
        }
        lemma_ranged_attack_runs(me, front, deltas.drop_last(), kind, t);
        assert(present(arenas[arenas.len() - 1], t));
    }
}

/// A ranged attack whose target stays on the arena shoots exactly once for
/// every cooldown that passes: over ticks that are each shorter than the
/// cooldown and that sum to `n` cooldowns, counted from the start of a
/// cooldown, it shoots `n` projectiles, each from where its unit stands and
/// locked onto its target.
pub proof fn lemma_cooldowns_give_shots(
    me: UnitRecord,
    arenas: Seq<Seq<UnitRecord>>,
    deltas: Seq<u64>,
    kind: Projectile,
    t: u64,
    n: nat,
)
    requires
        arenas.len() == deltas.len(),
        me.attack is Some,
        me.attack->0.a_type == AttackType::Ranged(kind),
        me.attack->0.target == Some(t),
        forall|k: int| 0 <= k < arenas.len() ==> present(#[trigger] arenas[k], t),
        me.attack->0.cooldown_timer.mode == TimerMode::Repeating,
        me.attack->0.cooldown_timer.elapsed == 0,
        0 < me.attack->0.cooldown_timer.duration <= u64::MAX / 1000,
        forall|k: int|
            0 <= k < deltas.len() ==> #[trigger] deltas[k] < me.attack->0.cooldown_timer.duration,
        total(deltas) == n * me.attack->0.cooldown_timer.duration,
    ensures
        shots_of(me, arenas, deltas).len() == n,
        forall|i: int|
            0 <= i < n ==> #[trigger] shots_of(me, arenas, deltas)[i] == (Shot {
                kind,
                attacker: me.entity,
                receiver: t,
                pos: me.pos,
            }),
        after_attacks_of(me, arenas, deltas).health == me.health,
{
    let timer = me.attack->0.cooldown_timer;
    lemma_ranged_attack_runs(me, arenas, deltas, kind, t);
    lemma_cooldowns_count(timer, deltas);
    vstd::arithmetic::div_mod::lemma_fundamental_div_mod_converse(
        total(deltas) as int,
        timer.duration as int,
        n as int,
        0,
    );
}

/// Damage adds up: two blows do what one blow of their sum does.
pub proof fn lemma_damage_adds(h: Health, a: nat, b: nat)
    ensures
        h.after_damage(a).after_damage(b) == h.after_damage(a + b),
{
}

/// For each position `k`, the damage that the blow at `k` does to the unit
/// at `victim`.
pub open spec fn blow_on(blows: Seq<Option<(usize, u16)>>, victim: int) -> spec_fn(int) -> nat {
    |k: int|
        match blows[k] {
            Some((v, d)) => if v == victim {
                d as nat
            } else {
                0
            },
            None => 0,
        }
}

/// Lands every blow of `blows` on the unit it is aimed at: each unit loses
/// the sum of what is aimed at it, and nothing else changes.
pub fn land_blows(units: &mut Vec<UnitRecord>, blows: &Vec<Option<(usize, u16)>>)
    requires
        forall|k: int|
            0 <= k < blows.len() ==> (#[trigger] blows@[k] matches Some((v, _)) ==> v < old(
                units,
            ).len()),
    ensures
        final(units)@.len() == old(units)@.len(),
        forall|j: int|
            0 <= j < old(units)@.len() ==> (#[trigger] final(units)@[j]) == (UnitRecord {
                health: old(units)@[j].health.after_damage(
                    sum_upto(blow_on(blows@, j), blows.len() as int),
                ),
                ..old(units)@[j]
            }),
{
    let ghost before = units@;
    let mut k: usize = 0;
    while k < blows.len()
        invariant
            k <= blows.len(),
            units@.len() == before.len(),
            forall|k: int|
                0 <= k < blows.len() ==> (#[trigger] blows@[k] matches Some((v, _)) ==> v
                    < before.len()),
            forall|j: int|
                0 <= j < before.len() ==> (#[trigger] units@[j]) == (UnitRecord {
                    health: before[j].health.after_damage(sum_upto(blow_on(blows@, j), k as int)),
                    ..before[j]
                }),
        decreases blows.len() - k,
    {
        proof {
            assert forall|j: int| 0 <= j < before.len() implies sum_upto(
                blow_on(blows@, j),
                k as int + 1,
            ) == sum_upto(blow_on(blows@, j), k as int) + blow_on(blows@, j)(k as int) by {}
        }
        match blows[k] {
            Some((v, d)) => {
                let mut t = units[v];
                t.health.damage(d);
                units.set(v, t);
                proof {
                    lemma_damage_adds(
                        before[v as int].health,
                        sum_upto(blow_on(blows@, v as int), k as int),
                        d as nat,
                    );
                }
            },
            None => {},
        }
        k += 1;
    }
}

/// Advances the cooldown of `me` and says what its attack does: the melee
/// blow that it lands, and the projectile that it shoots.
fn attack(me: UnitRecord, units: &Vec<UnitRecord>, delta: u64) -> (r: (
    UnitRecord,
    Option<(usize, u16)>,
    Option<Shot>,
))
    ensures
        r.0 == after_attack(me, units@, delta),
        match r.1 {
            Some((v, d)) => melee_blow(me, units@, delta) == Some((v as int, d)) && v
                < units.len(),
            None => melee_blow(me, units@, delta) is None,
        },
        r.2 == shot_of(me, units@, delta),
{
    let a = match me.attack {
        Some(a) => a,
        None => {
            return (me, None, None);
        },
    };
    let mut timer = a.cooldown_timer;
    let t = match a.target {
        Some(t) => t,
        None => {
            timer.reset();
            let r = UnitRecord { attack: Some(Attack { cooldown_timer: timer, ..a }), ..me };
            return (r, None, None);
        },
    };
    let v = match find_unit(units, t) {
        Some(v) => v,
        None => {
            let r = UnitRecord { attack: Some(Attack { target: None, ..a }), ..me };
            return (r, None, None);
        },
    };
    let fires = timer.tick(delta);
    let r = UnitRecord { attack: Some(Attack { cooldown_timer: timer, ..a }), ..me };
    if !fires {
        return (r, None, None);
    }
    match a.a_type {
        AttackType::Melee(d) => (r, Some((v, d)), None),
        AttackType::Ranged(kind) => (
            r,
            None,
            Some(Shot { kind, attacker: me.entity, receiver: t, pos: me.pos }),
        ),
    }
}

/// What a tick of `delta` microseconds does to the stun of `me`: it runs
/// down, and is taken off on the tick that completes it.
pub open spec fn after_stun(me: UnitRecord, delta: u64) -> UnitRecord {
    match me.stun {
        Some(s) => if s.0.spec_tick(delta).just_finished {
            UnitRecord { stun: None, ..me }
        } else {
            UnitRecord { stun: Some(StunnedTimer(s.0.spec_tick(delta))), ..me }
        },
        None => me,
    }
}

/// Where `me` is after a tick of `delta` microseconds. Only a unit that can
/// move, is not stunned and is `Moving` toward a target does anything: it
/// takes one step toward where its target stands among `units`, or forgets a
/// target that is no longer there.
pub open spec fn after_movement(me: UnitRecord, units: Seq<UnitRecord>, delta: u64) -> UnitRecord {
    match me.movement {
        Some(m) => if me.stun is Some || me.state != UnitState::Moving {
            me
        } else {
            match m.target {
                Some(t) => match lookup(units, t) {
                    Some(j) => UnitRecord {
                        pos: spec_step_toward(me.pos, units[j].pos, m.speed, delta),
                        ..me
                    },
                    None => with_movement_target(me, None),
                },
                None => me,
            }
        },
        None => me,
    }
}

/// Moves `me` by one tick.
fn movement_step(me: UnitRecord, units: &Vec<UnitRecord>, delta: u64) -> (r: UnitRecord)
    ensures
        r == after_movement(me, units@, delta),
{
    let m = match me.movement {
        Some(m) => m,
        None => {
            return me;
        },
    };
    if me.stun.is_some() || me.state != UnitState::Moving {
        return me;
    }
    let t = match m.target {
        Some(t) => t,
        None => {
            return me;
        },
    };
    match find_unit(units, t) {
        Some(j) => UnitRecord { pos: step_toward(me.pos, units[j].pos, m.speed, delta), ..me },
        None => UnitRecord { movement: Some(Movement { target: None, ..m }), ..me },
    }
}

/// The test "has health left".
pub open spec fn is_alive() -> spec_fn(UnitRecord) -> bool {
    |u: UnitRecord| u.health.0 != 0
}

/// The test "has no health left".
pub open spec fn is_dead() -> spec_fn(UnitRecord) -> bool {
    |u: UnitRecord| u.health.0 == 0
}

/// The notice that tells clients to remove a unit.
pub open spec fn despawn_notice() -> spec_fn(UnitRecord) -> ServerMessage {
    |u: UnitRecord| ServerMessage::Despawn(u.entity)
}


impl WorldView {
    /// The arena after every unit's attack.
    pub open spec fn after_attacks(self, delta: u64) -> WorldView {
        (WorldView { units: units_after_attacks(self.units, delta), ..self }).fire(
            shots_upto(self.units, delta, self.units.len() as int),
        )
    }

    /// The notices of the projectiles that the attacks spawn.
    pub open spec fn attack_notices(self, delta: u64) -> Seq<ServerMessage> {
        self.fire_notices(shots_upto(self.units, delta, self.units.len() as int))
    }

    /// The arena after every unit decided what to do next.
    pub open spec fn after_unit_states(self) -> WorldView {
        WorldView { units: spec_update_unit_state(self.units), ..self }
    }

    /// The arena after every stun ran down by `delta`.
    pub open spec fn after_stuns(self, delta: u64) -> WorldView {
        WorldView { units: self.units.map_values(|u: UnitRecord| after_stun(u, delta)), ..self }
    }

    /// The arena after every unit moved.
    pub open spec fn after_movements(self, delta: u64) -> WorldView {
        WorldView {
            units: self.units.map_values(|u: UnitRecord| after_movement(u, self.units, delta)),
            ..self
        }
    }

    /// The arena without the units whose health is gone.
    pub open spec fn after_health_check(self) -> WorldView {
        WorldView { units: self.units.filter(is_alive()), ..self }
    }

    /// The despawn notices of the units whose health is gone.
    pub open spec fn death_notices(self) -> Seq<ServerMessage> {
        self.units.filter(is_dead()).map_values(despawn_notice())
    }
}

impl World {
    /// Whether the side against `owner` has a tower left on the arena. Where
    /// it has none there is nothing left for the units of `owner` to walk to:
    /// the match is over.
    pub fn enemy_tower_left(&self, owner: PlayerNumber) -> (left: bool)
        ensures
            left == exists|j: int|
                0 <= j < self.units@.len() && is_enemy_tower(owner, #[trigger] self.units@[j]),
    {
        find_nearest_tower(&self.units, ArenaPos(0, 0), owner).is_some()
    }

    /// Runs every unit's attack for a tick of `delta` microseconds. Melee
    /// damage is done at once; each ranged attack spawns its projectile, and
    /// the notices of those spawns are returned in order.
    pub fn update_attacks(&mut self, delta: u64) -> (msgs: Vec<ServerMessage>)
        ensures
            final(self)@ == old(self)@.after_attacks(delta),
            msgs@ == old(self)@.attack_notices(delta),
    {
        let ghost units = self.units@;
        let ghost before = self@;
        let n = self.units.len();
        let mut out: Vec<UnitRecord> = Vec::new();
        let mut blows: Vec<Option<(usize, u16)>> = Vec::new();
        let mut shots: Vec<Shot> = Vec::new();
        let mut i: usize = 0;
        while i < n
            invariant
                i <= n,
                n == units.len(),
                *self == *old(self),
                units == self.units@,
                out@.len() == i,
                blows@.len() == i,
                shots@ == shots_upto(units, delta, i as int),
                forall|j: int| 0 <= j < i ==> (#[trigger] out@[j]) == after_attack(units[j], units, delta),
                forall|j: int|
                    0 <= j < i ==> match #[trigger] blows@[j] {
                        Some((v, d)) => melee_blow(units[j], units, delta) == Some((v as int, d))
                            && v < n,
                        None => melee_blow(units[j], units, delta) is None,
                    },
            decreases n - i,
        {
            let (r, blow, shot) = attack(self.units[i], &self.units, delta);
            out.push(r);
            blows.push(blow);
            match shot {
                Some(s) => {
                    shots.push(s);
                },
                None => {},
            }
            i += 1;
        }
        let ghost ticked = out@;
        land_blows(&mut out, &blows);
        proof {
            assert forall|j: int| 0 <= j < n implies out@[j] == units_after_attacks(units, delta)[j] by {
                let f = blow_on(blows@, j);
                let g = melee_on(units, delta, j);
                assert forall|k: int| 0 <= k < n implies #[trigger] f(k) == g(k) by {
                    let b = blows@[k];
                }
                lemma_sum_upto_agree(f, g, n as int);
                assert(ticked[j] == after_attack(units[j], units, delta));
            }
            assert(out@ == units_after_attacks(units, delta));
        }
        self.units = out;
        let ghost struck = self@;
        let mut msgs: Vec<ServerMessage> = Vec::new();
        let mut k: usize = 0;
        assert(shots@.take(0) == Seq::<Shot>::empty());
        while k < shots.len()
            invariant
                k <= shots.len(),
                self@ == struck.fire(shots@.take(k as int)),
                msgs@ == struck.fire_notices(shots@.take(k as int)),
            decreases shots.len() - k,
        {
            let s = shots[k];
            proof {
                let next = shots@.take(k as int + 1);
                assert(next.drop_last() == shots@.take(k as int));
                assert(next.last() == s);
            }
            match self.spawn_projectile(s.kind, s.attacker, s.receiver, s.pos) {
                Some(m) => {
                    msgs.push(m);
                },
                None => {
                    assert(msgs@ + Seq::<ServerMessage>::empty() == msgs@);
                },
            }
            k += 1;
        }
        proof {
            assert(shots@.take(shots@.len() as int) == shots@);
            lemma_fire_apart(before, struck, shots@);
        }
        msgs
    }

    /// Runs down the stun of every stunned unit by `delta` microseconds.
    pub fn update_stun_timers(&mut self, delta: u64)
        ensures
            final(self)@ == old(self)@.after_stuns(delta),
    {
        let mut out: Vec<UnitRecord> = Vec::new();
        let mut i: usize = 0;
        while i < self.units.len()
            invariant
                i <= self.units.len(),
                out@.len() == i,
                *self == *old(self),
                forall|j: int| 0 <= j < i ==> out@[j] == after_stun(self.units@[j], delta),
            decreases self.units.len() - i,
        {
            let mut r = self.units[i];
            match r.stun {
                Some(s) => {
                    let mut timer = s.0;
                    if timer.tick(delta) {
                        r.stun = None;
                    } else {
                        r.stun = Some(StunnedTimer(timer));
                    }
                },
                None => {},
            }
            out.push(r);
            i += 1;
        }
        assert(out@ == self.units@.map_values(|u: UnitRecord| after_stun(u, delta)));
        self.units = out;
    }

    /// Moves every unit by one tick of `delta` microseconds, each toward
    /// where its target stood before any of them moved.
    pub fn update_movement(&mut self, delta: u64)
        ensures
            final(self)@ == old(self)@.after_movements(delta),
    {
        let mut out: Vec<UnitRecord> = Vec::new();
        let mut i: usize = 0;
        while i < self.units.len()
            invariant
                i <= self.units.len(),
                out@.len() == i,
                *self == *old(self),
                forall|j: int|
                    0 <= j < i ==> out@[j] == after_movement(self.units@[j], self.units@, delta),
            decreases self.units.len() - i,
        {
            let r = movement_step(self.units[i], &self.units, delta);
            out.push(r);
            i += 1;
        }
        assert(out@ == self.units@.map_values(
            |u: UnitRecord| after_movement(u, self.units@, delta),
        ));
        self.units = out;
    }

    /// Removes every unit whose health is gone and returns one despawn
    /// notice for each, in order. Nothing else removes a unit.
    pub fn check_health(&mut self) -> (msgs: Vec<ServerMessage>)
        ensures
            final(self)@ == old(self)@.after_health_check(),
            msgs@ == old(self)@.death_notices(),
    {
        let mut out: Vec<UnitRecord> = Vec::new();
        let mut msgs: Vec<ServerMessage> = Vec::new();
        let mut i: usize = 0;
        assert(self.units@.take(0) == Seq::<UnitRecord>::empty());
        while i < self.units.len()
            invariant
                i <= self.units.len(),
                *self == *old(self),
                out@ == self.units@.take(i as int).filter(is_alive()),
                msgs@ == self.units@.take(i as int).filter(is_dead()).map_values(despawn_notice()),
            decreases self.units.len() - i,
        {
            let u = self.units[i];
            proof {
                let prefix = self.units@.take(i as int);
                assert(self.units@.take(i as int + 1) == prefix.push(u));
                Seq::lemma_filter_push(prefix, u, is_alive());
                Seq::lemma_filter_push(prefix, u, is_dead());
                prefix.filter(is_dead()).lemma_push_map_commute(despawn_notice(), u);
            }
            if u.health.is_dead() {
                msgs.push(ServerMessage::Despawn(u.entity));
            } else {
                out.push(u);
            }
            i += 1;
        }
        assert(self.units@.take(self.units@.len() as int) == self.units@);
        self.units = out;
        msgs
    }
}

/// Spawning projectiles leaves the units alone.
pub proof fn lemma_fire_keeps_units(w: WorldView, shots: Seq<Shot>)
    ensures
        w.fire(shots).units == w.units,
    decreases shots.len(),
{
    if shots.len() > 0 {
        lemma_fire_keeps_units(w, shots.drop_last());
    }
}

/// What spawning projectiles does to the projectiles and the identifiers
/// does not depend on the units.
pub proof fn lemma_fire_apart(a: WorldView, b: WorldView, shots: Seq<Shot>)
    requires
        a.projectiles == b.projectiles,
        a.next_entity == b.next_entity,
    ensures
        a.fire(shots).projectiles == b.fire(shots).projectiles,
        a.fire(shots).next_entity == b.fire(shots).next_entity,
        b.fire(shots).units == b.units,
        a.fire_notices(shots) == b.fire_notices(shots),
    decreases shots.len(),
{
    if shots.len() > 0 {
        lemma_fire_apart(a, b, shots.drop_last());
    }
    lemma_fire_keeps_units(b, shots);
}

} // verus!
