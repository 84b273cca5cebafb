//! What a unit is made of, and the fixed make-up of each kind.

use vstd::prelude::*;
use crate::common::{Health, PlayerNumber, Projectile, Unit, UnitState};
use crate::geometry::{spec_within, ArenaPos};
use crate::seq_search::{lemma_first_sound, lemma_sum_upto_agree, lemma_sum_upto_single, sum_upto};
use crate::server::ai::{
    blow_on, find_nearest_tower, land_blows, nearest_tower, with_movement_target, AggroRadius,
    Attack, AttackTargetType, AttackType, Movement, StunnedTimer,
};
use crate::server::world::{find_unit, lookup, World, WorldView};
use crate::timer::{Timer, TimerMode};

verus! {

/// Whether a unit flies.
#[derive(Clone, Copy, Debug, PartialEq, Eq, Structural)]
pub enum UnitType {
    Air,
    Ground,
}

/// The radius that a unit takes up, for every test of nearness.
#[derive(Clone, Copy, Debug, PartialEq, Eq, Structural)]
pub struct Hitbox(pub u32);

/// What makes a unit a giant: it walks to the nearest enemy tower and hits
/// nothing else.
#[derive(Clone, Copy, Debug, PartialEq, Eq, Structural)]
pub struct Giant {
    /// The tower under attack; set exactly while the giant is `Attacking`.
    pub target: Option<u64>,
    pub attack_range: u32,
    pub damage: u16,
    pub cooldown: Timer,
}

/// One unit or tower of a match, with all of its parts. A tower has no
/// `movement`, a giant has a `giant` part in place of an `attack`.
#[derive(Clone, Copy, Debug, PartialEq, Eq, Structural)]
pub struct UnitRecord {
    pub entity: u64,
    pub kind: Unit,
    pub pos: ArenaPos,
    pub owner: PlayerNumber,
    pub health: Health,
    pub unit_type: UnitType,
    pub state: UnitState,
    pub hitbox: Hitbox,
    pub attack: Option<Attack>,
    pub movement: Option<Movement>,
    pub aggro_radius: Option<AggroRadius>,
    pub stun: Option<StunnedTimer>,
    pub giant: Option<Giant>,
}

impl Unit {
    /// The health that a unit of this kind starts with.
    pub open spec fn spec_max_health(self) -> u16 {
        match self {
            Unit::ArcherTower => 1400,
            Unit::KingTower => 2400,
            Unit::Rus => 690,
            Unit::Musketeer => 340,
            Unit::Bat => 90,
            Unit::Priest => 400,
            Unit::Bomber => 230,
            Unit::Giant => 800,
        }
    }

    /// The attack that a unit of this kind starts with; a giant has none.
    pub open spec fn spec_attack(self) -> Option<Attack> {
        match self {
            Unit::ArcherTower => Some(
                Attack::spec_new(
                    AttackType::Ranged(Projectile::Bullet),
                    AttackTargetType::All,
                    750_000,
                    8_500_000,
                ),
            ),
            Unit::KingTower => Some(
                Attack::spec_new(
                    AttackType::Ranged(Projectile::Fireball),
                    AttackTargetType::All,
                    1_000_000,
                    6_000_000,
                ),
            ),
            Unit::Rus => Some(
                Attack::spec_new(AttackType::Melee(80), AttackTargetType::Ground, 800_000, 2_000_000),
            ),
            Unit::Musketeer => Some(
                Attack::spec_new(
                    AttackType::Ranged(Projectile::Bullet),
                    AttackTargetType::All,
                    750_000,
                    6_000_000,
                ),
            ),
            Unit::Bat => Some(
                Attack::spec_new(AttackType::Melee(80), AttackTargetType::All, 1_000_000, 2_000_000),
            ),
            Unit::Priest => Some(
                Attack::spec_new(
                    AttackType::Ranged(Projectile::Fireball),
                    AttackTargetType::All,
                    750_000,
                    6_000_000,
                ),
            ),
            Unit::Bomber => Some(
                Attack::spec_new(
                    AttackType::Ranged(Projectile::Bomb),
                    AttackTargetType::Ground,
                    700_000,
                    4_500_000,
                ),
            ),
            Unit::Giant => None,
        }
    }

    /// The speed of a unit of this kind, per second; a tower has none.
    pub open spec fn spec_speed(self) -> Option<u32> {
        match self {
            Unit::ArcherTower | Unit::KingTower => None,
            Unit::Rus | Unit::Musketeer | Unit::Priest | Unit::Bomber => Some(2_000_000),
            Unit::Bat => Some(3_000_000),
            Unit::Giant => Some(1_500_000),
        }
    }

    /// The aggro radius of a unit of this kind; towers and giants have none.
    pub open spec fn spec_aggro_radius(self) -> Option<u32> {
        match self {
            Unit::ArcherTower | Unit::KingTower | Unit::Giant => None,
            Unit::Rus | Unit::Bat => Some(5_000_000),
            Unit::Musketeer | Unit::Priest => Some(7_000_000),
            Unit::Bomber => Some(5_500_000),
        }
    }

    /// The hitbox radius of a unit of this kind.
    pub open spec fn spec_hitbox(self) -> u32 {
        match self {
            Unit::ArcherTower => 1_500_000,
            Unit::KingTower => 2_000_000,
            Unit::Giant => 1_000_000,
            _ => 500_000,
        }
    }

    /// Whether a unit of this kind flies.
    pub open spec fn spec_unit_type(self) -> UnitType {
        match self {
            Unit::Bat => UnitType::Air,
            _ => UnitType::Ground,
        }
    }

    /// The giant part of a giant.
    pub open spec fn spec_giant(self) -> Option<Giant> {
        match self {
            Unit::Giant => Some(
                Giant {
                    target: None,
                    attack_range: 2_000_000,
                    damage: 120,
                    cooldown: Timer::spec_new(1_500_000, TimerMode::Repeating),
                },
            ),
            _ => None,
        }
    }

    /// A unit of this kind as it is spawned: at full health, with the parts
    /// and numbers of its kind. A tower stands `Idle`; everything else is
    /// `Moving`, and stunned.
    pub open spec fn spec_record(self, entity: u64, pos: ArenaPos, owner: PlayerNumber) -> UnitRecord {
        let mobile = self.spec_speed() is Some;
        UnitRecord {
            entity,
            kind: self,
            pos,
            owner,
            health: Health(self.spec_max_health(), self.spec_max_health()),
            unit_type: self.spec_unit_type(),
            state: if mobile {
                UnitState::Moving
            } else {
                UnitState::Idle
            },
            hitbox: Hitbox(self.spec_hitbox()),
            attack: self.spec_attack(),
            movement: match self.spec_speed() {
                Some(speed) => Some(Movement { target: None, speed }),
                None => None,
            },
            aggro_radius: match self.spec_aggro_radius() {
                Some(r) => Some(AggroRadius(r)),
                None => None,
            },
            stun: if mobile {
                Some(StunnedTimer::spec_default())
            } else {
                None
            },
            giant: self.spec_giant(),
        }
    }

    /// The parts that tell one kind from another: health, attack, speed,
    /// aggro radius, hitbox radius, whether it flies.
    fn parts(self) -> (p: (u16, Option<Attack>, Option<u32>, Option<u32>, u32, UnitType))
        ensures
            p.0 == self.spec_max_health(),
            p.1 == self.spec_attack(),
            p.2 == self.spec_speed(),
            p.3 == self.spec_aggro_radius(),
            p.4 == self.spec_hitbox(),
            p.5 == self.spec_unit_type(),
    {
        let bullet = AttackType::Ranged(Projectile::Bullet);
        let fireball = AttackType::Ranged(Projectile::Fireball);
        let bomb = AttackType::Ranged(Projectile::Bomb);
        let all = AttackTargetType::All;
        let ground = AttackTargetType::Ground;
        match self {
            Unit::ArcherTower => (
                1400,
                Some(Attack::new(bullet, all, 750_000, 8_500_000)),
                None,
                None,
                1_500_000,
                UnitType::Ground,
            ),
            Unit::KingTower => (
                2400,
                Some(Attack::new(fireball, all, 1_000_000, 6_000_000)),
                None,
                None,
                2_000_000,
                UnitType::Ground,
            ),
            Unit::Rus => (
                690,
                Some(Attack::new(AttackType::Melee(80), ground, 800_000, 2_000_000)),
                Some(2_000_000),
                Some(5_000_000),
                500_000,
                UnitType::Ground,
            ),
            Unit::Musketeer => (
                340,
                Some(Attack::new(bullet, all, 750_000, 6_000_000)),
                Some(2_000_000),
                Some(7_000_000),
                500_000,
                UnitType::Ground,
            ),
            Unit::Bat => (
                90,
                Some(Attack::new(AttackType::Melee(80), all, 1_000_000, 2_000_000)),
                Some(3_000_000),
                Some(5_000_000),
                500_000,
                UnitType::Air,
            ),
            Unit::Priest => (
                400,
                Some(Attack::new(fireball, all, 750_000, 6_000_000)),
                Some(2_000_000),
                Some(7_000_000),
                500_000,
                UnitType::Ground,
            ),
            Unit::Bomber => (
                230,
                Some(Attack::new(bomb, ground, 700_000, 4_500_000)),
                Some(2_000_000),
                Some(5_500_000),
                500_000,
                UnitType::Ground,
            ),
            Unit::Giant => (800, None, Some(1_500_000), None, 1_000_000, UnitType::Ground),
        }
    }

    /// Makes a unit of this kind, as it is spawned.
    pub fn record(self, entity: u64, pos: ArenaPos, owner: PlayerNumber) -> (r: UnitRecord)
        ensures
            r == self.spec_record(entity, pos, owner),
    {
        let (health, attack, speed, aggro, hitbox, unit_type) = self.parts();
        let mobile = speed.is_some();
        UnitRecord {
            entity,
            kind: self,
            pos,
            owner,
            health: Health::new(health),
            unit_type,
            state: if mobile {
                UnitState::Moving
            } else {
                UnitState::Idle
            },
            hitbox: Hitbox(hitbox),
            attack,
            movement: match speed {
                Some(speed) => Some(Movement::new(speed)),
                None => None,
            },
            aggro_radius: match aggro {
                Some(r) => Some(AggroRadius(r)),
                None => None,
            },
            stun: if mobile {
                Some(StunnedTimer::default())
            } else {
                None
            },
            giant: match self {
                Unit::Giant => Some(
                    Giant {
                        target: None,
                        attack_range: 2_000_000,
                        damage: 120,
                        cooldown: Timer::new(1_500_000, TimerMode::Repeating),
                    },
                ),
                _ => None,
            },
        }
    }
}


/// `me` with its giant part aimed at `target`.
pub open spec fn with_giant_target(me: UnitRecord, target: Option<u64>) -> UnitRecord {
    match me.giant {
        Some(g) => UnitRecord { giant: Some(Giant { target, ..g }), ..me },
        None => me,
    }
}

/// The position of the tower that `id` names, if it is a tower on the arena.
pub open spec fn lookup_tower(units: Seq<UnitRecord>, id: u64) -> Option<int> {
    match lookup(units, id) {
        Some(j) => if units[j].movement is None {
            Some(j)
        } else {
            None
        },
        None => None,
    }
}

/// What a giant does in a tick of `delta` microseconds, but for the damage
/// it does. A unit that is no giant, a stunned giant and an idle one stay as
/// they are.
///
/// A giant that is `Moving` without a target takes the nearest enemy tower
/// as its target, and stays without one where no tower is left. With a
/// target that is a tower within its attack range it starts `Attacking` it.
///
/// A giant that is `Attacking` a tower that is on the arena advances its
/// cooldown. Where the tower is gone it drops the target and is `Moving`
/// again.
pub open spec fn after_giant(me: UnitRecord, units: Seq<UnitRecord>, delta: u64) -> UnitRecord {
    match (me.giant, me.movement) {
        (Some(g), Some(m)) => if me.stun is Some {
            me
        } else {
            match me.state {
                UnitState::Idle => me,
                UnitState::Moving => match m.target {
                    Some(t) => match lookup_tower(units, t) {
                        Some(j) => if spec_within(me.pos, units[j].pos, g.attack_range as nat) {
                            UnitRecord {
                                state: UnitState::Attacking,
                                ..with_giant_target(me, Some(t))
                            }
                        } else {
                            me
                        },
                        None => me,
                    },
                    None => with_movement_target(me, nearest_tower(units, me.pos, me.owner)),
                },
                UnitState::Attacking => match g.target {
                    Some(t) => match lookup_tower(units, t) {
                        Some(_) => UnitRecord {
                            giant: Some(Giant { cooldown: g.cooldown.spec_tick(delta), ..g }),
                            ..me
                        },
                        None => UnitRecord {
                            state: UnitState::Moving,
                            ..with_giant_target(me, None)
                        },
                    },
                    None => UnitRecord { state: UnitState::Moving, ..me },
                },
            }
        },
        _ => me,
    }
}

/// The blow that a giant lands in this tick: the position of the tower it
/// hits, and the damage. It lands one when it is `Attacking` a tower that is
/// on the arena and its cooldown completes.
pub open spec fn giant_blow(me: UnitRecord, units: Seq<UnitRecord>, delta: u64) -> Option<
    (int, u16),
> {
    match (me.giant, me.movement) {
        (Some(g), Some(_)) => if me.stun is None && me.state == UnitState::Attacking
            && g.target is Some && lookup_tower(units, g.target->0) is Some
            && g.cooldown.spec_tick(delta).just_finished {
            Some((lookup_tower(units, g.target->0)->0, g.damage))
        } else {
            None
        },
        _ => None,
    }
}

/// For each position `k`, the damage that the giant at `k` does in this tick
/// to the unit at `victim`.
pub open spec fn giant_on(units: Seq<UnitRecord>, delta: u64, victim: int) -> spec_fn(int) -> nat {
    |k: int|
        match giant_blow(units[k], units, delta) {
            Some((v, d)) => if v == victim {
                d as nat
            } else {
                0
            },
            None => 0,
        }
}

/// The units after every giant had its turn: each giant as `after_giant`
/// says, and each unit with its health lowered by what the giants did to it.
pub open spec fn units_after_giants(units: Seq<UnitRecord>, delta: u64) -> Seq<UnitRecord> {
    Seq::new(
        units.len(),
        |j: int|
            UnitRecord {
                health: units[j].health.after_damage(
                    sum_upto(giant_on(units, delta, j), units.len() as int),
                ),
                ..after_giant(units[j], units, delta)
            },
    )
}

/// A giant's blow that lands alone takes its damage from the tower it is
/// aimed at, stopping at zero, and changes no other unit's health.
pub proof fn lemma_one_giant_blow(units: Seq<UnitRecord>, delta: u64, i: int, v: int, d: u16)
    requires
        0 <= i < units.len(),
        giant_blow(units[i], units, delta) == Some((v, d)),
        forall|k: int|
            0 <= k < units.len() && k != i ==> giant_blow(#[trigger] units[k], units, delta)
                is None,
    ensures
        0 <= v < units.len(),
        units[v].movement is None,
        d == units[i].giant->0.damage,
        forall|j: int|
            0 <= j < units.len() ==> (#[trigger] units_after_giants(units, delta)[j]).health == (
            if j == v {
                units[j].health.after_damage(d as nat)
            } else {
                units[j].health
            }),
{
    lemma_first_sound(units, crate::server::world::has_id(units[i].giant->0.target->0));
    assert forall|j: int| 0 <= j < units.len() implies (#[trigger] units_after_giants(
        units,
        delta,
    )[j]).health == (if j == v {
        units[j].health.after_damage(d as nat)
    } else {
        units[j].health
    }) by {
        let f = giant_on(units, delta, j);
        assert forall|k: int| 0 <= k < units.len() && k != i implies #[trigger] f(k) == 0 by {
            assert(giant_blow(units[k], units, delta) is None);
        }
        lemma_sum_upto_single(f, units.len() as int, i);
    }
}

/// Finds the tower that `id` names.
fn find_tower(units: &Vec<UnitRecord>, id: u64) -> (r: Option<usize>)
    ensures
        match r {
            Some(j) => lookup_tower(units@, id) == Some(j as int) && j < units.len(),
            None => lookup_tower(units@, id) is None,
        },
{
    match find_unit(units, id) {
        Some(j) => if units[j].movement.is_none() {
            Some(j)
        } else {
            None
        },
        None => None,
    }
}

/// Gives one giant its turn.
fn giant_step(me: UnitRecord, units: &Vec<UnitRecord>, delta: u64) -> (r: (
    UnitRecord,
    Option<(usize, u16)>,
))
    ensures
        r.0 == after_giant(me, units@, delta),
        match r.1 {
            Some((v, d)) => giant_blow(me, units@, delta) == Some((v as int, d)) && v
                < units.len(),
            None => giant_blow(me, units@, delta) is None,
        },
{
    let (g, m) = match (me.giant, me.movement) {
        (Some(g), Some(m)) => (g, m),
        _ => {
            return (me, None);
        },
    };
    if me.stun.is_some() {
        return (me, None);
    }
    match me.state {
        UnitState::Idle => (me, None),
        UnitState::Moving => {
            match m.target {
                Some(t) => {
                    match find_tower(units, t) {
                        Some(j) => {
                            if me.pos.within(&units[j].pos, g.attack_range as u64) {
                                let r = UnitRecord {
                                    state: UnitState::Attacking,
                                    giant: Some(Giant { target: Some(t), ..g }),
                                    ..me
                                };
                                (r, None)
                            } else {
                                (me, None)
                            }
                        },
                        None => (me, None),
                    }
                },
                None => {
                    let target = find_nearest_tower(units, me.pos, me.owner);
                    (UnitRecord { movement: Some(Movement { target, ..m }), ..me }, None)
                },
            }
        },
        UnitState::Attacking => {
            let t = match g.target {
                Some(t) => t,
                None => {
                    return (UnitRecord { state: UnitState::Moving, ..me }, None);
                },
            };
            match find_tower(units, t) {
                Some(j) => {
                    let mut cooldown = g.cooldown;
                    let fires = cooldown.tick(delta);
                    let r = UnitRecord { giant: Some(Giant { cooldown, ..g }), ..me };
                    if fires {
                        (r, Some((j, g.damage)))
                    } else {
                        (r, None)
                    }
                },
                None => {
                    let r = UnitRecord {
                        state: UnitState::Moving,
                        giant: Some(Giant { target: None, ..g }),
                        ..me
                    };
                    (r, None)
                },
            }
        },
    }
}

impl WorldView {
    /// The arena after every giant had its turn.
    pub open spec fn after_giants(self, delta: u64) -> WorldView {
        WorldView { units: units_after_giants(self.units, delta), ..self }
    }
}

impl World {
    /// Gives every giant its turn for a tick of `delta` microseconds, each
    /// looking at the arena as it was before any of them had its turn.
    pub fn update_giants(&mut self, delta: u64)
        ensures
            final(self)@ == old(self)@.after_giants(delta),
    {
        let ghost units = self.units@;
        let n = self.units.len();
        let mut out: Vec<UnitRecord> = Vec::new();
        let mut blows: Vec<Option<(usize, u16)>> = Vec::new();
        let mut i: usize = 0;
        while i < n
            invariant
                i <= n,
                n == units.len(),
                *self == *old(self),
                units == self.units@,
                out@.len() == i,
                blows@.len() == i,
                forall|j: int| 0 <= j < i ==> (#[trigger] out@[j]) == after_giant(units[j], units, delta),
                forall|j: int|
                    0 <= j < i ==> match #[trigger] blows@[j] {
                        Some((v, d)) => giant_blow(units[j], units, delta) == Some((v as int, d))
                            && v < n,
                        None => giant_blow(units[j], units, delta) is None,
                    },
            decreases n - i,
        {
            let (r, blow) = giant_step(self.units[i], &self.units, delta);
            out.push(r);
            blows.push(blow);
            i += 1;
        }
        let ghost stepped = out@;
        land_blows(&mut out, &blows);
        proof {
            assert forall|j: int| 0 <= j < n implies out@[j] == units_after_giants(units, delta)[j] by {
                let f = blow_on(blows@, j);
                let g = giant_on(units, delta, j);
                assert forall|k: int| 0 <= k < n implies #[trigger] f(k) == g(k) by {
                    let b = blows@[k];
                }
                lemma_sum_upto_agree(f, g, n as int);
                assert(stepped[j] == after_giant(units[j], units, delta));
            }
            assert(out@ == units_after_giants(units, delta));
        }
        self.units = out;
    }
}

} // verus!
