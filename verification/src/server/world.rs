//! The entities of a match and the identifiers they go by.
//!
//! Units and projectiles are kept in the order in which they were spawned;
//! every walk over them follows that order. Identifiers are handed out in
//! rising order and never used twice.

use vstd::prelude::*;
use crate::common::{PlayerNumber, Projectile, ServerMessage, Unit};
use crate::geometry::ArenaPos;
use crate::lifecycle::Ledger;
use crate::seq_search::{first, is_first, lemma_first_is, lemma_first_none};
use crate::server::units::UnitRecord;

verus! {

/// A projectile in flight. It is locked onto `target` from its spawn to its
/// end.
#[derive(Clone, Copy, Debug, PartialEq, Eq, Structural)]
pub struct ProjectileRecord {
    pub entity: u64,
    pub kind: Projectile,
    pub attacker: u64,
    pub target: u64,
    pub pos: ArenaPos,
    pub speed: u32,
    pub radius: u32,
}

/// A projectile about to be spawned.
#[derive(Clone, Copy, Debug, PartialEq, Eq, Structural)]
pub struct Shot {
    pub kind: Projectile,
    pub attacker: u64,
    pub receiver: u64,
    pub pos: ArenaPos,
}

/// Everything that is on the arena.
#[derive(Clone, Debug)]
pub struct World {
    pub units: Vec<UnitRecord>,
    pub projectiles: Vec<ProjectileRecord>,
    /// The identifier that the next spawn gets.
    pub next_entity: u64,
}

/// A `World` as plain mathematical data.
pub struct WorldView {
    pub units: Seq<UnitRecord>,
    pub projectiles: Seq<ProjectileRecord>,
    pub next_entity: u64,
}

impl View for World {
    type V = WorldView;

    open spec fn view(&self) -> WorldView {
        WorldView {
            units: self.units@,
            projectiles: self.projectiles@,
            next_entity: self.next_entity,
        }
    }
}

impl Projectile {
    /// How fast a projectile of this kind flies, per second.
    pub open spec fn spec_speed(self) -> u32 {
        match self {
            Projectile::Bullet => 40_000_000,
            Projectile::Fireball => 10_000_000,
            Projectile::Bomb => 15_000_000,
        }
    }

    /// How near its target a projectile of this kind goes off, not counting
    /// the target's hitbox.
    pub open spec fn spec_radius(self) -> u32 {
        match self {
            Projectile::Bullet => 200_000,
            Projectile::Fireball => 1_000_000,
            Projectile::Bomb => 1_000_000,
        }
    }

    /// The damage that a projectile of this kind does to each unit it hits.
    pub open spec fn spec_damage(self) -> u16 {
        match self {
            Projectile::Bullet => 50,
            Projectile::Fireball => 140,
            Projectile::Bomb => 88,
        }
    }

    /// Whether a projectile of this kind hits every ground unit around the
    /// point of impact, not only its target.
    pub open spec fn spec_is_area(self) -> bool {
        self != Projectile::Bullet
    }

    /// How fast a projectile of this kind flies, per second.
    pub fn speed(self) -> (v: u32)
        ensures
            v == self.spec_speed(),
    {
        match self {
            Projectile::Bullet => 40_000_000,
            Projectile::Fireball => 10_000_000,
            Projectile::Bomb => 15_000_000,
        }
    }

    /// How near its target a projectile of this kind goes off.
    pub fn radius(self) -> (r: u32)
        ensures
            r == self.spec_radius(),
    {
        match self {
            Projectile::Bullet => 200_000,
            Projectile::Fireball => 1_000_000,
            Projectile::Bomb => 1_000_000,
        }
    }

    /// The damage that a projectile of this kind does to each unit it hits.
    pub fn damage(self) -> (d: u16)
        ensures
            d == self.spec_damage(),
    {
        match self {
            Projectile::Bullet => 50,
            Projectile::Fireball => 140,
            Projectile::Bomb => 88,
        }
    }

    /// Whether a projectile of this kind hits the ground units around it.
    pub fn is_area(self) -> (area: bool)
        ensures
            area == self.spec_is_area(),
    {
        match self {
            Projectile::Bullet => false,
            _ => true,
        }
    }
}

impl Shot {
    /// The projectile that the shot becomes, under the identifier `entity`.
    pub open spec fn record(self, entity: u64) -> ProjectileRecord {
        ProjectileRecord {
            entity,
            kind: self.kind,
            attacker: self.attacker,
            target: self.receiver,
            pos: self.pos,
            speed: self.kind.spec_speed(),
            radius: self.kind.spec_radius(),
        }
    }

    /// The notice of that projectile's spawn.
    pub open spec fn message(self, entity: u64) -> ServerMessage {
        ServerMessage::SpawnProjectile {
            server_entity: entity,
            projectile: self.kind,
            attacker: self.attacker,
            receiver: self.receiver,
            pos: self.pos,
        }
    }
}

impl WorldView {
    /// No two entities share an identifier, and every identifier in use is
    /// below the next one to be handed out.
    pub open spec fn wf(self) -> bool {
        &&& unit_ids(self.units).no_duplicates()
        &&& projectile_ids(self.projectiles).no_duplicates()
        &&& forall|i: int, j: int|
            0 <= i < self.units.len() && 0 <= j < self.projectiles.len() ==> (
            #[trigger] self.units[i]).entity != (#[trigger] self.projectiles[j]).entity
        &&& forall|i: int|
            0 <= i < self.units.len() ==> (#[trigger] self.units[i]).entity < self.next_entity
        &&& forall|j: int|
            0 <= j < self.projectiles.len() ==> (#[trigger] self.projectiles[j]).entity
                < self.next_entity
    }

    /// The identifiers of everything on the arena.
    pub open spec fn live(self) -> Set<u64> {
        unit_ids(self.units).to_set().union(projectile_ids(self.projectiles).to_set())
    }

    /// What the notices sent so far have told the clients of the arena.
    pub open spec fn ledger(self) -> Ledger {
        Ledger { live: self.live(), next: self.next_entity }
    }

    /// Whether an identifier is left to spawn with.
    pub open spec fn can_spawn(self) -> bool {
        self.next_entity < u64::MAX
    }

    /// The arena after `shot` was spawned; unchanged where no identifier is
    /// left.
    pub open spec fn spawn_projectile(self, shot: Shot) -> WorldView {
        if self.can_spawn() {
            WorldView {
                projectiles: self.projectiles.push(shot.record(self.next_entity)),
                next_entity: (self.next_entity + 1) as u64,
                ..self
            }
        } else {
            self
        }
    }

    /// The arena after a unit of `kind` was spawned; unchanged where no
    /// identifier is left.
    pub open spec fn spawn_unit(self, kind: Unit, pos: ArenaPos, owner: PlayerNumber) -> WorldView {
        if self.can_spawn() {
            WorldView {
                units: self.units.push(kind.spec_record(self.next_entity, pos, owner)),
                next_entity: (self.next_entity + 1) as u64,
                ..self
            }
        } else {
            self
        }
    }

    /// The notices of what a spawn adds to the arena: one, or none where no
    /// identifier is left.
    pub open spec fn spawn_notice(self, msg: ServerMessage) -> Seq<ServerMessage> {
        if self.can_spawn() {
            seq![msg]
        } else {
            Seq::empty()
        }
    }

    /// The arena after all of `shots` were spawned, in order.
    pub open spec fn fire(self, shots: Seq<Shot>) -> WorldView
        decreases shots.len(),
    {
        if shots.len() == 0 {
            self
        } else {
            self.fire(shots.drop_last()).spawn_projectile(shots.last())
        }
    }

    /// The notices of the spawns of `shots`, in order.
    pub open spec fn fire_notices(self, shots: Seq<Shot>) -> Seq<ServerMessage>
        decreases shots.len(),
    {
        if shots.len() == 0 {
            Seq::empty()
        } else {
            let before = self.fire(shots.drop_last());
            self.fire_notices(shots.drop_last()) + before.spawn_notice(
                shots.last().message(before.next_entity),
            )
        }
    }
}

/// The test "is the unit with identifier `id`".
pub open spec fn has_id(id: u64) -> spec_fn(UnitRecord) -> bool {
    |u: UnitRecord| u.entity == id
}

/// The position in `units` of the unit that `id` names, if it is there.
pub open spec fn lookup(units: Seq<UnitRecord>, id: u64) -> Option<int> {
    first(units, has_id(id))
}

/// Whether `id` names a unit of `units`.
pub open spec fn present(units: Seq<UnitRecord>, id: u64) -> bool {
    lookup(units, id) is Some
}

/// The identifier of a unit.
pub open spec fn unit_id() -> spec_fn(UnitRecord) -> u64 {
    |u: UnitRecord| u.entity
}

/// The identifier of a projectile.
pub open spec fn projectile_id() -> spec_fn(ProjectileRecord) -> u64 {
    |p: ProjectileRecord| p.entity
}

/// The identifiers of `units`, in order.
pub open spec fn unit_ids(units: Seq<UnitRecord>) -> Seq<u64> {
    units.map_values(unit_id())
}

/// The identifiers of `projectiles`, in order.
pub open spec fn projectile_ids(projectiles: Seq<ProjectileRecord>) -> Seq<u64> {
    projectiles.map_values(projectile_id())
}

/// Finds the unit that `id` names.
pub fn find_unit(units: &Vec<UnitRecord>, id: u64) -> (r: Option<usize>)
    ensures
        match r {
            Some(i) => lookup(units@, id) == Some(i as int) && i < units.len()
                && units[i as int].entity == id,
            None => lookup(units@, id) is None,
        },
{
    let mut i: usize = 0;
    while i < units.len()
        invariant
            i <= units.len(),
            forall|j: int| 0 <= j < i ==> !has_id(id)(#[trigger] units@[j]),
        decreases units.len() - i,
    {
        if units[i].entity == id {
            proof {
                assert(is_first(units@, has_id(id), i as int));
                lemma_first_is(units@, has_id(id), i as int);
            }
            return Some(i);
        }
        i += 1;
    }
    proof {
        lemma_first_none(units@, has_id(id));
    }
    None
}

impl World {
    /// An empty arena.
    pub fn new() -> (w: World)
        ensures
            w@.units.len() == 0,
            w@.projectiles.len() == 0,
            w@.next_entity == 0,
            w@.wf(),
            w@.ledger() == Ledger::fresh(),
    {
        assert(unit_ids(Seq::<UnitRecord>::empty()).to_set().union(
            projectile_ids(Seq::<ProjectileRecord>::empty()).to_set(),
        ) =~= Set::<u64>::empty());
        World { units: Vec::new(), projectiles: Vec::new(), next_entity: 0 }
    }

    /// Spawns a unit of `kind` for `owner` at `pos` and gives the notice of
    /// it. Nothing is spawned where no identifier is left.
    pub fn spawn_unit(&mut self, kind: Unit, pos: ArenaPos, owner: PlayerNumber) -> (msg: Option<
        ServerMessage,
    >)
        ensures
            final(self)@ == old(self)@.spawn_unit(kind, pos, owner),
            old(self)@.wf() ==> final(self)@.wf(),
            msg == (if old(self)@.can_spawn() {
                Some(
                    ServerMessage::SpawnUnit {
                        server_entity: old(self).next_entity,
                        unit: kind,
                        pos,
                        owner,
                    },
                )
            } else {
                None
            }),
    {
        proof {
            if self@.wf() {
                crate::server::ledger::lemma_spawn_unit_replays(self@, kind, pos, owner);
            }
        }
        if self.next_entity == u64::MAX {
            return None;
        }
        let entity = self.next_entity;
        self.units.push(kind.record(entity, pos, owner));
        self.next_entity = entity + 1;
        Some(ServerMessage::SpawnUnit { server_entity: entity, unit: kind, pos, owner })
    }

    /// Spawns a projectile of `kind` at `pos`, shot by `attacker` and locked
    /// onto `receiver`, and gives the notice of it. Nothing is spawned where
    /// no identifier is left.
    pub fn spawn_projectile(
        &mut self,
        kind: Projectile,
        attacker: u64,
        receiver: u64,
        pos: ArenaPos,
    ) -> (msg: Option<ServerMessage>)
        ensures
            final(self)@ == old(self)@.spawn_projectile(Shot { kind, attacker, receiver, pos }),
            old(self)@.wf() ==> final(self)@.wf(),
            msg == (if old(self)@.can_spawn() {
                Some((Shot { kind, attacker, receiver, pos }).message(old(self).next_entity))
            } else {
                None
            }),
    {
        proof {
            if self@.wf() {
                crate::server::ledger::lemma_spawn_projectile_replays(
                    self@,
                    Shot { kind, attacker, receiver, pos },
                );
            }
        }
        if self.next_entity == u64::MAX {
            return None;
        }
        let entity = self.next_entity;
        self.projectiles.push(
            ProjectileRecord {
                entity,
                kind,
                attacker,
                target: receiver,
                pos,
                speed: kind.speed(),
                radius: kind.radius(),
            },
        );
        self.next_entity = entity + 1;
        Some(
            ServerMessage::SpawnProjectile {
                server_entity: entity,
                projectile: kind,
                attacker,
                receiver,
                pos,
            },
        )
    }
}

} // verus!
