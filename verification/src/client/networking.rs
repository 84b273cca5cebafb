//! Reconciling the server's view with the client's: every spawn notice makes
//! a local entity and an entry in the table from the server's identifiers to
//! the client's own, every despawn notice takes both away, and every
//! snapshot overwrites what the client shows of the entities it knows.

use vstd::prelude::*;
use bevy::utils::HashMap;
use crate::client::units::{overwritten, AssociatedTower, LocalUnit};
use crate::common::{
    Health, PlayerNumber, Projectile, ProjectileSync, ServerMessage, Unit, UnitState, UnitSync,
};
use crate::geometry::ArenaPos;
use crate::seq_search::{
    first, is_first, last, lemma_filter_keeps_distinct, lemma_first_agree, lemma_first_is,
    lemma_first_none, lemma_id_member, lemma_ids_push, lemma_last_agree, lemma_last_push,
    lemma_last_sound,
};

verus! {

/// The table from the server's entity identifiers to the client's own. It is
/// kept in `bevy::utils::HashMap`, which is hashbrown's `HashMap`; nothing is
/// proved of that map, and what the table holds is known only through
/// `mapping_entries` and what the four functions below claim of it.
#[verifier::external_body]
pub struct NetworkMapping(HashMap<u64, u64>);

/// The entries of a `NetworkMapping`.
pub uninterp spec fn mapping_entries(m: NetworkMapping) -> Map<u64, u64>;

/// A table without entries.
pub open spec fn no_entries() -> Map<u64, u64> {
    Map::empty()
}

/// The entry of `m` under `key`, if there is one.
pub open spec fn entry_at(m: Map<u64, u64>, key: u64) -> Option<u64> {
    if m.contains_key(key) {
        Some(m[key])
    } else {
        None
    }
}

impl View for NetworkMapping {
    type V = Map<u64, u64>;

    open spec fn view(&self) -> Map<u64, u64> {
        mapping_entries(*self)
    }
}

impl NetworkMapping {
    /// Calls hashbrown's `HashMap::default`. Claimed, not proved: the new map
    /// has no entries.
    #[verifier::external_body]
    pub(crate) fn new() -> (table: NetworkMapping)
        ensures
            mapping_entries(table) == no_entries(),
    {
        NetworkMapping(HashMap::default())
    }

    /// Calls hashbrown's `HashMap::get`. Claimed, not proved: the result is
    /// the value under `key`, if the map has one.
    #[verifier::external_body]
    pub(crate) fn get(&self, key: u64) -> (value: Option<u64>)
        ensures
            value == entry_at(mapping_entries(*self), key),
    {
        self.0.get(&key).copied()
    }

    /// Calls hashbrown's `HashMap::insert`. Claimed, not proved: afterwards
    /// the map holds `value` under `key` and is otherwise as before, and the
    /// result is what was under `key` before.
    #[verifier::external_body]
    pub(crate) fn insert(&mut self, key: u64, value: u64) -> (previous: Option<u64>)
        ensures
            mapping_entries(*final(self)) == mapping_entries(*old(self)).insert(key, value),
            previous == entry_at(mapping_entries(*old(self)), key),
    {
        self.0.insert(key, value)
    }

    /// Calls hashbrown's `HashMap::remove`. Claimed, not proved: afterwards
    /// the map has nothing under `key` and is otherwise as before, and the
    /// result is what was under `key` before.
    #[verifier::external_body]
    pub(crate) fn remove(&mut self, key: u64) -> (previous: Option<u64>)
        ensures
            mapping_entries(*final(self)) == mapping_entries(*old(self)).remove(key),
            previous == entry_at(mapping_entries(*old(self)), key),
    {
        self.0.remove(&key)
    }
}

/// A projectile as a client shows it, between the local entities of the
/// unit that shot it and the unit it flies to.
#[derive(Clone, Copy, Debug, PartialEq, Eq, Structural)]
pub struct LocalProjectile {
    /// The client's own identifier of the projectile.
    pub entity: u64,
    pub kind: Projectile,
    pub pos: ArenaPos,
    pub attacker: u64,
    pub receiver: u64,
}

/// What a client knows of the match.
pub struct ClientWorld {
    /// The seat of this client's player.
    pub player: PlayerNumber,
    pub mapping: NetworkMapping,
    pub units: Vec<LocalUnit>,
    pub projectiles: Vec<LocalProjectile>,
    /// The identifier that the next local entity gets.
    pub next_local: u64,
}

/// A `ClientWorld` as plain mathematical data.
pub struct ClientModel {
    pub player: PlayerNumber,
    pub mapping: Map<u64, u64>,
    pub units: Seq<LocalUnit>,
    pub projectiles: Seq<LocalProjectile>,
    pub next_local: u64,
}

impl View for ClientWorld {
    type V = ClientModel;

    open spec fn view(&self) -> ClientModel {
        ClientModel {
            player: self.player,
            mapping: self.mapping@,
            units: self.units@,
            projectiles: self.projectiles@,
            next_local: self.next_local,
        }
    }
}

/// The local identifier of a unit.
pub open spec fn local_unit_id() -> spec_fn(LocalUnit) -> u64 {
    |u: LocalUnit| u.entity
}

/// The local identifier of a projectile.
pub open spec fn local_projectile_id() -> spec_fn(LocalProjectile) -> u64 {
    |p: LocalProjectile| p.entity
}

/// The test "is the unit with the local identifier `id`".
pub open spec fn is_unit(id: u64) -> spec_fn(LocalUnit) -> bool {
    |u: LocalUnit| u.entity == id
}

/// The test "is not the unit with the local identifier `id`".
pub open spec fn is_other_unit(id: u64) -> spec_fn(LocalUnit) -> bool {
    |u: LocalUnit| u.entity != id
}

/// The test "is the projectile with the local identifier `id`".
pub open spec fn is_projectile(id: u64) -> spec_fn(LocalProjectile) -> bool {
    |p: LocalProjectile| p.entity == id
}

/// The test "is not the projectile with the local identifier `id`".
pub open spec fn is_other_projectile(id: u64) -> spec_fn(LocalProjectile) -> bool {
    |p: LocalProjectile| p.entity != id
}

impl ClientModel {
    /// The table is one-to-one, no two local entities share an identifier,
    /// and every local identifier in use is below the next one to be handed
    /// out.
    pub open spec fn wf(self) -> bool {
        &&& self.units.map_values(local_unit_id()).no_duplicates()
        &&& self.projectiles.map_values(local_projectile_id()).no_duplicates()
        &&& forall|i: int, j: int|
            0 <= i < self.units.len() && 0 <= j < self.projectiles.len() ==> (
            #[trigger] self.units[i]).entity != (#[trigger] self.projectiles[j]).entity
        &&& forall|i: int|
            0 <= i < self.units.len() ==> (#[trigger] self.units[i]).entity < self.next_local
        &&& forall|j: int|
            0 <= j < self.projectiles.len() ==> (#[trigger] self.projectiles[j]).entity
                < self.next_local
        &&& forall|k: u64| #[trigger]
            self.mapping.contains_key(k) ==> self.mapping[k] < self.next_local
        &&& forall|k: u64, n: u64|
            #[trigger] self.mapping.contains_key(k) && #[trigger] self.mapping.contains_key(n)
                && k != n ==> self.mapping[k] != self.mapping[n]
    }

    /// The position among the units of the unit that the server calls
    /// `server_entity`, if the client knows it.
    pub open spec fn unit_index(self, server_entity: u64) -> Option<int> {
        match entry_at(self.mapping, server_entity) {
            Some(local) => first(self.units, is_unit(local)),
            None => None,
        }
    }

    /// The position among the projectiles of the projectile that the server
    /// calls `server_entity`, if the client knows it.
    pub open spec fn projectile_index(self, server_entity: u64) -> Option<int> {
        match entry_at(self.mapping, server_entity) {
            Some(local) => first(self.projectiles, is_projectile(local)),
            None => None,
        }
    }

    /// The test "is an entry for the unit at position `i`".
    pub open spec fn names_unit(self, i: int) -> spec_fn(UnitSync) -> bool {
        |e: UnitSync| self.unit_index(e.entity) == Some(i)
    }

    /// The test "is an entry for the projectile at position `i`".
    pub open spec fn names_projectile(self, i: int) -> spec_fn(ProjectileSync) -> bool {
        |e: ProjectileSync| self.projectile_index(e.entity) == Some(i)
    }

    /// The client after it was told its seat.
    pub open spec fn start_game(self, player: PlayerNumber) -> ClientModel {
        ClientModel { player, ..self }
    }

    /// How many local identifiers the spawn of a unit of `kind` takes: two
    /// for a tower, one for the tower itself and one for its defender.
    pub open spec fn locals_needed(kind: Unit) -> int {
        if kind.spec_is_tower() {
            2
        } else {
            1
        }
    }

    /// The client after the spawn of a unit: the unit stands where the notice
    /// says, as this client's player sees it, faces up the screen if it is
    /// the player's own and down if not, and is known under the server's
    /// identifier. Nothing happens where the local identifiers run out.
    pub open spec fn spawn_unit(
        self,
        server_entity: u64,
        kind: Unit,
        pos: ArenaPos,
        owner: PlayerNumber,
    ) -> ClientModel {
        let needed = Self::locals_needed(kind);
        if self.next_local + needed > u64::MAX {
            self
        } else {
            let local = (self.next_local + needed - 1) as u64;
            ClientModel {
                units: self.units.push(
                    LocalUnit {
                        entity: local,
                        kind,
                        owner,
                        pos: pos.spec_adjust_for_player(self.player),
                        direction: self.player.spec_spawn_direction(owner),
                        state: UnitState::Idle,
                        health: Health(100, 100),
                        tower: if kind.spec_is_tower() {
                            Some(AssociatedTower(self.next_local))
                        } else {
                            None
                        },
                    },
                ),
                mapping: self.mapping.insert(server_entity, local),
                next_local: (self.next_local + needed) as u64,
                ..self
            }
        }
    }

    /// The client after the spawn of a projectile. A projectile whose
    /// attacker or receiver the client does not know is not shown at all.
    pub open spec fn spawn_projectile(
        self,
        server_entity: u64,
        kind: Projectile,
        attacker: u64,
        receiver: u64,
        pos: ArenaPos,
    ) -> ClientModel {
        match (entry_at(self.mapping, attacker), entry_at(self.mapping, receiver)) {
            (Some(a), Some(r)) => if self.next_local == u64::MAX {
                self
            } else {
                ClientModel {
                    projectiles: self.projectiles.push(
                        LocalProjectile {
                            entity: self.next_local,
                            kind,
                            pos: pos.spec_adjust_for_player(self.player),
                            attacker: a,
                            receiver: r,
                        },
                    ),
                    mapping: self.mapping.insert(server_entity, self.next_local),
                    next_local: (self.next_local + 1) as u64,
                    ..self
                }
            },
            _ => self,
        }
    }

    /// The client after a despawn notice: the entry of the table and the
    /// local entity are gone. A notice of an entity that the client does not
    /// know changes nothing.
    pub open spec fn despawn(self, server_entity: u64) -> ClientModel {
        match entry_at(self.mapping, server_entity) {
            Some(local) => ClientModel {
                mapping: self.mapping.remove(server_entity),
                units: self.units.filter(is_other_unit(local)),
                projectiles: self.projectiles.filter(is_other_projectile(local)),
                ..self
            },
            None => self,
        }
    }

    /// The local entities that a despawn notice removes: the entity itself,
    /// and before it the tower of a tower's defender.
    pub open spec fn despawned(self, server_entity: u64) -> Seq<u64> {
        match entry_at(self.mapping, server_entity) {
            Some(local) => match first(self.units, is_unit(local)) {
                Some(i) => match self.units[i].tower {
                    Some(t) => seq![t.0, local],
                    None => seq![local],
                },
                None => seq![local],
            },
            None => Seq::empty(),
        }
    }

    /// The units after a snapshot's unit entries: each unit shows what the
    /// last entry for it says, and a unit without an entry stays as it is.
    pub open spec fn synced_units(self, entries: Seq<UnitSync>) -> Seq<LocalUnit> {
        Seq::new(
            self.units.len(),
            |i: int|
                match last(entries, self.names_unit(i)) {
                    Some(k) => overwritten(
                        self.units[i],
                        entries[k].pos,
                        entries[k].direction,
                        entries[k].state,
                        entries[k].health,
                        self.player,
                    ),
                    None => self.units[i],
                },
        )
    }

    /// The projectiles after a snapshot's projectile entries: each is where
    /// the last entry for it says, as this client's player sees it.
    pub open spec fn synced_projectiles(self, entries: Seq<ProjectileSync>) -> Seq<LocalProjectile> {
        Seq::new(
            self.projectiles.len(),
            |i: int|
                match last(entries, self.names_projectile(i)) {
                    Some(k) => LocalProjectile {
                        pos: entries[k].pos.spec_adjust_for_player(self.player),
                        ..self.projectiles[i]
                    },
                    None => self.projectiles[i],
                },
        )
    }

    /// The client after a snapshot. Entries of entities that the client does
    /// not know are passed over.
    pub open spec fn sync(self, units: Seq<UnitSync>, projectiles: Seq<ProjectileSync>) -> ClientModel {
        ClientModel {
            units: self.synced_units(units),
            projectiles: self.synced_projectiles(projectiles),
            ..self
        }
    }

    /// The client after any message of the server.
    pub open spec fn handle(self, message: ServerMessage) -> ClientModel {
        match message {
            ServerMessage::StartGame(n) => self.start_game(n),
            ServerMessage::SpawnUnit { server_entity, unit, pos, owner } => self.spawn_unit(
                server_entity,
                unit,
                pos,
                owner,
            ),
            ServerMessage::SpawnProjectile { server_entity, projectile, attacker, receiver, pos } => {
                self.spawn_projectile(server_entity, projectile, attacker, receiver, pos)
            },
            ServerMessage::Despawn(server_entity) => self.despawn(server_entity),
            ServerMessage::SyncEntities { units, projectiles } => self.sync(units@, projectiles@),
        }
    }
}

/// A snapshot that arrives twice does nothing the second time: what the
/// client shows after it took the snapshot in once is what it shows after it
/// took it in again.
pub proof fn lemma_sync_is_idempotent(
    c: ClientModel,
    units: Seq<UnitSync>,
    projectiles: Seq<ProjectileSync>,
)
    ensures
        c.sync(units, projectiles).sync(units, projectiles) == c.sync(units, projectiles),
{
    let d = c.sync(units, projectiles);
    assert forall|i: int| 0 <= i < c.units.len() implies last(units, d.names_unit(i)) == last(
        units,
        c.names_unit(i),
    ) by {
        assert forall|k: int| 0 <= k < units.len() implies d.names_unit(i)(#[trigger] units[k])
            == c.names_unit(i)(units[k]) by {
            let e = units[k];
            if entry_at(c.mapping, e.entity) is Some {
                let local = entry_at(c.mapping, e.entity)->0;
                lemma_first_agree(d.units, is_unit(local), c.units, is_unit(local));
            }
        }
        lemma_last_agree(units, d.names_unit(i), c.names_unit(i));
    }
    assert forall|i: int| 0 <= i < c.projectiles.len() implies last(
        projectiles,
        d.names_projectile(i),
    ) == last(projectiles, c.names_projectile(i)) by {
        assert forall|k: int| 0 <= k < projectiles.len() implies d.names_projectile(i)(
            #[trigger] projectiles[k],
        ) == c.names_projectile(i)(projectiles[k]) by {
            let e = projectiles[k];
            if entry_at(c.mapping, e.entity) is Some {
                let local = entry_at(c.mapping, e.entity)->0;
                lemma_first_agree(
                    d.projectiles,
                    is_projectile(local),
                    c.projectiles,
                    is_projectile(local),
                );
            }
        }
        lemma_last_agree(projectiles, d.names_projectile(i), c.names_projectile(i));
    }
    assert(d.synced_units(units) =~= d.units);
    assert(d.synced_projectiles(projectiles) =~= d.projectiles);
}

/// One of `units` has the local identifier `id`.
pub open spec fn shows_unit(units: Seq<LocalUnit>, id: u64) -> bool {
    exists|k: int| 0 <= k < units.len() && (#[trigger] units[k]).entity == id
}

/// One of `projectiles` has the local identifier `id`.
pub open spec fn shows_projectile(projectiles: Seq<LocalProjectile>, id: u64) -> bool {
    exists|k: int| 0 <= k < projectiles.len() && (#[trigger] projectiles[k]).entity == id
}

/// Whatever the server sends, the client stays well formed: its table stays
/// one-to-one and its local identifiers stay apart.
pub proof fn lemma_handle_keeps_wf(c: ClientModel, message: ServerMessage)
    requires
        c.wf(),
    ensures
        c.handle(message).wf(),
{
    let d = c.handle(message);
    match message {
        ServerMessage::StartGame(_) => {},
        ServerMessage::SpawnUnit { server_entity, unit, pos, owner } => {
            if d != c {
                let u = d.units.last();
                assert(d.units == c.units.push(u));
                lemma_ids_push(c.units, local_unit_id(), u);
                assert(!c.units.map_values(local_unit_id()).to_set().contains(u.entity)) by {
                    lemma_id_member(c.units, local_unit_id(), u.entity);
                }
            }
        },
        ServerMessage::SpawnProjectile { server_entity, projectile, attacker, receiver, pos } => {
            if d != c {
                let p = d.projectiles.last();
                assert(d.projectiles == c.projectiles.push(p));
                lemma_ids_push(c.projectiles, local_projectile_id(), p);
                assert(!c.projectiles.map_values(local_projectile_id()).to_set().contains(
                    p.entity,
                )) by {
                    lemma_id_member(c.projectiles, local_projectile_id(), p.entity);
                }
            }
        },
        ServerMessage::Despawn(server_entity) => {
            if entry_at(c.mapping, server_entity) is Some {
                let local = entry_at(c.mapping, server_entity)->0;
                lemma_filter_keeps_distinct(c.units, is_other_unit(local), local_unit_id());
                lemma_filter_keeps_distinct(
                    c.projectiles,
                    is_other_projectile(local),
                    local_projectile_id(),
                );
                assert forall|i: int| 0 <= i < d.units.len() implies #[trigger] shows_unit(
                    c.units,
                    d.units[i].entity,
                ) by {
                    let e = d.units[i].entity;
                    assert(d.units.map_values(local_unit_id())[i] == e);
                    assert(d.units.map_values(local_unit_id()).to_set().contains(e));
                    lemma_id_member(c.units, local_unit_id(), e);
                    let k = choose|k: int|
                        0 <= k < c.units.len() && local_unit_id()(#[trigger] c.units[k]) == e;
                    assert(c.units[k].entity == e);
                }
                assert forall|j: int|
                    0 <= j < d.projectiles.len() implies #[trigger] shows_projectile(
                    c.projectiles,
                    d.projectiles[j].entity,
                ) by {
                    let e = d.projectiles[j].entity;
                    assert(d.projectiles.map_values(local_projectile_id())[j] == e);
                    assert(d.projectiles.map_values(local_projectile_id()).to_set().contains(e));
                    lemma_id_member(c.projectiles, local_projectile_id(), e);
                    let k = choose|k: int|
                        0 <= k < c.projectiles.len() && local_projectile_id()(
                            #[trigger] c.projectiles[k],
                        ) == e;
                    assert(c.projectiles[k].entity == e);
                }
                assert forall|i: int, j: int|
                    0 <= i < d.units.len() && 0 <= j < d.projectiles.len() implies (
                #[trigger] d.units[i]).entity != (#[trigger] d.projectiles[j]).entity by {
                    assert(shows_unit(c.units, d.units[i].entity));
                    assert(shows_projectile(c.projectiles, d.projectiles[j].entity));
                    let a = choose|k: int|
                        0 <= k < c.units.len() && (#[trigger] c.units[k]).entity
                            == d.units[i].entity;
                    let b = choose|k: int|
                        0 <= k < c.projectiles.len() && (#[trigger] c.projectiles[k]).entity
                            == d.projectiles[j].entity;
                    assert(c.units[a].entity != c.projectiles[b].entity);
                }
                assert forall|i: int| 0 <= i < d.units.len() implies (#[trigger] d.units[i]).entity
                    < d.next_local by {
                    assert(shows_unit(c.units, d.units[i].entity));
                    let a = choose|k: int|
                        0 <= k < c.units.len() && (#[trigger] c.units[k]).entity
                            == d.units[i].entity;
                    assert(c.units[a].entity < c.next_local);
                }
                assert forall|j: int| 0 <= j < d.projectiles.len() implies (
                #[trigger] d.projectiles[j]).entity < d.next_local by {
                    assert(shows_projectile(c.projectiles, d.projectiles[j].entity));
                    let b = choose|k: int|
                        0 <= k < c.projectiles.len() && (#[trigger] c.projectiles[k]).entity
                            == d.projectiles[j].entity;
                    assert(c.projectiles[b].entity < c.next_local);
                }
            }
        },
        ServerMessage::SyncEntities { units, projectiles } => {
            lemma_sync_keeps_entities(c, units@, projectiles@);
            assert(d.units.map_values(local_unit_id()) =~= c.units.map_values(local_unit_id()));
            assert(d.projectiles.map_values(local_projectile_id()) =~= c.projectiles.map_values(
                local_projectile_id(),
            ));
        },
    }
}

/// A snapshot touches neither the table nor the player's seat, makes no
/// entity and removes none.
pub proof fn lemma_sync_keeps_entities(
    c: ClientModel,
    units: Seq<UnitSync>,
    projectiles: Seq<ProjectileSync>,
)
    ensures
        c.sync(units, projectiles).mapping == c.mapping,
        c.sync(units, projectiles).player == c.player,
        c.sync(units, projectiles).next_local == c.next_local,
        c.sync(units, projectiles).units.len() == c.units.len(),
        c.sync(units, projectiles).projectiles.len() == c.projectiles.len(),
        forall|i: int|
            0 <= i < c.units.len() ==> (#[trigger] c.sync(units, projectiles).units[i]).entity
                == c.units[i].entity,
        forall|i: int|
            0 <= i < c.projectiles.len() ==> (#[trigger] c.sync(
                units,
                projectiles,
            ).projectiles[i]).entity == c.projectiles[i].entity,
{
}

/// Finds the unit with the local identifier `id`.
fn find_local_unit(units: &Vec<LocalUnit>, id: u64) -> (r: Option<usize>)
    ensures
        match r {
            Some(i) => first(units@, is_unit(id)) == Some(i as int) && i < units.len(),
            None => first(units@, is_unit(id)) is None,
        },
{
    let mut i: usize = 0;
    while i < units.len()
        invariant
            i <= units.len(),
            forall|j: int| 0 <= j < i ==> !is_unit(id)(#[trigger] units@[j]),
        decreases units.len() - i,
    {
        if units[i].entity == id {
            proof {
                assert(is_first(units@, is_unit(id), i as int));
                lemma_first_is(units@, is_unit(id), i as int);
            }
            return Some(i);
        }
        i += 1;
    }
    proof {
        lemma_first_none(units@, is_unit(id));
    }
    None
}

/// Finds the projectile with the local identifier `id`.
fn find_local_projectile(projectiles: &Vec<LocalProjectile>, id: u64) -> (r: Option<usize>)
    ensures
        match r {
            Some(i) => first(projectiles@, is_projectile(id)) == Some(i as int) && i
                < projectiles.len(),
            None => first(projectiles@, is_projectile(id)) is None,
        },
{
    let mut i: usize = 0;
    while i < projectiles.len()
        invariant
            i <= projectiles.len(),
            forall|j: int| 0 <= j < i ==> !is_projectile(id)(#[trigger] projectiles@[j]),
        decreases projectiles.len() - i,
    {
        if projectiles[i].entity == id {
            proof {
                assert(is_first(projectiles@, is_projectile(id), i as int));
                lemma_first_is(projectiles@, is_projectile(id), i as int);
            }
            return Some(i);
        }
        i += 1;
    }
    proof {
        lemma_first_none(projectiles@, is_projectile(id));
    }
    None
}

/// The units of `units` but the one with the local identifier `id`.
fn without_unit(units: &Vec<LocalUnit>, id: u64) -> (out: Vec<LocalUnit>)
    ensures
        out@ == units@.filter(is_other_unit(id)),
{
    let mut out: Vec<LocalUnit> = Vec::new();
    let mut i: usize = 0;
    assert(units@.take(0) == Seq::<LocalUnit>::empty());
    while i < units.len()
        invariant
            i <= units.len(),
            out@ == units@.take(i as int).filter(is_other_unit(id)),
        decreases units.len() - i,
    {
        let u = units[i];
        proof {
            let prefix = units@.take(i as int);
            assert(units@.take(i as int + 1) == prefix.push(u));
            Seq::lemma_filter_push(prefix, u, is_other_unit(id));
        }
        if u.entity != id {
            out.push(u);
        }
        i += 1;
    }
    assert(units@.take(units@.len() as int) == units@);
    out
}

/// The projectiles of `projectiles` but the one with the local identifier
/// `id`.
fn without_projectile(projectiles: &Vec<LocalProjectile>, id: u64) -> (out: Vec<LocalProjectile>)
    ensures
        out@ == projectiles@.filter(is_other_projectile(id)),
{
    let mut out: Vec<LocalProjectile> = Vec::new();
    let mut i: usize = 0;
    assert(projectiles@.take(0) == Seq::<LocalProjectile>::empty());
    while i < projectiles.len()
        invariant
            i <= projectiles.len(),
            out@ == projectiles@.take(i as int).filter(is_other_projectile(id)),
        decreases projectiles.len() - i,
    {
        let p = projectiles[i];
        proof {
            let prefix = projectiles@.take(i as int);
            assert(projectiles@.take(i as int + 1) == prefix.push(p));
            Seq::lemma_filter_push(prefix, p, is_other_projectile(id));
        }
        if p.entity != id {
            out.push(p);
        }
        i += 1;
    }
    assert(projectiles@.take(projectiles@.len() as int) == projectiles@);
    out
}

impl ClientWorld {
    /// A client that knows nothing yet and takes itself for player one.
    pub fn new() -> (client: ClientWorld)
        ensures
            client@ == (ClientModel {
                player: PlayerNumber::One,
                mapping: no_entries(),
                units: Seq::empty(),
                projectiles: Seq::empty(),
                next_local: 0,
            }),
            client@.wf(),
    {
        ClientWorld {
            player: PlayerNumber::One,
            mapping: NetworkMapping::new(),
            units: Vec::new(),
            projectiles: Vec::new(),
            next_local: 0,
        }
    }

    /// The local entity that stands for the server's `server_entity`, if the
    /// client knows it.
    pub fn local_entity(&self, server_entity: u64) -> (local: Option<u64>)
        ensures
            local == entry_at(self@.mapping, server_entity),
    {
        self.mapping.get(server_entity)
    }

    /// The unit that the server calls `server_entity`, as the client shows
    /// it.
    pub fn unit(&self, server_entity: u64) -> (unit: Option<LocalUnit>)
        ensures
            unit == (match self@.unit_index(server_entity) {
                Some(i) => Some(self@.units[i]),
                None => None,
            }),
    {
        match self.mapping.get(server_entity) {
            Some(local) => match find_local_unit(&self.units, local) {
                Some(i) => Some(self.units[i]),
                None => None,
            },
            None => None,
        }
    }

    /// The projectile that the server calls `server_entity`, as the client
    /// shows it.
    pub fn projectile(&self, server_entity: u64) -> (projectile: Option<LocalProjectile>)
        ensures
            projectile == (match self@.projectile_index(server_entity) {
                Some(i) => Some(self@.projectiles[i]),
                None => None,
            }),
    {
        match self.mapping.get(server_entity) {
            Some(local) => match find_local_projectile(&self.projectiles, local) {
                Some(i) => Some(self.projectiles[i]),
                None => None,
            },
            None => None,
        }
    }

    /// Shows a unit that the server spawned.
    pub fn spawn_unit(&mut self, server_entity: u64, kind: Unit, pos: ArenaPos, owner: PlayerNumber)
        ensures
            final(self)@ == old(self)@.spawn_unit(server_entity, kind, pos, owner),
    {
        let tower = kind.is_tower();
        let needed: u64 = if tower {
            2
        } else {
            1
        };
        if self.next_local > u64::MAX - needed {
            return ;
        }
        let local = self.next_local + (needed - 1);
        let unit = LocalUnit {
            entity: local,
            kind,
            owner,
            pos: pos.adjust_for_player(self.player),
            direction: self.player.spawn_direction(owner),
            state: UnitState::default(),
            health: Health::default(),
            tower: if tower {
                Some(AssociatedTower(self.next_local))
            } else {
                None
            },
        };
        self.units.push(unit);
        self.mapping.insert(server_entity, local);
        self.next_local = self.next_local + needed;
    }

    /// Shows a projectile that the server spawned, if the client knows who
    /// shot it and whom it flies to.
    pub fn spawn_projectile(
        &mut self,
        server_entity: u64,
        kind: Projectile,
        attacker: u64,
        receiver: u64,
        pos: ArenaPos,
    )
        ensures
            final(self)@ == old(self)@.spawn_projectile(
                server_entity,
                kind,
                attacker,
                receiver,
                pos,
            ),
    {
        let a = match self.mapping.get(attacker) {
            Some(a) => a,
            None => {
                return ;
            },
        };
        let r = match self.mapping.get(receiver) {
            Some(r) => r,
            None => {
                return ;
            },
        };
        if self.next_local == u64::MAX {
            return ;
        }
        let local = self.next_local;
        self.projectiles.push(
            LocalProjectile {
                entity: local,
                kind,
                pos: pos.adjust_for_player(self.player),
                attacker: a,
                receiver: r,
            },
        );
        self.mapping.insert(server_entity, local);
        self.next_local = local + 1;
    }

    /// Takes away what the server despawned and returns the local entities
    /// that went with it.
    pub fn despawn(&mut self, server_entity: u64) -> (gone: Vec<u64>)
        ensures
            final(self)@ == old(self)@.despawn(server_entity),
            gone@ == old(self)@.despawned(server_entity),
    {
        let mut gone: Vec<u64> = Vec::new();
        let local = match self.mapping.remove(server_entity) {
            Some(local) => local,
            None => {
                assert(self.mapping@ =~= old(self).mapping@);
                return gone;
            },
        };
        match find_local_unit(&self.units, local) {
            Some(i) => match self.units[i].tower {
                Some(t) => {
                    gone.push(t.0);
                },
                None => {},
            },
            None => {},
        }
        gone.push(local);
        self.units = without_unit(&self.units, local);
        self.projectiles = without_projectile(&self.projectiles, local);
        assert(gone@ == old(self)@.despawned(server_entity));
        gone
    }

    /// Overwrites what the client shows with what a snapshot says.
    pub fn sync_entities(&mut self, units: &Vec<UnitSync>, projectiles: &Vec<ProjectileSync>)
        ensures
            final(self)@ == old(self)@.sync(units@, projectiles@),
    {
        let ghost start = self@;
        let mut k: usize = 0;
        proof {
            assert(units@.take(0) == Seq::<UnitSync>::empty());
            assert(self.units@ == start.synced_units(units@.take(0)));
        }
        while k < units.len()
            invariant
                k <= units.len(),
                start == old(self)@,
                self@ == (ClientModel { units: start.synced_units(units@.take(k as int)), ..start }),
            decreases units.len() - k,
        {
            let e = units[k];
            let ghost seen = units@.take(k as int);
            proof {
                assert(units@.take(k as int + 1) == seen.push(e));
                assert forall|i: int| 0 <= i < start.units.len() implies last(
                    seen.push(e),
                    start.names_unit(i),
                ) == (if start.names_unit(i)(e) {
                    Some(k as int)
                } else {
                    last(seen, start.names_unit(i))
                }) by {
                    lemma_last_push(seen, start.names_unit(i), e);
                }
                assert forall|i: int| 0 <= i < start.units.len() implies (match #[trigger] last(
                    seen,
                    start.names_unit(i),
                ) {
                    Some(j) => 0 <= j < k && seen[j] == units@[j],
                    None => true,
                }) by {
                    lemma_last_sound(seen, start.names_unit(i));
                }
                assert forall|j: int| 0 <= j < start.units.len() implies is_unit(
                    entry_at(start.mapping, e.entity)->0,
                )(#[trigger] self.units@[j]) == is_unit(entry_at(start.mapping, e.entity)->0)(
                    start.units[j],
                ) by {}
                if entry_at(start.mapping, e.entity) is Some {
                    lemma_first_agree(
                        self.units@,
                        is_unit(entry_at(start.mapping, e.entity)->0),
                        start.units,
                        is_unit(entry_at(start.mapping, e.entity)->0),
                    );
                }
            }
            match self.mapping.get(e.entity) {
                Some(local) => match find_local_unit(&self.units, local) {
                    Some(i) => {
                        let mut u = self.units[i];
                        u.pos = e.pos.adjust_for_player(self.player);
                        u.direction = e.direction.adjust_for_player(self.player);
                        u.state = e.state;
                        u.health = e.health;
                        self.units.set(i, u);
                    },
                    None => {},
                },
                None => {},
            }
            proof {
                assert(self.units@ =~= start.synced_units(seen.push(e)));
            }
            k += 1;
        }
        assert(units@.take(units@.len() as int) == units@);
        let ghost middle = self@;
        let mut k: usize = 0;
        proof {
            assert(projectiles@.take(0) == Seq::<ProjectileSync>::empty());
            assert(self.projectiles@ == start.synced_projectiles(projectiles@.take(0)));
        }
        while k < projectiles.len()
            invariant
                k <= projectiles.len(),
                start == old(self)@,
                self@ == (ClientModel {
                    units: start.synced_units(units@),
                    projectiles: start.synced_projectiles(projectiles@.take(k as int)),
                    ..start
                }),
            decreases projectiles.len() - k,
        {
            let e = projectiles[k];
            let ghost seen = projectiles@.take(k as int);
            proof {
                assert(projectiles@.take(k as int + 1) == seen.push(e));
                assert forall|i: int| 0 <= i < start.projectiles.len() implies last(
                    seen.push(e),
                    start.names_projectile(i),
                ) == (if start.names_projectile(i)(e) {
                    Some(k as int)
                } else {
                    last(seen, start.names_projectile(i))
                }) by {
                    lemma_last_push(seen, start.names_projectile(i), e);
                }
                assert forall|i: int| 0 <= i < start.projectiles.len() implies (match #[trigger] last(
                    seen,
                    start.names_projectile(i),
                ) {
                    Some(j) => 0 <= j < k && seen[j] == projectiles@[j],
                    None => true,
                }) by {
                    lemma_last_sound(seen, start.names_projectile(i));
                }
                assert forall|j: int| 0 <= j < start.projectiles.len() implies is_projectile(
                    entry_at(start.mapping, e.entity)->0,
                )(#[trigger] self.projectiles@[j]) == is_projectile(
                    entry_at(start.mapping, e.entity)->0,
                )(start.projectiles[j]) by {}
                if entry_at(start.mapping, e.entity) is Some {
                    lemma_first_agree(
                        self.projectiles@,
                        is_projectile(entry_at(start.mapping, e.entity)->0),
                        start.projectiles,
                        is_projectile(entry_at(start.mapping, e.entity)->0),
                    );
                }
            }
            match self.mapping.get(e.entity) {
                Some(local) => match find_local_projectile(&self.projectiles, local) {
                    Some(i) => {
                        let mut p = self.projectiles[i];
                        p.pos = e.pos.adjust_for_player(self.player);
                        self.projectiles.set(i, p);
                    },
                    None => {},
                },
                None => {},
            }
            proof {
                assert(self.projectiles@ =~= start.synced_projectiles(seen.push(e)));
            }
            k += 1;
        }
        assert(projectiles@.take(projectiles@.len() as int) == projectiles@);
    }

    /// Takes in one message of the server and returns the local entities
    /// that it removed.
    pub fn handle_server_message(&mut self, message: &ServerMessage) -> (gone: Vec<u64>)
        ensures
            final(self)@ == old(self)@.handle(*message),
            old(self)@.wf() ==> final(self)@.wf(),
            gone@ == (match *message {
                ServerMessage::Despawn(server_entity) => old(self)@.despawned(server_entity),
                _ => Seq::empty(),
            }),
    {
        proof {
            if self@.wf() {
                lemma_handle_keeps_wf(self@, *message);
            }
        }
        match message {
            ServerMessage::StartGame(n) => {
                self.player = *n;
                Vec::new()
            },
            ServerMessage::SpawnUnit { server_entity, unit, pos, owner } => {
                self.spawn_unit(*server_entity, *unit, *pos, *owner);
                Vec::new()
            },
            ServerMessage::SpawnProjectile { server_entity, projectile, attacker, receiver, pos } => {
                self.spawn_projectile(*server_entity, *projectile, *attacker, *receiver, *pos);
                Vec::new()
            },
            ServerMessage::Despawn(server_entity) => self.despawn(*server_entity),
            ServerMessage::SyncEntities { units, projectiles } => {
                self.sync_entities(units, projectiles);
                Vec::new()
            },
        }
    }
}

} // verus!
