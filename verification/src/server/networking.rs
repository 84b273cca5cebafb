//! The session with the two clients: who sits where, what a played card
//! spawns, and the snapshot of the arena that goes out after every tick.

use vstd::prelude::*;
use bevy::utils::HashMap;
use crate::common::{
    Card, ClientMessage, Direction, PlayerNumber, ProjectileSync, ServerMessage, Unit, UnitState,
    UnitSync,
};
use crate::geometry::{at, ArenaPos, BUCKET_SLOPE, UNIT};
use crate::lifecycle::{lemma_replay_concat, lemma_replay_round_trips, round_trip, Ledger};
use crate::server::ledger::{lemma_spawn_units_replay, lemma_tick_replays};
use crate::server::units::UnitRecord;
use crate::seq_search::lemma_filter_keeps_distinct;
use crate::server::world::{
    find_unit, lookup, unit_id, ProjectileRecord, World, WorldView,
};

verus! {

impl PlayerNumber {
    /// Toward the other side: up for player one, down for player two.
    pub open spec fn spec_default_direction(self) -> Direction {
        match self {
            PlayerNumber::One => Direction::Up,
            PlayerNumber::Two => Direction::Down,
        }
    }

    /// The way this player's units face when they have nothing to look at:
    /// toward the other side.
    pub fn default_direction(&self) -> (d: Direction)
        ensures
            d == self.spec_default_direction(),
    {
        match self {
            PlayerNumber::One => Direction::Up,
            PlayerNumber::Two => Direction::Down,
        }
    }
}

/// The direction bucket of the vector `v`. `Right` and `Left` are the two
/// sectors of less than twenty degrees to either side of the horizontal
/// axis; everything else is `Up` or `Down` by the sign of the vertical
/// component, and the zero vector is `Up`.
pub open spec fn spec_calc_direction(v: ArenaPos) -> Direction {
    let rise: int = if v.1 < 0 {
        -v.1
    } else {
        v.1 as int
    };
    if v.0 > 0 && rise * UNIT < v.0 * BUCKET_SLOPE {
        Direction::Right
    } else if v.0 < 0 && rise * UNIT < -v.0 * BUCKET_SLOPE {
        Direction::Left
    } else if v.1 >= 0 {
        Direction::Up
    } else {
        Direction::Down
    }
}

/// The direction bucket of the vector `direction`.
pub fn calc_direction(direction: &ArenaPos) -> (d: Direction)
    ensures
        d == spec_calc_direction(*direction),
{
    let x: i64 = direction.0 as i64;
    let y: i64 = direction.1 as i64;
    let rise: i64 = if y < 0 {
        -y
    } else {
        y
    };
    let run: i64 = if x < 0 {
        -x
    } else {
        x
    };
    assert(0 <= rise * UNIT <= 0x8000_0000 * 1_000_000) by (nonlinear_arith)
        requires
            0 <= rise <= 0x8000_0000,
            UNIT == 1_000_000,
    ;
    assert(0 <= run * BUCKET_SLOPE <= 0x8000_0000 * 363_970) by (nonlinear_arith)
        requires
            0 <= run <= 0x8000_0000,
            BUCKET_SLOPE == 363_970,
    ;
    let flat = rise * (UNIT as i64) < run * BUCKET_SLOPE;
    if x > 0 && flat {
        Direction::Right
    } else if x < 0 && flat {
        Direction::Left
    } else if y >= 0 {
        Direction::Up
    } else {
        Direction::Down
    }
}

/// Whom a unit looks at: nobody while `Idle`, the unit it walks toward
/// while `Moving`, the unit it attacks while `Attacking`.
pub open spec fn aim(me: UnitRecord) -> Option<u64> {
    match me.state {
        UnitState::Idle => None,
        UnitState::Moving => match me.movement {
            Some(m) => m.target,
            None => None,
        },
        UnitState::Attacking => match (me.attack, me.giant) {
            (Some(a), _) => a.target,
            (None, Some(g)) => g.target,
            (None, None) => None,
        },
    }
}

/// The way a unit faces: toward the unit it looks at, or its side's default
/// where it looks at nobody or at a unit that is no longer on the arena.
pub open spec fn facing(me: UnitRecord, units: Seq<UnitRecord>) -> Direction {
    match aim(me) {
        Some(t) => match lookup(units, t) {
            Some(j) => spec_calc_direction(me.pos.spec_direction(units[j].pos)),
            None => me.owner.spec_default_direction(),
        },
        None => me.owner.spec_default_direction(),
    }
}

/// The snapshot entry of a unit. Clients are told that a stunned unit is
/// `Idle`.
pub open spec fn entry_of(units: Seq<UnitRecord>) -> spec_fn(UnitRecord) -> UnitSync {
    |u: UnitRecord|
        UnitSync {
            entity: u.entity,
            pos: u.pos,
            direction: facing(u, units),
            state: if u.stun is Some {
                UnitState::Idle
            } else {
                u.state
            },
            health: u.health,
        }
}

/// The test "is in the snapshot": every unit with an attack and every
/// giant.
pub open spec fn is_reported() -> spec_fn(UnitRecord) -> bool {
    |u: UnitRecord| u.attack is Some || u.giant is Some
}

/// The identifier that a snapshot entry is about.
pub open spec fn entry_id() -> spec_fn(UnitSync) -> u64 {
    |e: UnitSync| e.entity
}

/// The snapshot entry of a projectile.
pub open spec fn projectile_entry() -> spec_fn(ProjectileRecord) -> ProjectileSync {
    |p: ProjectileRecord| ProjectileSync { entity: p.entity, pos: p.pos }
}

impl WorldView {
    /// The units of a snapshot: one entry for every unit with an attack and
    /// for every giant, in the arena's order.
    pub open spec fn sync_units(self) -> Seq<UnitSync> {
        self.units.filter(is_reported()).map_values(entry_of(self.units))
    }

    /// The projectiles of a snapshot: all of them, in the arena's order.
    pub open spec fn sync_projectiles(self) -> Seq<ProjectileSync> {
        self.projectiles.map_values(projectile_entry())
    }
}

/// `entry` is the snapshot entry of a unit of the arena that has an attack
/// or is a giant.
pub open spec fn is_entry_of_a_unit(w: WorldView, entry: UnitSync) -> bool {
    exists|i: int|
        0 <= i < w.units.len() && is_reported()(#[trigger] w.units[i]) && entry == entry_of(
            w.units,
        )(w.units[i])
}

/// The snapshot leaves no unit out and lists none twice: every unit with an
/// attack and every giant has its entry, every entry is that of such a unit,
/// and on an arena where no two units share an identifier no two entries do.
pub proof fn lemma_snapshot_is_complete(w: WorldView)
    ensures
        forall|i: int|
            0 <= i < w.units.len() && is_reported()(#[trigger] w.units[i])
                ==> w.sync_units().contains(entry_of(w.units)(w.units[i])),
        forall|k: int|
            0 <= k < w.sync_units().len() ==> #[trigger] is_entry_of_a_unit(w, w.sync_units()[k]),
        w.wf() ==> w.sync_units().map_values(entry_id()).no_duplicates(),
{
    let shown = w.units.filter(is_reported());
    assert forall|i: int|
        0 <= i < w.units.len() && is_reported()(#[trigger] w.units[i]) implies w.sync_units().contains(
        entry_of(w.units)(w.units[i]),
    ) by {
        w.units.lemma_filter_contains(is_reported(), i);
        let k = choose|k: int| 0 <= k < shown.len() && shown[k] == w.units[i];
        assert(w.sync_units()[k] == entry_of(w.units)(w.units[i]));
    }
    assert forall|k: int| 0 <= k < w.sync_units().len() implies #[trigger] is_entry_of_a_unit(
        w,
        w.sync_units()[k],
    ) by {
        w.units.lemma_filter_pred(is_reported(), k);
        assert(shown.contains(shown[k]));
        w.units.lemma_filter_contains_rev(is_reported(), shown[k]);
        let i = choose|i: int| 0 <= i < w.units.len() && w.units[i] == shown[k];
        assert(is_reported()(w.units[i]));
    }
    if w.wf() {
        lemma_filter_keeps_distinct(w.units, is_reported(), unit_id());
        assert(w.sync_units().map_values(entry_id()) =~= shown.map_values(unit_id()));
    }
}

/// Tells which way `me` faces.
fn face(me: &UnitRecord, units: &Vec<UnitRecord>) -> (d: Direction)
    ensures
        d == facing(*me, units@),
{
    let target = match me.state {
        UnitState::Idle => None,
        UnitState::Moving => match me.movement {
            Some(m) => m.target,
            None => None,
        },
        UnitState::Attacking => match (me.attack, me.giant) {
            (Some(a), _) => a.target,
            (None, Some(g)) => g.target,
            (None, None) => None,
        },
    };
    match target {
        Some(t) => match find_unit(units, t) {
            Some(j) => calc_direction(&me.pos.direction(&units[j].pos)),
            None => me.owner.default_direction(),
        },
        None => me.owner.default_direction(),
    }
}

/// Collects the units of a snapshot.
fn collect_entries(units: &Vec<UnitRecord>) -> (out: Vec<UnitSync>)
    ensures
        out@ == units@.filter(is_reported()).map_values(entry_of(units@)),
{
    let mut out: Vec<UnitSync> = Vec::new();
    let mut i: usize = 0;
    assert(units@.take(0) == Seq::<UnitRecord>::empty());
    while i < units.len()
        invariant
            i <= units.len(),
            out@ == units@.take(i as int).filter(is_reported()).map_values(entry_of(units@)),
        decreases units.len() - i,
    {
        let u = units[i];
        proof {
            let prefix = units@.take(i as int);
            assert(units@.take(i as int + 1) == prefix.push(u));
            Seq::lemma_filter_push(prefix, u, is_reported());
            prefix.filter(is_reported()).lemma_push_map_commute(entry_of(units@), u);
        }
        if u.attack.is_some() || u.giant.is_some() {
            let direction = face(&u, units);
            let state = if u.stun.is_some() {
                UnitState::Idle
            } else {
                u.state
            };
            out.push(UnitSync { entity: u.entity, pos: u.pos, direction, state, health: u.health });
        }
        i += 1;
    }
    assert(units@.take(units@.len() as int) == units@);
    out
}

impl World {
    /// The snapshot of the arena that goes to the clients: every unit's
    /// identifier, position, direction, state and health, and every
    /// projectile's identifier and position. No unit is left out: one that
    /// looks at a unit which is no longer on the arena is reported facing
    /// its side's default direction.
    pub fn sync_entities(&self) -> (msg: ServerMessage)
        ensures
            msg matches ServerMessage::SyncEntities { units, projectiles } && units@
                == self@.sync_units() && projectiles@ == self@.sync_projectiles(),
    {
        let units = collect_entries(&self.units);
        let mut projectiles: Vec<ProjectileSync> = Vec::new();
        let mut i: usize = 0;
        while i < self.projectiles.len()
            invariant
                i <= self.projectiles.len(),
                projectiles@.len() == i,
                forall|j: int|
                    0 <= j < i ==> projectiles@[j] == projectile_entry()(self.projectiles@[j]),
            decreases self.projectiles.len() - i,
        {
            let p = self.projectiles[i];
            projectiles.push(ProjectileSync { entity: p.entity, pos: p.pos });
            i += 1;
        }
        assert(projectiles@ == self@.sync_projectiles());
        ServerMessage::SyncEntities { units, projectiles }
    }
}

/// An order to spawn one unit.
#[derive(Clone, Copy, Debug, PartialEq, Eq, Structural)]
pub struct SpawnOrder {
    pub kind: Unit,
    pub pos: ArenaPos,
    pub owner: PlayerNumber,
}

impl SpawnOrder {
    /// The notice of the spawn, under the identifier `entity`.
    pub open spec fn notice(self, entity: u64) -> ServerMessage {
        ServerMessage::SpawnUnit {
            server_entity: entity,
            unit: self.kind,
            pos: self.pos,
            owner: self.owner,
        }
    }
}

impl WorldView {
    /// The arena after all of `orders` were carried out, in order.
    pub open spec fn spawn_units(self, orders: Seq<SpawnOrder>) -> WorldView
        decreases orders.len(),
    {
        if orders.len() == 0 {
            self
        } else {
            let o = orders.last();
            self.spawn_units(orders.drop_last()).spawn_unit(o.kind, o.pos, o.owner)
        }
    }

    /// The notices of the spawns of `orders`, in order.
    pub open spec fn spawn_units_notices(self, orders: Seq<SpawnOrder>) -> Seq<ServerMessage>
        decreases orders.len(),
    {
        if orders.len() == 0 {
            Seq::empty()
        } else {
            let before = self.spawn_units(orders.drop_last());
            self.spawn_units_notices(orders.drop_last()) + before.spawn_notice(
                orders.last().notice(before.next_entity),
            )
        }
    }
}

impl World {
    /// Spawns a unit for each of `orders`, in order, and returns the notices
    /// of the spawns.
    pub fn spawn_units(&mut self, orders: &Vec<SpawnOrder>) -> (notices: Vec<ServerMessage>)
        ensures
            final(self)@ == old(self)@.spawn_units(orders@),
            notices@ == old(self)@.spawn_units_notices(orders@),
            old(self)@.wf() ==> final(self)@.wf(),
    {
        let ghost before = self@;
        proof {
            if before.wf() {
                lemma_spawn_units_replay(before, orders@);
            }
        }
        let mut notices: Vec<ServerMessage> = Vec::new();
        let mut i: usize = 0;
        assert(orders@.take(0) == Seq::<SpawnOrder>::empty());
        while i < orders.len()
            invariant
                i <= orders.len(),
                before == old(self)@,
                self@ == before.spawn_units(orders@.take(i as int)),
                notices@ == before.spawn_units_notices(orders@.take(i as int)),
            decreases orders.len() - i,
        {
            let o = orders[i];
            proof {
                let next = orders@.take(i as int + 1);
                assert(next.drop_last() == orders@.take(i as int));
                assert(next.last() == o);
            }
            match self.spawn_unit(o.kind, o.pos, o.owner) {
                Some(m) => {
                    notices.push(m);
                },
                None => {
                    assert(notices@ + Seq::<ServerMessage>::empty() == notices@);
                },
            }
            i += 1;
        }
        assert(orders@.take(orders@.len() as int) == orders@);
        notices
    }
}

/// The six towers that a match starts with: for each player a king tower
/// between two archer towers, the two sides mirrored.
pub open spec fn spec_tower_orders() -> Seq<SpawnOrder> {
    seq![
        SpawnOrder {
            kind: Unit::ArcherTower,
            pos: at(-5_500_000, -9_500_000),
            owner: PlayerNumber::One,
        },
        SpawnOrder { kind: Unit::KingTower, pos: at(0, -13_000_000), owner: PlayerNumber::One },
        SpawnOrder {
            kind: Unit::ArcherTower,
            pos: at(5_500_000, -9_500_000),
            owner: PlayerNumber::One,
        },
        SpawnOrder {
            kind: Unit::ArcherTower,
            pos: at(-5_500_000, 9_500_000),
            owner: PlayerNumber::Two,
        },
        SpawnOrder { kind: Unit::KingTower, pos: at(0, 13_000_000), owner: PlayerNumber::Two },
        SpawnOrder {
            kind: Unit::ArcherTower,
            pos: at(5_500_000, 9_500_000),
            owner: PlayerNumber::Two,
        },
    ]
}

/// The six towers that a match starts with.
pub fn tower_orders() -> (orders: Vec<SpawnOrder>)
    ensures
        orders@ == spec_tower_orders(),
{
    let one = PlayerNumber::One;
    let two = PlayerNumber::Two;
    let mut orders: Vec<SpawnOrder> = Vec::new();
    orders.push(SpawnOrder { kind: Unit::ArcherTower, pos: ArenaPos(-5_500_000, -9_500_000), owner: one });
    orders.push(SpawnOrder { kind: Unit::KingTower, pos: ArenaPos(0, -13_000_000), owner: one });
    orders.push(SpawnOrder { kind: Unit::ArcherTower, pos: ArenaPos(5_500_000, -9_500_000), owner: one });
    orders.push(SpawnOrder { kind: Unit::ArcherTower, pos: ArenaPos(-5_500_000, 9_500_000), owner: two });
    orders.push(SpawnOrder { kind: Unit::KingTower, pos: ArenaPos(0, 13_000_000), owner: two });
    orders.push(SpawnOrder { kind: Unit::ArcherTower, pos: ArenaPos(5_500_000, 9_500_000), owner: two });
    assert(orders@ == spec_tower_orders());
    orders
}

impl Card {
    /// The kind of unit that the card spawns.
    pub open spec fn spec_unit(self) -> Unit {
        match self {
            Card::Rus => Unit::Rus,
            Card::Musketeer | Card::ThreeMusketeers => Unit::Musketeer,
            Card::Priest => Unit::Priest,
            Card::Bats | Card::BatHorde => Unit::Bat,
            Card::Bomber => Unit::Bomber,
            Card::Giant => Unit::Giant,
        }
    }

    /// Where the card puts its units, as offsets from where it is played: a
    /// single unit on the spot, three units above and to both sides, six
    /// units in a ring.
    pub open spec fn spec_offsets(self) -> Seq<ArenaPos> {
        match self {
            Card::ThreeMusketeers | Card::Bats => seq![
                at(0, 800_000),
                at(800_000, 0),
                at(-800_000, 0),
            ],
            Card::BatHorde => seq![
                at(500_000, 500_000),
                at(800_000, 0),
                at(500_000, -500_000),
                at(-500_000, -500_000),
                at(-800_000, 0),
                at(-500_000, 500_000),
            ],
            _ => seq![at(0, 0)],
        }
    }

    /// The spawns that the card stands for when `owner` plays it at
    /// `placement`.
    pub open spec fn spec_orders(self, placement: ArenaPos, owner: PlayerNumber) -> Seq<SpawnOrder> {
        self.spec_offsets().map_values(
            |by: ArenaPos|
                SpawnOrder { kind: self.spec_unit(), pos: placement.spec_shifted(by), owner },
        )
    }

    /// The kind of unit that the card spawns.
    pub fn unit(self) -> (kind: Unit)
        ensures
            kind == self.spec_unit(),
    {
        match self {
            Card::Rus => Unit::Rus,
            Card::Musketeer | Card::ThreeMusketeers => Unit::Musketeer,
            Card::Priest => Unit::Priest,
            Card::Bats | Card::BatHorde => Unit::Bat,
            Card::Bomber => Unit::Bomber,
            Card::Giant => Unit::Giant,
        }
    }

    /// Where the card puts its units, as offsets from where it is played.
    pub fn offsets(self) -> (offsets: Vec<ArenaPos>)
        ensures
            offsets@ == self.spec_offsets(),
    {
        let mut offsets: Vec<ArenaPos> = Vec::new();
        match self {
            Card::ThreeMusketeers | Card::Bats => {
                offsets.push(ArenaPos(0, 800_000));
                offsets.push(ArenaPos(800_000, 0));
                offsets.push(ArenaPos(-800_000, 0));
            },
            Card::BatHorde => {
                offsets.push(ArenaPos(500_000, 500_000));
                offsets.push(ArenaPos(800_000, 0));
                offsets.push(ArenaPos(500_000, -500_000));
                offsets.push(ArenaPos(-500_000, -500_000));
                offsets.push(ArenaPos(-800_000, 0));
                offsets.push(ArenaPos(-500_000, 500_000));
            },
            _ => {
                offsets.push(ArenaPos(0, 0));
            },
        }
        assert(offsets@ == self.spec_offsets());
        offsets
    }

    /// The spawns that the card stands for when `owner` plays it at
    /// `placement`.
    pub fn orders(self, placement: ArenaPos, owner: PlayerNumber) -> (orders: Vec<SpawnOrder>)
        ensures
            orders@ == self.spec_orders(placement, owner),
    {
        let offsets = self.offsets();
        let kind = self.unit();
        let mut orders: Vec<SpawnOrder> = Vec::new();
        let mut i: usize = 0;
        while i < offsets.len()
            invariant
                i <= offsets.len(),
                offsets@ == self.spec_offsets(),
                kind == self.spec_unit(),
                orders@.len() == i,
                forall|j: int|
                    0 <= j < i ==> orders@[j] == (SpawnOrder {
                        kind,
                        pos: placement.spec_shifted(offsets@[j]),
                        owner,
                    }),
            decreases offsets.len() - i,
        {
            orders.push(SpawnOrder { kind, pos: placement.shifted(offsets[i]), owner });
            i += 1;
        }
        assert(orders@ == self.spec_orders(placement, owner));
        orders
    }
}

/// The clients of a match, each with the seat that it took. The table is
/// kept in `bevy::utils::HashMap`, which is hashbrown's `HashMap`; nothing is
/// proved of that map, and what the lobby holds is known only through
/// `lobby_entries` and what the five functions below claim of it.
#[verifier::external_body]
pub struct Lobby(HashMap<u64, PlayerNumber>);

/// The entries of a `Lobby`: for each client that has a seat, its seat.
pub uninterp spec fn lobby_entries(lobby: Lobby) -> Map<u64, PlayerNumber>;

/// A lobby without clients.
pub open spec fn no_seats() -> Map<u64, PlayerNumber> {
    Map::empty()
}

/// The seat of `client` in `seats`, if it has one.
pub open spec fn seat_at(seats: Map<u64, PlayerNumber>, client: u64) -> Option<PlayerNumber> {
    if seats.contains_key(client) {
        Some(seats[client])
    } else {
        None
    }
}

/// `listing` names every client of `seats` once, each with its seat, and
/// nobody else.
pub open spec fn is_listing(listing: Seq<(u64, PlayerNumber)>, seats: Map<u64, PlayerNumber>) -> bool {
    &&& listing.len() == seats.len()
    &&& forall|i: int|
        0 <= i < listing.len() ==> seat_at(seats, (#[trigger] listing[i]).0) == Some(listing[i].1)
    &&& forall|client: u64| #[trigger]
        seats.contains_key(client) ==> exists|i: int|
            0 <= i < listing.len() && (#[trigger] listing[i]).0 == client
}

impl View for Lobby {
    type V = Map<u64, PlayerNumber>;

    open spec fn view(&self) -> Map<u64, PlayerNumber> {
        lobby_entries(*self)
    }
}

impl Lobby {
    /// Calls hashbrown's `HashMap::default`. Claimed, not proved: the new map
    /// has no entries.
    #[verifier::external_body]
    pub(crate) fn empty() -> (lobby: Lobby)
        ensures
            lobby_entries(lobby) == no_seats(),
    {
        Lobby(HashMap::default())
    }

    /// Calls hashbrown's `HashMap::len`. Claimed, not proved: the result is
    /// the number of entries.
    #[verifier::external_body]
    pub(crate) fn count(&self) -> (n: usize)
        ensures
            n == lobby_entries(*self).len(),
    {
        self.0.len()
    }

    /// Calls hashbrown's `HashMap::get`. Claimed, not proved: the result is
    /// the seat under `client`, if the map has one.
    #[verifier::external_body]
    pub(crate) fn seat_of(&self, client: u64) -> (seat: Option<PlayerNumber>)
        ensures
            seat == seat_at(lobby_entries(*self), client),
    {
        self.0.get(&client).copied()
    }

    /// Calls hashbrown's `HashMap::insert`. Claimed, not proved: afterwards
    /// the map holds `seat` under `client` and is otherwise as before, and
    /// the result is what was under `client` before.
    #[verifier::external_body]
    pub(crate) fn seat(&mut self, client: u64, seat: PlayerNumber) -> (previous: Option<
        PlayerNumber,
    >)
        ensures
            lobby_entries(*final(self)) == lobby_entries(*old(self)).insert(client, seat),
            previous == seat_at(lobby_entries(*old(self)), client),
    {
        self.0.insert(client, seat)
    }

    /// Calls hashbrown's `HashMap::iter` and copies out what it yields.
    /// Claimed, not proved: every entry of the map is yielded once, in an
    /// order that is not told.
    #[verifier::external_body]
    pub(crate) fn listing(&self) -> (listing: Vec<(u64, PlayerNumber)>)
        ensures
            is_listing(listing@, lobby_entries(*self)),
    {
        self.0.iter().map(|(client, seat)| (*client, *seat)).collect()
    }

    /// A lobby without clients.
    pub fn new() -> (lobby: Lobby)
        ensures
            lobby@ == no_seats(),
    {
        Lobby::empty()
    }

    /// Whether both seats are taken.
    pub fn is_full(&self) -> (full: bool)
        ensures
            full == (self@.len() >= 2),
    {
        self.count() >= 2
    }

    /// The seat of `client`, if it has one.
    pub fn player_of(&self, client: u64) -> (seat: Option<PlayerNumber>)
        ensures
            seat == seat_at(self@, client),
    {
        self.seat_of(client)
    }

    /// The clients of the lobby, each with its seat, in no particular order.
    pub fn seats(&self) -> (listing: Vec<(u64, PlayerNumber)>)
        ensures
            is_listing(listing@, self@),
    {
        self.listing()
    }

    /// Lets `client` in, if a seat is free, and says which seat it has. The
    /// first client gets the seat of player one, the second that of player
    /// two. A client that has a seat already keeps it. A full lobby stays as
    /// it is and gives no seat.
    pub fn join(&mut self, client: u64) -> (seat: Option<PlayerNumber>)
        ensures
            final(self)@ == spec_joined(old(self)@, client),
            seat == (if old(self)@.len() >= 2 {
                None
            } else {
                seat_at(final(self)@, client)
            }),
    {
        let n = self.count();
        if n >= 2 {
            return None;
        }
        match self.seat_of(client) {
            Some(seat) => {
                return Some(seat);
            },
            None => {},
        }
        let seat = if n == 0 {
            PlayerNumber::One
        } else {
            PlayerNumber::Two
        };
        self.seat(client, seat);
        Some(seat)
    }
}

/// The seat that a new client gets in a lobby of `seats`: that of player one
/// if nobody is there yet, that of player two if one client is.
pub open spec fn spec_free_seat(seats: Map<u64, PlayerNumber>) -> PlayerNumber {
    if seats.len() == 0 {
        PlayerNumber::One
    } else {
        PlayerNumber::Two
    }
}

/// The lobby after `client` asked to be let in: as before if it is full or
/// the client has a seat already, and else with the client on the free seat.
pub open spec fn spec_joined(seats: Map<u64, PlayerNumber>, client: u64) -> Map<u64, PlayerNumber> {
    if seats.len() >= 2 || seats.contains_key(client) {
        seats
    } else {
        seats.insert(client, spec_free_seat(seats))
    }
}

/// The lobby holds at most two clients, on different seats, and the first
/// of them on the seat of player one.
pub open spec fn is_orderly(seats: Map<u64, PlayerNumber>) -> bool {
    &&& seats.dom().finite()
    &&& seats.len() <= 2
    &&& forall|client: u64|
        seats.len() == 1 && #[trigger] seats.contains_key(client) ==> seats[client]
            == PlayerNumber::One
    &&& forall|a: u64, b: u64|
        #[trigger] seats.contains_key(a) && #[trigger] seats.contains_key(b) && a != b
            ==> seats[a] != seats[b]
}

/// Letting a client in keeps the lobby orderly, and a client that has a seat
/// keeps it.
pub proof fn lemma_join_keeps_order(seats: Map<u64, PlayerNumber>, client: u64)
    requires
        is_orderly(seats),
    ensures
        is_orderly(spec_joined(seats, client)),
        forall|other: u64| #[trigger]
            seats.contains_key(other) ==> seat_at(spec_joined(seats, client), other) == seat_at(
                seats,
                other,
            ),
{
    if seats.len() < 2 && !seats.contains_key(client) {
        let joined = spec_joined(seats, client);
        assert(joined.dom() =~= seats.dom().insert(client));
        if seats.len() == 0 {
            seats.dom().lemma_len0_is_empty();
        }
    }
}

/// What the server does about a client that connected.
#[derive(Clone, Debug, PartialEq, Eq)]
pub enum Admission {
    /// The lobby is full: the client is to be disconnected.
    Rejected,
    /// The client has this seat, and the other seat is still free.
    Waiting(PlayerNumber),
    /// The client got the last seat and the match begins. Each client of
    /// `seats` is to be told its seat, and both are to get `notices`, the
    /// spawns of the towers.
    Started { seats: Vec<(u64, PlayerNumber)>, notices: Vec<ServerMessage> },
}

/// The message that tells a client its seat.
pub open spec fn greeting() -> spec_fn((u64, PlayerNumber)) -> (u64, ServerMessage) {
    |seat: (u64, PlayerNumber)| (seat.0, ServerMessage::StartGame(seat.1))
}

impl Admission {
    /// What each client is to be told of its seat: nothing before the match
    /// starts, and with its start each of the two its own player number.
    pub open spec fn spec_greetings(self) -> Seq<(u64, ServerMessage)> {
        match self {
            Admission::Started { seats, .. } => seats@.map_values(greeting()),
            _ => Seq::empty(),
        }
    }

    /// The messages that tell the two clients their seats, each with the
    /// client that it is for.
    pub fn greetings(&self) -> (messages: Vec<(u64, ServerMessage)>)
        ensures
            messages@ == self.spec_greetings(),
    {
        let mut messages: Vec<(u64, ServerMessage)> = Vec::new();
        match self {
            Admission::Started { seats, .. } => {
                let mut i: usize = 0;
                while i < seats.len()
                    invariant
                        i <= seats.len(),
                        messages@.len() == i,
                        forall|j: int| 0 <= j < i ==> messages@[j] == greeting()(seats@[j]),
                    decreases seats.len() - i,
                {
                    let seat = seats[i];
                    messages.push((seat.0, ServerMessage::StartGame(seat.1)));
                    i += 1;
                }
            },
            _ => {},
        }
        assert(messages@ =~= self.spec_greetings());
        messages
    }
}

/// What goes out after a tick.
#[derive(Clone, Debug, PartialEq, Eq)]
pub struct Broadcast {
    /// Spawn and despawn notices, for the ordered reliable channel.
    pub notices: Vec<ServerMessage>,
    /// The snapshot of the arena, for the unreliable channel.
    pub snapshot: ServerMessage,
}

/// A match as the server holds it.
pub struct Server {
    pub lobby: Lobby,
    pub world: World,
}

/// A `Server` as plain mathematical data.
pub struct ServerView {
    pub lobby: Map<u64, PlayerNumber>,
    pub world: WorldView,
}

impl View for Server {
    type V = ServerView;

    open spec fn view(&self) -> ServerView {
        ServerView { lobby: self.lobby@, world: self.world@ }
    }
}

/// Something that happens to a server.
pub enum Event {
    /// This client connected.
    Connection(u64),
    /// This client sent this message.
    Message(u64, ClientMessage),
    /// This many microseconds passed.
    Tick(u64),
}

/// The notices that an admission brings for both clients.
pub open spec fn admission_notices(admission: Admission) -> Seq<ServerMessage> {
    match admission {
        Admission::Started { notices, .. } => notices@,
        _ => Seq::empty(),
    }
}

impl ServerView {
    /// A server with an empty lobby and an empty arena.
    pub open spec fn fresh() -> ServerView {
        ServerView {
            lobby: no_seats(),
            world: WorldView { units: Seq::empty(), projectiles: Seq::empty(), next_entity: 0 },
        }
    }

    /// Whether the connection of a client starts the match: it is let in
    /// and brings the lobby to two clients.
    pub open spec fn starts_with(self, client: u64) -> bool {
        self.lobby.len() < 2 && !self.lobby.contains_key(client) && spec_joined(
            self.lobby,
            client,
        ).len() == 2
    }

    /// The server after `client` connected.
    pub open spec fn connect(self, client: u64) -> ServerView {
        ServerView {
            lobby: spec_joined(self.lobby, client),
            world: if self.starts_with(client) {
                self.world.spawn_units(spec_tower_orders())
            } else {
                self.world
            },
        }
    }

    /// The notices that go out when `client` connected.
    pub open spec fn connect_notices(self, client: u64) -> Seq<ServerMessage> {
        if self.starts_with(client) {
            self.world.spawn_units_notices(spec_tower_orders())
        } else {
            Seq::empty()
        }
    }

    /// The spawns that a message of `client` orders: those of the card it
    /// plays, if the client has a seat.
    pub open spec fn ordered_by(self, client: u64, message: ClientMessage) -> Seq<SpawnOrder> {
        match (seat_at(self.lobby, client), message) {
            (Some(owner), ClientMessage::PlayCard { card, placement }) => card.spec_orders(
                placement,
                owner,
            ),
            (None, _) => Seq::empty(),
        }
    }

    /// The server after a message of `client`.
    pub open spec fn receive(self, client: u64, message: ClientMessage) -> ServerView {
        ServerView { world: self.world.spawn_units(self.ordered_by(client, message)), ..self }
    }

    /// The notices that go out after a message of `client`.
    pub open spec fn receive_notices(self, client: u64, message: ClientMessage) -> Seq<
        ServerMessage,
    > {
        self.world.spawn_units_notices(self.ordered_by(client, message))
    }

    /// The server after one tick.
    pub open spec fn tick(self, delta: u64) -> ServerView {
        ServerView { world: self.world.tick(delta), ..self }
    }

    /// The server after `event`.
    pub open spec fn after(self, event: Event) -> ServerView {
        match event {
            Event::Connection(client) => self.connect(client),
            Event::Message(client, message) => self.receive(client, message),
            Event::Tick(delta) => self.tick(delta),
        }
    }

    /// The spawn and despawn notices that `event` sends to both clients.
    pub open spec fn notices_of(self, event: Event) -> Seq<ServerMessage> {
        match event {
            Event::Connection(client) => self.connect_notices(client),
            Event::Message(client, message) => self.receive_notices(client, message),
            Event::Tick(delta) => self.world.tick_notices(delta),
        }
    }

    /// The server after all of `events`, in order.
    pub open spec fn run(self, events: Seq<Event>) -> ServerView
        decreases events.len(),
    {
        if events.len() == 0 {
            self
        } else {
            self.run(events.drop_last()).after(events.last())
        }
    }

    /// All the spawn and despawn notices that `events` send, in order.
    pub open spec fn run_notices(self, events: Seq<Event>) -> Seq<ServerMessage>
        decreases events.len(),
    {
        if events.len() == 0 {
            Seq::empty()
        } else {
            self.run_notices(events.drop_last()) + self.run(events.drop_last()).notices_of(
                events.last(),
            )
        }
    }
}

/// Whatever happens to a server from its start, its lobby is orderly: it
/// holds at most two clients, the first to arrive as player one and the next
/// as player two.
pub proof fn lemma_lobby_is_orderly(events: Seq<Event>)
    ensures
        is_orderly(ServerView::fresh().run(events).lobby),
    decreases events.len(),
{
    if events.len() > 0 {
        lemma_lobby_is_orderly(events.drop_last());
        let before = ServerView::fresh().run(events.drop_last());
        match events.last() {
            Event::Connection(client) => {
                lemma_join_keeps_order(before.lobby, client);
            },
            _ => {},
        }
    }
}

/// Whatever happens to a server from its start, its notices tell the life
/// of every entity truly: they replay to what is on the arena.
pub proof fn lemma_run_replays(events: Seq<Event>)
    ensures
        ServerView::fresh().run(events).world.wf(),
        Ledger::fresh().replay(ServerView::fresh().run_notices(events)) == Some(
            ServerView::fresh().run(events).world.ledger(),
        ),
    decreases events.len(),
{
    let start = ServerView::fresh();
    if events.len() == 0 {
        assert(start.world.live() =~= Set::<u64>::empty());
    } else {
        let front = events.drop_last();
        let event = events.last();
        lemma_run_replays(front);
        let before = start.run(front);
        match event {
            Event::Connection(client) => {
                if before.starts_with(client) {
                    lemma_spawn_units_replay(before.world, spec_tower_orders());
                }
            },
            Event::Message(client, message) => {
                lemma_spawn_units_replay(before.world, before.ordered_by(client, message));
            },
            Event::Tick(delta) => {
                lemma_tick_replays(before.world, delta);
            },
        }
        lemma_replay_concat(Ledger::fresh(), start.run_notices(front), before.notices_of(event));
    }
}

/// Whatever happens to a server from its start: every identifier that one
/// of its despawn notices names was announced by a spawn notice before, and
/// no identifier is named by two despawn notices.
pub proof fn lemma_every_run_round_trips(events: Seq<Event>)
    ensures
        round_trip(ServerView::fresh().run_notices(events)),
{
    lemma_run_replays(events);
    lemma_replay_round_trips(ServerView::fresh().run_notices(events));
}

impl Server {
    /// A server with an empty lobby and an empty arena.
    pub fn new() -> (server: Server)
        ensures
            server@ == ServerView::fresh(),
    {
        let server = Server { lobby: Lobby::new(), world: World::new() };
        assert(server.world@.units =~= Seq::<UnitRecord>::empty());
        assert(server.world@.projectiles =~= Seq::<ProjectileRecord>::empty());
        server
    }

    /// Takes in a client that connected. The first two clients get the
    /// seats of player one and player two, in the order of their arrival;
    /// with the second the towers of both sides are spawned. Any later
    /// client is rejected, and nothing changes. Nor does anything change when
    /// a client that has a seat connects once more before the match starts.
    pub fn handle_connection(&mut self, client: u64) -> (admission: Admission)
        ensures
            final(self)@ == old(self)@.connect(client),
            admission_notices(admission) == old(self)@.connect_notices(client),
            if old(self)@.lobby.len() >= 2 {
                admission == Admission::Rejected
            } else if old(self)@.starts_with(client) {
                admission matches Admission::Started { seats, .. } && is_listing(
                    seats@,
                    final(self)@.lobby,
                )
            } else {
                seat_at(final(self)@.lobby, client) matches Some(seat) && admission
                    == Admission::Waiting(seat)
            },
    {
        let n = self.lobby.count();
        if n >= 2 {
            return Admission::Rejected;
        }
        match self.lobby.seat_of(client) {
            Some(seat) => {
                return Admission::Waiting(seat);
            },
            None => {},
        }
        let seat = if n == 0 {
            PlayerNumber::One
        } else {
            PlayerNumber::Two
        };
        self.lobby.seat(client, seat);
        if self.lobby.count() == 2 {
            let orders = tower_orders();
            let notices = self.world.spawn_units(&orders);
            Admission::Started { seats: self.lobby.seats(), notices }
        } else {
            Admission::Waiting(seat)
        }
    }

    /// Takes in a message of `client`. A played card spawns its units for
    /// the player on whose seat the client sits, and the notices of the
    /// spawns are returned. A message of a client without a seat is dropped.
    pub fn handle_client_message(&mut self, client: u64, message: ClientMessage) -> (notices: Vec<
        ServerMessage,
    >)
        ensures
            final(self)@ == old(self)@.receive(client, message),
            notices@ == old(self)@.receive_notices(client, message),
    {
        let owner = match self.lobby.player_of(client) {
            Some(owner) => owner,
            None => {
                return Vec::new();
            },
        };
        match message {
            ClientMessage::PlayCard { card, placement } => {
                let orders = card.orders(placement, owner);
                self.world.spawn_units(&orders)
            },
        }
    }

    /// Advances the match by one tick of `delta` microseconds and returns
    /// what goes out to the clients: the tick's notices, and the snapshot of
    /// the arena as the tick left it.
    pub fn tick(&mut self, delta: u64) -> (out: Broadcast)
        ensures
            final(self)@ == old(self)@.tick(delta),
            out.notices@ == old(self).world@.tick_notices(delta),
            out.snapshot matches ServerMessage::SyncEntities { units, projectiles } && units@
                == final(self).world@.sync_units() && projectiles@
                == final(self).world@.sync_projectiles(),
    {
        let notices = self.world.tick(delta);
        let snapshot = self.world.sync_entities();
        Broadcast { notices, snapshot }
    }
}

} // verus!
