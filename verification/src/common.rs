//! The values that the server and its clients share: what can be spawned, who
//! owns it, how it faces, how much health it has, and the messages that carry
//! all of this between them.

use vstd::prelude::*;
use crate::geometry::ArenaPos;

verus! {

/// A card that a player can play onto the arena.
#[derive(Clone, Copy, Debug, PartialEq, Eq, Structural)]
pub enum Card {
    Rus,
    Musketeer,
    ThreeMusketeers,
    Priest,
    Bats,
    BatHorde,
    Bomber,
    Giant,
}

/// A kind of unit or tower.
#[derive(Clone, Copy, Debug, PartialEq, Eq, Structural)]
pub enum Unit {
    ArcherTower,
    KingTower,
    Rus,
    Musketeer,
    Bat,
    Priest,
    Bomber,
    Giant,
}

/// A kind of projectile.
#[derive(Clone, Copy, Debug, PartialEq, Eq, Structural)]
pub enum Projectile {
    Bullet,
    Fireball,
    Bomb,
}

/// Current and maximal health. Damage only ever lowers the first, and never
/// below zero.
#[derive(Clone, Copy, Debug, PartialEq, Eq, Structural)]
pub struct Health(pub u16, pub u16);

impl Health {
    /// The current health does not exceed the maximum.
    pub open spec fn is_valid(self) -> bool {
        self.0 <= self.1
    }

    /// What is left of `self` after `amount` of damage.
    pub open spec fn after_damage(self, amount: nat) -> Health {
        Health(
            if amount >= self.0 {
                0
            } else {
                (self.0 - amount) as u16
            },
            self.1,
        )
    }

    /// Full health of `amount`.
    pub fn new(amount: u16) -> (h: Health)
        ensures
            h == Health(amount, amount),
            h.is_valid(),
    {
        Health(amount, amount)
    }

    /// Takes `amount` away from the current health, stopping at zero. The
    /// maximum is untouched, so the health stays valid and never grows.
    pub fn damage(&mut self, amount: u16)
        ensures
            *final(self) == old(self).after_damage(amount as nat),
            final(self).0 <= old(self).0,
            old(self).is_valid() ==> final(self).is_valid(),
    {
        self.0 = self.0.saturating_sub(amount);
    }

    /// Whether nothing is left.
    pub fn is_dead(&self) -> (dead: bool)
        ensures
            dead == (self.0 == 0),
    {
        self.0 == 0
    }
}

impl Default for Health {
    /// A client shows a unit at full health of 100 until the server says
    /// otherwise.
    fn default() -> (h: Health)
        ensures
            h == Health(100, 100),
    {
        Health::new(100)
    }
}

/// The way a unit faces on the arena.
#[derive(Clone, Copy, Debug, PartialEq, Eq, Structural)]
pub enum Direction {
    Up,
    Down,
    Left,
    Right,
}

impl Direction {
    /// The direction turned around.
    pub open spec fn spec_opposite(self) -> Direction {
        match self {
            Direction::Up => Direction::Down,
            Direction::Down => Direction::Up,
            Direction::Left => Direction::Right,
            Direction::Right => Direction::Left,
        }
    }

    /// Flips `Up` with `Down` and `Left` with `Right`.
    pub fn opposite(&self) -> (r: Direction)
        ensures
            r == self.spec_opposite(),
    {
        match self {
            Direction::Up => Direction::Down,
            Direction::Down => Direction::Up,
            Direction::Left => Direction::Right,
            Direction::Right => Direction::Left,
        }
    }
}

impl Default for Direction {
    fn default() -> (d: Direction)
        ensures
            d == Direction::Up,
    {
        Direction::Up
    }
}

/// What a unit is doing. `Idle` is also what clients are told of a stunned
/// unit, whatever it was doing.
#[derive(Clone, Copy, Debug, PartialEq, Eq, Structural)]
pub enum UnitState {
    Idle,
    Moving,
    Attacking,
}

impl Default for UnitState {
    fn default() -> (s: UnitState)
        ensures
            s == UnitState::Idle,
    {
        UnitState::Idle
    }
}

/// One of the two players. `One` holds the lower half of the arena, `Two` the
/// upper.
#[derive(Clone, Copy, Debug, PartialEq, Eq, Hash, Structural)]
pub enum PlayerNumber {
    One,
    Two,
}

impl Default for PlayerNumber {
    fn default() -> (p: PlayerNumber)
        ensures
            p == PlayerNumber::One,
    {
        PlayerNumber::One
    }
}

/// What a client sends to the server.
#[derive(Clone, Copy, Debug, PartialEq, Eq, Structural)]
pub enum ClientMessage {
    PlayCard { card: Card, placement: ArenaPos },
}

/// One unit's entry of a state snapshot.
#[derive(Clone, Copy, Debug, PartialEq, Eq, Structural)]
pub struct UnitSync {
    pub entity: u64,
    pub pos: ArenaPos,
    pub direction: Direction,
    pub state: UnitState,
    pub health: Health,
}

/// One projectile's entry of a state snapshot.
#[derive(Clone, Copy, Debug, PartialEq, Eq, Structural)]
pub struct ProjectileSync {
    pub entity: u64,
    pub pos: ArenaPos,
}

/// What the server sends to a client.
#[derive(Clone, Debug, PartialEq, Eq)]
pub enum ServerMessage {
    StartGame(PlayerNumber),
    SpawnUnit { server_entity: u64, unit: Unit, pos: ArenaPos, owner: PlayerNumber },
    SpawnProjectile {
        server_entity: u64,
        projectile: Projectile,
        attacker: u64,
        receiver: u64,
        pos: ArenaPos,
    },
    Despawn(u64),
    SyncEntities { units: Vec<UnitSync>, projectiles: Vec<ProjectileSync> },
}

/// The channels from a client to the server, in the order of their numbers.
#[derive(Clone, Copy, Debug, PartialEq, Eq, Structural)]
pub enum ClientChannel {
    /// Card plays.
    OrderedReliable,
}

impl ClientChannel {
    /// The channel's number on the wire.
    pub fn id(self) -> (n: u8)
        ensures
            n == 0,
    {
        0
    }
}

/// The channels from the server to a client, in the order of their numbers.
#[derive(Clone, Copy, Debug, PartialEq, Eq, Structural)]
pub enum ServerChannel {
    /// The handshake, spawns and despawns: delivered in order, never lost.
    OrderedReliable,
    /// Player actions, kept for later use.
    UnorderedReliable,
    /// State snapshots: may be lost or overtaken.
    Unreliable,
}

impl ServerChannel {
    /// The channel's number on the wire.
    pub open spec fn spec_id(self) -> u8 {
        match self {
            ServerChannel::OrderedReliable => 0,
            ServerChannel::UnorderedReliable => 1,
            ServerChannel::Unreliable => 2,
        }
    }

    /// The channel's number on the wire.
    pub fn id(self) -> (n: u8)
        ensures
            n == self.spec_id(),
    {
        match self {
            ServerChannel::OrderedReliable => 0,
            ServerChannel::UnorderedReliable => 1,
            ServerChannel::Unreliable => 2,
        }
    }
}

} // verus!
