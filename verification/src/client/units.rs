//! How a client shows a unit: where, facing which way, under which
//! animation tag.

use vstd::prelude::*;
use crate::common::{Direction, Health, PlayerNumber, Unit, UnitState};
use crate::geometry::ArenaPos;

verus! {

/// Ties a tower's defender, the unit that the server knows, to the local
/// entity that shows the tower itself.
#[derive(Clone, Copy, Debug, PartialEq, Eq, Structural)]
pub struct AssociatedTower(pub u64);

/// A unit as a client shows it.
#[derive(Clone, Copy, Debug, PartialEq, Eq, Structural)]
pub struct LocalUnit {
    /// The client's own identifier of the unit.
    pub entity: u64,
    pub kind: Unit,
    pub owner: PlayerNumber,
    pub pos: ArenaPos,
    pub direction: Direction,
    pub state: UnitState,
    pub health: Health,
    /// For the defender of a tower, the tower that goes when it goes.
    pub tower: Option<AssociatedTower>,
}

impl Unit {
    /// Whether a unit of this kind is the defender of a tower.
    pub open spec fn spec_is_tower(self) -> bool {
        self == Unit::ArcherTower || self == Unit::KingTower
    }

    /// Whether a unit of this kind is the defender of a tower.
    pub fn is_tower(self) -> (tower: bool)
        ensures
            tower == self.spec_is_tower(),
    {
        match self {
            Unit::ArcherTower | Unit::KingTower => true,
            _ => false,
        }
    }
}

impl PlayerNumber {
    /// Up the screen for the player's own units, down for the others.
    pub open spec fn spec_spawn_direction(self, owner: PlayerNumber) -> Direction {
        if self == owner {
            Direction::Up
        } else {
            Direction::Down
        }
    }

    /// The way a unit of `owner` faces when it appears on the screen of
    /// this player: up the screen if it is the player's own, down if not.
    /// That is the owner's default direction as this player sees it.
    pub fn spawn_direction(self, owner: PlayerNumber) -> (d: Direction)
        ensures
            d == self.spec_spawn_direction(owner),
            d == owner.spec_default_direction().spec_adjust_for_player(self),
    {
        match (self, owner) {
            (PlayerNumber::One, PlayerNumber::One) | (PlayerNumber::Two, PlayerNumber::Two) => {
                Direction::Up
            },
            _ => Direction::Down,
        }
    }
}

impl ArenaPos {
    /// The point as `player` sees it.
    pub open spec fn spec_adjust_for_player(self, player: PlayerNumber) -> ArenaPos {
        match player {
            PlayerNumber::One => self,
            PlayerNumber::Two => self.spec_mirror(),
        }
    }

    /// The point as `player` sees it: player two looks at the arena from
    /// the other side, so that both players see their own half below.
    pub fn adjust_for_player(&self, player: PlayerNumber) -> (p: ArenaPos)
        ensures
            p == self.spec_adjust_for_player(player),
    {
        match player {
            PlayerNumber::One => *self,
            PlayerNumber::Two => self.mirror(),
        }
    }
}

impl Direction {
    /// The direction as `player` sees it.
    pub open spec fn spec_adjust_for_player(self, player: PlayerNumber) -> Direction {
        match player {
            PlayerNumber::One => self,
            PlayerNumber::Two => self.spec_opposite(),
        }
    }

    /// The direction as `player` sees it.
    pub fn adjust_for_player(&self, player: PlayerNumber) -> (d: Direction)
        ensures
            d == self.spec_adjust_for_player(player),
    {
        match player {
            PlayerNumber::One => *self,
            PlayerNumber::Two => self.opposite(),
        }
    }

    /// The animation tag of the direction.
    pub fn tag(&self) -> (t: &'static str)
        ensures
            t@ == (match *self {
                Direction::Up => "u"@,
                Direction::Down => "d"@,
                Direction::Left => "l"@,
                Direction::Right => "r"@,
            }),
    {
        match self {
            Direction::Up => "u",
            Direction::Down => "d",
            Direction::Left => "l",
            Direction::Right => "r",
        }
    }
}

impl UnitState {
    /// What the state adds to the animation tag of a direction.
    pub fn tag(&self) -> (t: &'static str)
        ensures
            t@ == (match *self {
                UnitState::Attacking => "a"@,
                _ => ""@,
            }),
    {
        match self {
            UnitState::Idle => "",
            UnitState::Moving => "",
            UnitState::Attacking => "a",
        }
    }
}

/// The unit `u` with what a snapshot entry says of it, as `player` sees it.
/// Position, direction, state and health are replaced; who it is stays.
pub open spec fn overwritten(
    u: LocalUnit,
    pos: ArenaPos,
    direction: Direction,
    state: UnitState,
    health: Health,
    player: PlayerNumber,
) -> LocalUnit {
    LocalUnit {
        pos: pos.spec_adjust_for_player(player),
        direction: direction.spec_adjust_for_player(player),
        state,
        health,
        ..u
    }
}

} // verus!
