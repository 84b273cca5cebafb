//! The deck that a player plays from: a hand of four cards, the card that
//! comes next, the elixir that pays for them, and where on the arena a card
//! lands.

use vstd::prelude::*;
use rand::seq::SliceRandom;
use crate::common::{Card, ClientMessage, PlayerNumber};
use crate::geometry::{clamp_i32, clamp_to_i32, ArenaPos, UNIT};
use crate::timer::{Timer, TimerMode};

verus! {

/// How many cards a player holds in hand.
pub const HAND: usize = 4;

/// The most elixir that a player can hold.
pub const ELIXIR_CAP: u8 = 10;

/// How long one point of elixir takes to come, in microseconds.
pub const ELIXIR_PERIOD: u64 = 1_500_000;

impl Card {
    /// What the card costs to play.
    pub open spec fn spec_elixir_cost(self) -> u8 {
        match self {
            Card::Rus => 3,
            Card::Musketeer => 4,
            Card::ThreeMusketeers => 9,
            Card::Priest => 5,
            Card::Bats => 3,
            Card::BatHorde => 5,
            Card::Bomber => 3,
            Card::Giant => 6,
        }
    }

    /// What the card costs to play.
    pub fn elixir_cost(&self) -> (cost: u8)
        ensures
            cost == self.spec_elixir_cost(),
    {
        match self {
            Card::Rus => 3,
            Card::Musketeer => 4,
            Card::ThreeMusketeers => 9,
            Card::Priest => 5,
            Card::Bats => 3,
            Card::BatHorde => 5,
            Card::Bomber => 3,
            Card::Giant => 6,
        }
    }

    /// The name of the card's picture.
    pub fn tag(&self) -> (t: &'static str)
        ensures
            t@ == (match *self {
                Card::Musketeer => "musketeer"@,
                Card::Rus => "rus"@,
                Card::ThreeMusketeers => "three_musketeers"@,
                Card::Priest => "priest"@,
                Card::Bats => "bats"@,
                Card::BatHorde => "bat_horde"@,
                Card::Bomber => "bomber"@,
                Card::Giant => "giant"@,
            }),
    {
        match self {
            Card::Musketeer => "musketeer",
            Card::Rus => "rus",
            Card::ThreeMusketeers => "three_musketeers",
            Card::Priest => "priest",
            Card::Bats => "bats",
            Card::BatHorde => "bat_horde",
            Card::Bomber => "bomber",
            Card::Giant => "giant",
        }
    }
}

/// Where the pointer is on the arena, if it is on it.
#[derive(Clone, Copy, Debug, PartialEq, Eq, Structural)]
pub struct MouseArenaPos(pub Option<ArenaPos>);

impl MouseArenaPos {
    /// Whether `pos` is on the arena: no more than nine units to either side
    /// and no more than sixteen up or down.
    pub open spec fn spec_on_arena(pos: ArenaPos) -> bool {
        -9 * UNIT <= pos.0 <= 9 * UNIT && -16 * UNIT <= pos.1 <= 16 * UNIT
    }

    /// The pointer at `pos`, which counts only if it is on the arena.
    pub fn at(pos: ArenaPos) -> (m: MouseArenaPos)
        ensures
            m.0 == (if Self::spec_on_arena(pos) {
                Some(pos)
            } else {
                None
            }),
    {
        if -9_000_000 <= pos.0 && pos.0 <= 9_000_000 && -16_000_000 <= pos.1 && pos.1
            <= 16_000_000 {
            MouseArenaPos(Some(pos))
        } else {
            MouseArenaPos(None)
        }
    }
}

/// The middle of the grid cell that the coordinate `v` lies in.
pub open spec fn spec_cell_centre(v: int) -> int {
    (v / (UNIT as int)) * UNIT + UNIT / 2
}

/// The coordinate `v` held between `low` and `high`.
pub open spec fn spec_clamp(v: int, low: int, high: int) -> int {
    if v < low {
        low
    } else if v > high {
        high
    } else {
        v
    }
}

/// Where a card lands that is played with the pointer at `mouse`, as the
/// player sees the arena: in the middle of the pointer's cell, and no
/// further up than the player's own half, rows -16 to -2.
pub open spec fn spec_landing(mouse: ArenaPos) -> ArenaPos {
    ArenaPos(
        clamp_i32(spec_cell_centre(mouse.0 as int)) as i32,
        spec_cell_centre(spec_clamp(mouse.1 as int, -16 * UNIT, -2 * UNIT)) as i32,
    )
}

/// Where that card lands on the server's arena: player two plays from the
/// other side.
pub open spec fn spec_placement(mouse: ArenaPos, player: PlayerNumber) -> ArenaPos {
    spec_landing(mouse).spec_adjust_for_player(player)
}

/// The number of the grid cell that `v` lies in: `v` in units, rounded
/// down.
fn cell_of(v: i32) -> (cell: i64)
    ensures
        cell == (v as int) / (UNIT as int),
        -2148 <= cell <= 2147,
{
    let wide: i64 = v as i64;
    if wide >= 0 {
        wide / 1_000_000
    } else {
        let up: i64 = -wide + 999_999;
        let q: i64 = up / 1_000_000;
        assert((v as int) / 1_000_000 == -q) by (nonlinear_arith)
            requires
                q == (-(v as int) + 999_999) / 1_000_000,
                v < 0,
        ;
        -q
    }
}

/// Where a card lands on the server's arena.
pub fn placement(mouse: ArenaPos, player: PlayerNumber) -> (p: ArenaPos)
    ensures
        p == spec_placement(mouse, player),
{
    let column = cell_of(mouse.0);
    let held: i32 = if mouse.1 < -16_000_000 {
        -16_000_000
    } else if mouse.1 > -2_000_000 {
        -2_000_000
    } else {
        mouse.1
    };
    let row = cell_of(held);
    assert(-16 <= row <= -2);
    let x = clamp_to_i32((column * 1_000_000 + 500_000) as i128);
    let y = (row * 1_000_000 + 500_000) as i32;
    ArenaPos(x, y).adjust_for_player(player)
}

/// The elixir that a player has, and the timer that brings more.
#[derive(Clone, Copy, Debug, PartialEq, Eq, Structural)]
pub struct ElixirCounter(pub u8, pub Timer);

impl ElixirCounter {
    /// The counter after `delta` more microseconds: one point more when the
    /// period completes, but never more than the cap.
    pub open spec fn spec_tick(self, delta: u64) -> ElixirCounter {
        ElixirCounter(
            if self.1.spec_tick(delta).just_finished && self.0 < ELIXIR_CAP {
                (self.0 + 1) as u8
            } else {
                self.0
            },
            self.1.spec_tick(delta),
        )
    }

    /// Advances the counter by `delta` microseconds.
    pub fn tick(&mut self, delta: u64)
        ensures
            *final(self) == old(self).spec_tick(delta),
    {
        let mut timer = self.1;
        let due = timer.tick(delta);
        self.1 = timer;
        if due && self.0 < ELIXIR_CAP {
            self.0 = self.0 + 1;
        }
    }
}

impl Default for ElixirCounter {
    /// No elixir, and the first point a full period away.
    fn default() -> (e: ElixirCounter)
        ensures
            e == ElixirCounter(0, Timer::spec_new(ELIXIR_PERIOD, TimerMode::Repeating)),
    {
        ElixirCounter(0, Timer::new(ELIXIR_PERIOD, TimerMode::Repeating))
    }
}

/// The place in the deck of the card that the player has picked, if any.
#[derive(Clone, Copy, Debug, PartialEq, Eq, Structural)]
pub struct SelectedCard(pub Option<u8>);

impl SelectedCard {
    /// The selection after the card at `pressed` was pressed: pressing the
    /// picked card lets go of it, pressing any other picks that one.
    pub open spec fn spec_press(self, pressed: u8) -> SelectedCard {
        if self.0 == Some(pressed) {
            SelectedCard(None)
        } else {
            SelectedCard(Some(pressed))
        }
    }

    /// Takes in a press on the card at `pressed`.
    pub fn press(&mut self, pressed: u8)
        ensures
            *final(self) == old(self).spec_press(pressed),
    {
        match self.0 {
            Some(selected) if selected == pressed => {
                self.0 = None;
            },
            _ => {
                self.0 = Some(pressed);
            },
        }
    }
}

impl Default for SelectedCard {
    fn default() -> (s: SelectedCard)
        ensures
            s == SelectedCard(None),
    {
        SelectedCard(None)
    }
}

/// The eight cards of a player: the first four are the hand, the fifth comes
/// next, the rest wait behind it.
#[derive(Clone, Copy, Debug, PartialEq, Eq)]
pub struct Deck(pub [Card; 8]);

/// The eight cards, each once.
pub open spec fn all_cards() -> Seq<Card> {
    seq![
        Card::Rus,
        Card::Musketeer,
        Card::ThreeMusketeers,
        Card::Priest,
        Card::Bats,
        Card::BatHorde,
        Card::Bomber,
        Card::Giant,
    ]
}

/// Calls `SliceRandom::shuffle` of `rand` with the thread's generator.
/// Claimed, not proved: whatever order chance brings, the slice holds the
/// same cards as before, each as often as before.
#[verifier::external_body]
fn shuffle(cards: &mut [Card; 8])
    ensures
        final(cards)@.to_multiset() == old(cards)@.to_multiset(),
{
    cards.shuffle(&mut rand::thread_rng());
}

/// The deck `cards` after the card at `index` of the hand was played: the
/// next card takes its place, the waiting cards move up, and the played card
/// goes to the back.
pub open spec fn spec_rotated(cards: Seq<Card>, index: int) -> Seq<Card> {
    cards.update(index, cards[4]).update(4, cards[5]).update(5, cards[6]).update(6, cards[7]).update(
        7,
        cards[index],
    )
}

impl Deck {
    /// Every card is in the deck exactly once.
    pub open spec fn is_complete(self) -> bool {
        self.0@.to_multiset() == all_cards().to_multiset()
    }

    /// The eight cards in a fixed order.
    pub fn sorted() -> (deck: Deck)
        ensures
            deck.0@ == all_cards(),
            deck.is_complete(),
    {
        let cards = [
            Card::Rus,
            Card::Musketeer,
            Card::ThreeMusketeers,
            Card::Priest,
            Card::Bats,
            Card::BatHorde,
            Card::Bomber,
            Card::Giant,
        ];
        assert(cards@ =~= all_cards());
        Deck(cards)
    }

    /// The eight cards in an order that chance picks.
    pub fn shuffled() -> (deck: Deck)
        ensures
            deck.is_complete(),
    {
        let mut deck = Deck::sorted();
        let mut cards = deck.0;
        shuffle(&mut cards);
        Deck(cards)
    }

    /// The card at `index`, if the deck has such a place.
    pub fn card(&self, index: usize) -> (card: Option<Card>)
        ensures
            card == (if index < 8 {
                Some(self.0@[index as int])
            } else {
                None
            }),
    {
        if index < 8 {
            Some(self.0[index])
        } else {
            None
        }
    }

    /// Moves the card at `index` of the hand to the back of the deck. An
    /// index outside the hand changes nothing.
    pub fn rotate(&mut self, index: usize)
        ensures
            final(self).0@ == (if index < HAND {
                spec_rotated(old(self).0@, index as int)
            } else {
                old(self).0@
            }),
            old(self).is_complete() ==> final(self).is_complete(),
    {
        if index >= HAND {
            return ;
        }
        let ghost before = self.0@;
        let card = self.0[index];
        let mut cards = self.0;
        cards[index] = cards[4];
        cards[4] = cards[5];
        cards[5] = cards[6];
        cards[6] = cards[7];
        cards[7] = card;
        self.0 = cards;
        proof {
            assert(self.0@ =~= spec_rotated(before, index as int));
            lemma_rotation_keeps_cards(before, index as int);
        }
    }
}

/// Playing a card keeps every card of the deck.
pub proof fn lemma_rotation_keeps_cards(cards: Seq<Card>, index: int)
    requires
        cards.len() == 8,
        0 <= index < 4,
    ensures
        spec_rotated(cards, index).to_multiset() == cards.to_multiset(),
{
    let r = spec_rotated(cards, index);
    let head = cards.subrange(0, index);
    let mid = cards.subrange(index + 1, 4);
    let tail = cards.subrange(4, 8);
    let picked = seq![cards[index]];
    let old_order = head + picked + mid + tail;
    let new_order = head + seq![cards[4]] + mid + cards.subrange(5, 8) + picked;
    assert(cards =~= old_order);
    assert(r =~= new_order);
    assert(tail =~= seq![cards[4]] + cards.subrange(5, 8));
    vstd::seq_lib::lemma_multiset_commutative(head, picked);
    vstd::seq_lib::lemma_multiset_commutative(head + picked, mid);
    vstd::seq_lib::lemma_multiset_commutative(head + picked + mid, tail);
    vstd::seq_lib::lemma_multiset_commutative(head, seq![cards[4]]);
    vstd::seq_lib::lemma_multiset_commutative(head + seq![cards[4]], mid);
    vstd::seq_lib::lemma_multiset_commutative(head + seq![cards[4]] + mid, cards.subrange(5, 8));
    vstd::seq_lib::lemma_multiset_commutative(
        head + seq![cards[4]] + mid + cards.subrange(5, 8),
        picked,
    );
    vstd::seq_lib::lemma_multiset_commutative(seq![cards[4]], cards.subrange(5, 8));
    assert(old_order.to_multiset() =~= head.to_multiset().add(picked.to_multiset()).add(
        mid.to_multiset(),
    ).add(seq![cards[4]].to_multiset()).add(cards.subrange(5, 8).to_multiset()));
    assert(new_order.to_multiset() =~= head.to_multiset().add(seq![cards[4]].to_multiset()).add(
        mid.to_multiset(),
    ).add(cards.subrange(5, 8).to_multiset()).add(picked.to_multiset()));
}

/// What a player plays with: the deck, the elixir, and the picked card.
#[derive(Clone, Copy, Debug, PartialEq, Eq)]
pub struct Table {
    pub deck: Deck,
    pub elixir: ElixirCounter,
    pub selected: SelectedCard,
}

impl Table {
    /// The card that a release of the pointer at `mouse` plays: the picked
    /// card of the hand, if the pointer is on the arena and the elixir pays
    /// for the card.
    pub open spec fn spec_playable(self, mouse: MouseArenaPos) -> Option<Card> {
        match (mouse.0, self.selected.0) {
            (Some(_), Some(index)) => if index < HAND && self.deck.0@[index as int].spec_elixir_cost()
                <= self.elixir.0 {
                Some(self.deck.0@[index as int])
            } else {
                None
            },
            _ => None,
        }
    }

    /// A table with `deck`, no elixir and no card picked.
    pub fn new(deck: Deck) -> (table: Table)
        ensures
            table.deck == deck,
            table.elixir == ElixirCounter(0, Timer::spec_new(ELIXIR_PERIOD, TimerMode::Repeating)),
            table.selected == SelectedCard(None),
    {
        Table { deck, elixir: ElixirCounter::default(), selected: SelectedCard::default() }
    }

    /// Plays the picked card where the pointer is. Where a card is played
    /// its cost is paid, the deck moves on, the selection is let go, and the
    /// command for the server is returned. Otherwise nothing changes.
    pub fn play_card(&mut self, mouse: MouseArenaPos, player: PlayerNumber) -> (command: Option<
        ClientMessage,
    >)
        ensures
            match old(self).spec_playable(mouse) {
                Some(card) => {
                    &&& command == Some(
                        ClientMessage::PlayCard {
                            card,
                            placement: spec_placement(mouse.0->0, player),
                        },
                    )
                    &&& final(self).elixir == ElixirCounter(
                        (old(self).elixir.0 - card.spec_elixir_cost()) as u8,
                        old(self).elixir.1,
                    )
                    &&& final(self).deck.0@ == spec_rotated(
                        old(self).deck.0@,
                        old(self).selected.0->0 as int,
                    )
                    &&& final(self).selected == SelectedCard(None)
                },
                None => command is None && *final(self) == *old(self),
            },
            old(self).deck.is_complete() ==> final(self).deck.is_complete(),
    {
        let pos = match mouse.0 {
            Some(pos) => pos,
            None => {
                return None;
            },
        };
        let index = match self.selected.0 {
            Some(index) => index as usize,
            None => {
                return None;
            },
        };
        if index >= HAND {
            return None;
        }
        let card = self.deck.0[index];
        let cost = card.elixir_cost();
        if cost > self.elixir.0 {
            return None;
        }
        self.elixir.0 = self.elixir.0 - cost;
        self.deck.rotate(index);
        self.selected.0 = None;
        Some(ClientMessage::PlayCard { card, placement: placement(pos, player) })
    }
}

} // verus!
