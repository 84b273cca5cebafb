//! The life of an entity as the server's notices tell it: spawned once,
//! under an identifier that was never used before, and despawned at most
//! once, after its spawn.

use vstd::prelude::*;
use crate::common::ServerMessage;

verus! {

/// The identifier that a notice announces, if it is a spawn notice.
pub open spec fn spawned_id(m: ServerMessage) -> Option<u64> {
    match m {
        ServerMessage::SpawnUnit { server_entity, .. } => Some(server_entity),
        ServerMessage::SpawnProjectile { server_entity, .. } => Some(server_entity),
        _ => None,
    }
}

/// The identifier that a notice retires, if it is a despawn notice.
pub open spec fn despawned_id(m: ServerMessage) -> Option<u64> {
    match m {
        ServerMessage::Despawn(e) => Some(e),
        _ => None,
    }
}

/// What a reader of the notices knows: which entities are there, and which
/// identifier the next spawn must bring.
pub struct Ledger {
    pub live: Set<u64>,
    pub next: u64,
}

impl Ledger {
    /// The ledger before any notice.
    pub open spec fn fresh() -> Ledger {
        Ledger { live: Set::empty(), next: 0 }
    }

    /// Every entity that is there has an identifier that was handed out.
    pub open spec fn is_sound(self) -> bool {
        forall|e: u64| self.live.contains(e) ==> e < self.next
    }

    /// The ledger after one more notice, if the notice is in order: a spawn
    /// must bring the next identifier, a despawn must name an entity that is
    /// there. Other messages change nothing.
    pub open spec fn step(self, m: ServerMessage) -> Option<Ledger> {
        match (spawned_id(m), despawned_id(m)) {
            (Some(e), _) => if e == self.next && self.next < u64::MAX {
                Some(Ledger { live: self.live.insert(e), next: (e + 1) as u64 })
            } else {
                None
            },
            (None, Some(e)) => if self.live.contains(e) {
                Some(Ledger { live: self.live.remove(e), ..self })
            } else {
                None
            },
            (None, None) => Some(self),
        }
    }

    /// The ledger after `msgs`, if each of them is in order where it
    /// stands.
    pub open spec fn replay(self, msgs: Seq<ServerMessage>) -> Option<Ledger>
        decreases msgs.len(),
    {
        if msgs.len() == 0 {
            Some(self)
        } else {
            match self.replay(msgs.drop_last()) {
                Some(l) => l.step(msgs.last()),
                None => None,
            }
        }
    }
}

/// Every despawn notice of `msgs` names an entity that an earlier notice of
/// `msgs` spawned, or that was there at the start, and no two despawn notices
/// name the same entity.
pub open spec fn round_trip_from(start: Set<u64>, msgs: Seq<ServerMessage>) -> bool {
    &&& forall|j: int|
        0 <= j < msgs.len() && despawned_id(#[trigger] msgs[j]) is Some ==> start.contains(
            despawned_id(msgs[j])->0,
        ) || exists|i: int| 0 <= i < j && spawned_id(#[trigger] msgs[i]) == despawned_id(msgs[j])
    &&& forall|j: int, k: int|
        0 <= j < k < msgs.len() && despawned_id(#[trigger] msgs[j]) is Some ==> despawned_id(
            msgs[j],
        ) != despawned_id(#[trigger] msgs[k])
}

/// Every despawn notice of `msgs` names an entity that an earlier notice of
/// `msgs` spawned, and no two despawn notices name the same entity.
pub open spec fn round_trip(msgs: Seq<ServerMessage>) -> bool {
    round_trip_from(Set::empty(), msgs)
}

/// Replaying one more notice is one more step.
pub proof fn lemma_replay_push(l: Ledger, msgs: Seq<ServerMessage>, m: ServerMessage)
    ensures
        l.replay(msgs.push(m)) == (match l.replay(msgs) {
            Some(x) => x.step(m),
            None => None,
        }),
{
    assert(msgs.push(m).drop_last() == msgs);
    assert(msgs.push(m).last() == m);
}

/// Replaying two runs of notices one after the other is replaying them as
/// one run.
pub proof fn lemma_replay_concat(l: Ledger, a: Seq<ServerMessage>, b: Seq<ServerMessage>)
    ensures
        l.replay(a + b) == (match l.replay(a) {
            Some(x) => x.replay(b),
            None => None,
        }),
    decreases b.len(),
{
    if b.len() == 0 {
        assert(a + b == a);
    } else {
        lemma_replay_concat(l, a, b.drop_last());
        assert((a + b).drop_last() == a + b.drop_last());
        assert((a + b).last() == b.last());
    }
}

/// What a replay that went through says of the notices and of the ledger
/// that it ends with.
pub open spec fn accounted(start: Ledger, msgs: Seq<ServerMessage>, end: Ledger) -> bool {
    &&& end.is_sound()
    &&& start.next <= end.next
    &&& forall|e: u64| #[trigger]
        end.live.contains(e) ==> start.live.contains(e) || exists|i: int|
            0 <= i < msgs.len() && spawned_id(#[trigger] msgs[i]) == Some(e)
    &&& forall|j: int|
        0 <= j < msgs.len() && despawned_id(#[trigger] msgs[j]) is Some ==> !end.live.contains(
            despawned_id(msgs[j])->0,
        ) && despawned_id(msgs[j])->0 < end.next
    &&& round_trip_from(start.live, msgs)
}

/// A replay that goes through accounts for every notice.
pub proof fn lemma_replay_accounts(start: Ledger, msgs: Seq<ServerMessage>)
    requires
        start.is_sound(),
        start.replay(msgs) is Some,
    ensures
        accounted(start, msgs, start.replay(msgs)->0),
    decreases msgs.len(),
{
    if msgs.len() > 0 {
        let front = msgs.drop_last();
        let m = msgs.last();
        let n = front.len() as int;
        lemma_replay_accounts(start, front);
        let before = start.replay(front)->0;
        let end = start.replay(msgs)->0;
        assert(before.step(m) == Some(end));
        assert forall|i: int| 0 <= i < n implies #[trigger] msgs[i] == front[i] by {}
        assert(msgs[n] == m);
        assert forall|e: u64| #[trigger] end.live.contains(e) implies start.live.contains(e)
            || exists|i: int| 0 <= i < msgs.len() && spawned_id(#[trigger] msgs[i]) == Some(e) by {
            if before.live.contains(e) {
                if !start.live.contains(e) {
                    let i = choose|i: int|
                        0 <= i < front.len() && spawned_id(#[trigger] front[i]) == Some(e);
                    assert(spawned_id(msgs[i]) == Some(e));
                }
            } else {
                assert(spawned_id(msgs[n]) == Some(e));
            }
        }
        assert forall|j: int|
            0 <= j < msgs.len() && despawned_id(#[trigger] msgs[j]) is Some implies !end.live.contains(
            despawned_id(msgs[j])->0,
        ) && despawned_id(msgs[j])->0 < end.next by {
            if j < n {
                assert(despawned_id(front[j]) is Some);
            }
        }
        assert forall|j: int|
            0 <= j < msgs.len() && despawned_id(#[trigger] msgs[j]) is Some implies start.live.contains(
            despawned_id(msgs[j])->0,
        ) || exists|i: int|
            0 <= i < j && spawned_id(#[trigger] msgs[i]) == despawned_id(msgs[j]) by {
            let e = despawned_id(msgs[j])->0;
            if j < n {
                assert(despawned_id(front[j]) is Some);
                if !start.live.contains(e) {
                    let i = choose|i: int|
                        0 <= i < j && spawned_id(#[trigger] front[i]) == despawned_id(front[j]);
                    assert(spawned_id(msgs[i]) == despawned_id(msgs[j]));
                }
            } else {
                assert(before.live.contains(e));
                if !start.live.contains(e) {
                    let i = choose|i: int|
                        0 <= i < front.len() && spawned_id(#[trigger] front[i]) == Some(e);
                    assert(spawned_id(msgs[i]) == despawned_id(msgs[j]));
                }
            }
        }
        assert forall|j: int, k: int|
            0 <= j < k < msgs.len() && despawned_id(#[trigger] msgs[j]) is Some implies despawned_id(
            msgs[j],
        ) != despawned_id(#[trigger] msgs[k]) by {
            assert(despawned_id(front[j]) is Some);
            if k < n {
                assert(msgs[k] == front[k]);
            }
        }
    }
}

/// Notices that replay from the fresh ledger make a round trip: every
/// identifier that a despawn notice names was announced by a spawn notice
/// before it, and is named by no other despawn notice.
pub proof fn lemma_replay_round_trips(msgs: Seq<ServerMessage>)
    requires
        Ledger::fresh().replay(msgs) is Some,
    ensures
        round_trip(msgs),
{
    lemma_replay_accounts(Ledger::fresh(), msgs);
}

} // verus!
