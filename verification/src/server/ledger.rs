//! The server's notices tell the life of every entity truly: what a reader
//! of the notices takes to be on the arena is what is on it.

use vstd::prelude::*;
use crate::common::{PlayerNumber, ServerMessage, Unit};
use crate::geometry::ArenaPos;
use crate::lifecycle::{
    despawned_id, lemma_replay_accounts, lemma_replay_concat, lemma_replay_push, Ledger,
};
use crate::seq_search::{lemma_first_agree, lemma_id_member, lemma_ids_push};
use crate::server::ai::{
    despawn_notice, is_alive, is_dead, lemma_fire_keeps_units, shots_upto, units_after_attacks,
};
use crate::server::invariants::{
    all_evolve, lemma_attacks_evolve, lemma_giants_evolve, lemma_movements_evolve,
    lemma_projectiles_evolve, lemma_stuns_evolve, lemma_systems_evolve,
    lemma_unit_states_evolve,
};
use crate::server::networking::SpawnOrder;
use crate::server::projectiles::{
    flies_on, is_spent, lemma_flight_keeps_target, projectile_gone, same_lock,
};
use crate::server::units::UnitRecord;
use crate::server::world::{
    has_id, present, projectile_id, projectile_ids, unit_id, unit_ids, Shot, WorldView,
};

verus! {

/// Removing the items that are `gone`, with a despawn notice for each, is
/// told truly by the notices: a reader who knew the items' identifiers, and
/// `rest` besides, knows the identifiers of the items that are kept, and
/// `rest`, after the notices.
pub proof fn lemma_cull<T>(
    l: Ledger,
    items: Seq<T>,
    gone: spec_fn(T) -> bool,
    keep: spec_fn(T) -> bool,
    id: spec_fn(T) -> u64,
    notice: spec_fn(T) -> ServerMessage,
    rest: Set<u64>,
)
    requires
        forall|x: T| #[trigger] notice(x) == ServerMessage::Despawn(id(x)),
        forall|x: T| #[trigger] keep(x) == !gone(x),
        items.map_values(id).no_duplicates(),
        l.live == items.map_values(id).to_set().union(rest),
        forall|i: int| 0 <= i < items.len() ==> !rest.contains(id(#[trigger] items[i])),
    ensures
        l.replay(items.filter(gone).map_values(notice)) == Some(
            Ledger { live: items.filter(keep).map_values(id).to_set().union(rest), next: l.next },
        ),
        items.filter(keep).map_values(id).no_duplicates(),
        items.filter(keep).map_values(id).to_set().subset_of(items.map_values(id).to_set()),
    decreases items.len(),
{
    reveal(Seq::filter);
    if items.len() == 0 {
        assert(items.filter(gone).map_values(notice) =~= Seq::<ServerMessage>::empty());
        assert(items.filter(keep).map_values(id) =~= items.map_values(id));
    } else {
        let front = items.drop_last();
        let x = items.last();
        assert(items == front.push(x));
        lemma_ids_push(front, id, x);
        let front_ids = front.map_values(id);
        assert(front_ids.no_duplicates()) by {
            assert forall|i: int, j: int|
                0 <= i < front_ids.len() && 0 <= j < front_ids.len() && i != j implies front_ids[i]
                != front_ids[j] by {
                assert(items.map_values(id)[i] != items.map_values(id)[j]);
            }
        }
        assert(!front_ids.to_set().contains(id(x))) by {
            if front_ids.to_set().contains(id(x)) {
                lemma_id_member(front, id, id(x));
                let i = choose|i: int| 0 <= i < front.len() && id(#[trigger] front[i]) == id(x);
                assert(items.map_values(id)[i] == items.map_values(id)[items.len() - 1]);
            }
        }
        let wider = rest.insert(id(x));
        assert(l.live =~= front_ids.to_set().union(wider));
        assert forall|i: int| 0 <= i < front.len() implies !wider.contains(
            id(#[trigger] front[i]),
        ) by {
            assert(front[i] == items[i]);
            lemma_id_member(front, id, id(front[i]));
        }
        lemma_cull(l, front, gone, keep, id, notice, wider);
        let kept_front = front.filter(keep).map_values(id);
        let before = Ledger { live: kept_front.to_set().union(wider), next: l.next };
        Seq::lemma_filter_push(front, x, gone);
        Seq::lemma_filter_push(front, x, keep);
        assert(!kept_front.to_set().contains(id(x)));
        assert(!rest.contains(id(x))) by {
            assert(items[items.len() - 1] == x);
        }
        if gone(x) {
            front.filter(gone).lemma_push_map_commute(notice, x);
            lemma_replay_push(l, front.filter(gone).map_values(notice), notice(x));
            assert(before.live.remove(id(x)) =~= kept_front.to_set().union(rest));
            assert(items.filter(keep) == front.filter(keep));
        } else {
            assert(items.filter(gone) == front.filter(gone));
            lemma_ids_push(front.filter(keep), id, x);
            assert(before.live =~= items.filter(keep).map_values(id).to_set().union(rest));
        }
    }
}

/// Places that hold the same entities hold the same identifiers.
pub proof fn lemma_same_entities(before: Seq<UnitRecord>, after: Seq<UnitRecord>)
    requires
        all_evolve(before, after),
    ensures
        unit_ids(after) == unit_ids(before),
{
    assert(unit_ids(after) =~= unit_ids(before));
}

/// The spawn of a projectile is told truly by its notice.
pub proof fn lemma_spawn_projectile_replays(w: WorldView, shot: Shot)
    requires
        w.wf(),
    ensures
        w.spawn_projectile(shot).wf(),
        w.ledger().replay(w.spawn_notice(shot.message(w.next_entity))) == Some(
            w.spawn_projectile(shot).ledger(),
        ),
{
    let after = w.spawn_projectile(shot);
    let m = shot.message(w.next_entity);
    if w.can_spawn() {
        let p = shot.record(w.next_entity);
        lemma_ids_push(w.projectiles, projectile_id(), p);
        assert(!projectile_ids(w.projectiles).to_set().contains(p.entity)) by {
            lemma_id_member(w.projectiles, projectile_id(), p.entity);
        }
        lemma_replay_push(w.ledger(), Seq::empty(), m);
        assert(w.spawn_notice(m) =~= Seq::<ServerMessage>::empty().push(m));
        assert(after.live() =~= w.live().insert(w.next_entity));
    }
}

/// The spawn of a unit is told truly by its notice.
pub proof fn lemma_spawn_unit_replays(w: WorldView, kind: Unit, pos: ArenaPos, owner: PlayerNumber)
    requires
        w.wf(),
    ensures
        w.spawn_unit(kind, pos, owner).wf(),
        w.ledger().replay(
            w.spawn_notice((SpawnOrder { kind, pos, owner }).notice(w.next_entity)),
        ) == Some(w.spawn_unit(kind, pos, owner).ledger()),
{
    let after = w.spawn_unit(kind, pos, owner);
    let m = (SpawnOrder { kind, pos, owner }).notice(w.next_entity);
    if w.can_spawn() {
        let u = kind.spec_record(w.next_entity, pos, owner);
        lemma_ids_push(w.units, unit_id(), u);
        assert(!unit_ids(w.units).to_set().contains(u.entity)) by {
            lemma_id_member(w.units, unit_id(), u.entity);
        }
        lemma_replay_push(w.ledger(), Seq::empty(), m);
        assert(w.spawn_notice(m) =~= Seq::<ServerMessage>::empty().push(m));
        assert(after.live() =~= w.live().insert(w.next_entity));
    }
}

/// The spawns of projectiles are told truly by their notices.
pub proof fn lemma_fire_replays(w: WorldView, shots: Seq<Shot>)
    requires
        w.wf(),
    ensures
        w.fire(shots).wf(),
        w.ledger().replay(w.fire_notices(shots)) == Some(w.fire(shots).ledger()),
    decreases shots.len(),
{
    if shots.len() > 0 {
        lemma_fire_replays(w, shots.drop_last());
        let before = w.fire(shots.drop_last());
        lemma_spawn_projectile_replays(before, shots.last());
        lemma_replay_concat(
            w.ledger(),
            w.fire_notices(shots.drop_last()),
            before.spawn_notice(shots.last().message(before.next_entity)),
        );
    }
}

/// The spawns of units are told truly by their notices.
pub proof fn lemma_spawn_units_replay(w: WorldView, orders: Seq<SpawnOrder>)
    requires
        w.wf(),
    ensures
        w.spawn_units(orders).wf(),
        w.ledger().replay(w.spawn_units_notices(orders)) == Some(w.spawn_units(orders).ledger()),
    decreases orders.len(),
{
    if orders.len() > 0 {
        lemma_spawn_units_replay(w, orders.drop_last());
        let before = w.spawn_units(orders.drop_last());
        let o = orders.last();
        lemma_spawn_unit_replays(before, o.kind, o.pos, o.owner);
        lemma_replay_concat(
            w.ledger(),
            w.spawn_units_notices(orders.drop_last()),
            before.spawn_notice(o.notice(before.next_entity)),
        );
    }
}

/// A system that keeps every unit in its place, and the projectiles and the
/// next identifier as they are, changes nothing of what the clients were
/// told.
pub proof fn lemma_quiet_system(before: WorldView, after: WorldView)
    requires
        before.wf(),
        all_evolve(before.units, after.units),
        after.projectiles == before.projectiles,
        after.next_entity == before.next_entity,
    ensures
        after.wf(),
        after.ledger() == before.ledger(),
{
    lemma_same_entities(before.units, after.units);
    assert forall|i: int| 0 <= i < after.units.len() implies (#[trigger] after.units[i]).entity
        == before.units[i].entity by {}
}

/// The attacks of a tick are told truly by their notices.
pub proof fn lemma_attacks_replay(w: WorldView, delta: u64)
    requires
        w.wf(),
    ensures
        w.after_attacks(delta).wf(),
        w.ledger().replay(w.attack_notices(delta)) == Some(w.after_attacks(delta).ledger()),
{
    let shots = shots_upto(w.units, delta, w.units.len() as int);
    let struck = WorldView { units: units_after_attacks(w.units, delta), ..w };
    lemma_attacks_evolve(w, delta);
    lemma_fire_keeps_units(struck, shots);
    assert(all_evolve(w.units, struck.units));
    lemma_quiet_system(w, struck);
    lemma_fire_replays(struck, shots);
    crate::server::ai::lemma_fire_apart(w, struck, shots);
}

/// The flight of the projectiles is told truly by its notices.
pub proof fn lemma_projectiles_replay(w: WorldView, delta: u64)
    requires
        w.wf(),
    ensures
        w.after_projectiles(delta).wf(),
        w.ledger().replay(w.spent_notices(delta)) == Some(w.after_projectiles(delta).ledger()),
{
    let after = w.after_projectiles(delta);
    let kept = w.projectiles.filter(flies_on(w.units, delta));
    let rest = unit_ids(w.units).to_set();
    assert(w.ledger().live =~= projectile_ids(w.projectiles).to_set().union(rest));
    assert forall|i: int| 0 <= i < w.projectiles.len() implies !rest.contains(
        projectile_id()(#[trigger] w.projectiles[i]),
    ) by {
        lemma_id_member(w.units, unit_id(), w.projectiles[i].entity);
    }
    lemma_cull(
        w.ledger(),
        w.projectiles,
        is_spent(w.units, delta),
        flies_on(w.units, delta),
        projectile_id(),
        projectile_gone(),
        rest,
    );
    lemma_projectiles_evolve(w, delta);
    lemma_same_entities(w.units, after.units);
    assert(projectile_ids(after.projectiles) =~= kept.map_values(projectile_id()));
    assert(after.live() =~= kept.map_values(projectile_id()).to_set().union(rest));
    assert forall|i: int, j: int|
        0 <= i < after.units.len() && 0 <= j < after.projectiles.len() implies (
    #[trigger] after.units[i]).entity != (#[trigger] after.projectiles[j]).entity by {
        let e = after.projectiles[j].entity;
        assert(kept.map_values(projectile_id())[j] == e);
        assert(kept.map_values(projectile_id()).to_set().contains(e));
        lemma_id_member(w.projectiles, projectile_id(), e);
        let k = choose|k: int|
            0 <= k < w.projectiles.len() && projectile_id()(#[trigger] w.projectiles[k]) == e;
        assert(w.units[i].entity != w.projectiles[k].entity);
    }
    assert forall|j: int| 0 <= j < after.projectiles.len() implies (
    #[trigger] after.projectiles[j]).entity < after.next_entity by {
        let e = after.projectiles[j].entity;
        assert(kept.map_values(projectile_id())[j] == e);
        assert(kept.map_values(projectile_id()).to_set().contains(e));
        lemma_id_member(w.projectiles, projectile_id(), e);
        let k = choose|k: int|
            0 <= k < w.projectiles.len() && projectile_id()(#[trigger] w.projectiles[k]) == e;
        assert(w.projectiles[k].entity < w.next_entity);
    }
    assert forall|i: int| 0 <= i < after.units.len() implies (#[trigger] after.units[i]).entity
        < after.next_entity by {
        assert(after.units[i].entity == w.units[i].entity);
    }
}

/// The health check is told truly by its notices.
pub proof fn lemma_health_check_replays(w: WorldView)
    requires
        w.wf(),
    ensures
        w.after_health_check().wf(),
        w.ledger().replay(w.death_notices()) == Some(w.after_health_check().ledger()),
{
    let after = w.after_health_check();
    let kept = w.units.filter(is_alive());
    let rest = projectile_ids(w.projectiles).to_set();
    assert(w.ledger().live =~= unit_ids(w.units).to_set().union(rest));
    assert forall|i: int| 0 <= i < w.units.len() implies !rest.contains(
        unit_id()(#[trigger] w.units[i]),
    ) by {
        lemma_id_member(w.projectiles, projectile_id(), w.units[i].entity);
    }
    lemma_cull(w.ledger(), w.units, is_dead(), is_alive(), unit_id(), despawn_notice(), rest);
    assert forall|i: int, j: int|
        0 <= i < after.units.len() && 0 <= j < after.projectiles.len() implies (
    #[trigger] after.units[i]).entity != (#[trigger] after.projectiles[j]).entity by {
        let e = after.units[i].entity;
        assert(kept.map_values(unit_id())[i] == e);
        assert(kept.map_values(unit_id()).to_set().contains(e));
        lemma_id_member(w.units, unit_id(), e);
        let k = choose|k: int| 0 <= k < w.units.len() && unit_id()(#[trigger] w.units[k]) == e;
        assert(w.units[k].entity != w.projectiles[j].entity);
    }
    assert forall|i: int| 0 <= i < after.units.len() implies (#[trigger] after.units[i]).entity
        < after.next_entity by {
        let e = after.units[i].entity;
        assert(kept.map_values(unit_id())[i] == e);
        assert(kept.map_values(unit_id()).to_set().contains(e));
        lemma_id_member(w.units, unit_id(), e);
        let k = choose|k: int| 0 <= k < w.units.len() && unit_id()(#[trigger] w.units[k]) == e;
        assert(w.units[k].entity < w.next_entity);
    }
}

/// A tick is told truly by its notices: a reader who knew what was on the
/// arena before the tick knows what is on it after the tick. Every entity
/// that the tick removes gets its despawn notice, and gets one only.
pub proof fn lemma_tick_replays(w: WorldView, delta: u64)
    requires
        w.wf(),
    ensures
        w.tick(delta).wf(),
        w.ledger().replay(w.tick_notices(delta)) == Some(w.tick(delta).ledger()),
{
    let a = w.after_attacks(delta);
    let b = a.after_unit_states();
    let c = b.after_giants(delta);
    let d = c.after_stuns(delta);
    let e = d.after_movements(delta);
    let f = e.after_projectiles(delta);
    lemma_attacks_replay(w, delta);
    lemma_unit_states_evolve(a);
    lemma_quiet_system(a, b);
    lemma_giants_evolve(b, delta);
    lemma_quiet_system(b, c);
    lemma_stuns_evolve(c, delta);
    lemma_quiet_system(c, d);
    lemma_movements_evolve(d, delta);
    lemma_quiet_system(d, e);
    lemma_projectiles_replay(e, delta);
    lemma_health_check_replays(f);
    lemma_replay_concat(w.ledger(), w.attack_notices(delta), e.spent_notices(delta));
    lemma_replay_concat(
        w.ledger(),
        w.attack_notices(delta) + e.spent_notices(delta),
        f.death_notices(),
    );
}

/// Spawning projectiles leaves the projectiles that were there where they
/// were, and every projectile that it adds has an identifier that was not
/// handed out before.
pub proof fn lemma_fire_adds_behind(w: WorldView, shots: Seq<Shot>)
    ensures
        w.projectiles.len() <= w.fire(shots).projectiles.len(),
        w.next_entity <= w.fire(shots).next_entity,
        forall|k: int|
            0 <= k < w.projectiles.len() ==> #[trigger] w.fire(shots).projectiles[k]
                == w.projectiles[k],
        forall|k: int|
            w.projectiles.len() <= k < w.fire(shots).projectiles.len() ==> (#[trigger] w.fire(
                shots,
            ).projectiles[k]).entity >= w.next_entity,
    decreases shots.len(),
{
    if shots.len() > 0 {
        lemma_fire_adds_behind(w, shots.drop_last());
    }
}

/// The projectiles just before they fly in a tick: those that were there,
/// where they were, and behind them those that the tick's attacks spawned.
pub proof fn lemma_projectiles_before_flight(w: WorldView, delta: u64)
    ensures
        w.projectiles.len() <= w.before_projectiles(delta).projectiles.len(),
        forall|k: int|
            0 <= k < w.projectiles.len() ==> #[trigger] w.before_projectiles(
                delta,
            ).projectiles[k] == w.projectiles[k],
        forall|k: int|
            w.projectiles.len() <= k < w.before_projectiles(delta).projectiles.len() ==> (
            #[trigger] w.before_projectiles(delta).projectiles[k]).entity >= w.next_entity,
{
    let shots = shots_upto(w.units, delta, w.units.len() as int);
    let struck = WorldView { units: units_after_attacks(w.units, delta), ..w };
    lemma_fire_adds_behind(struck, shots);
}

/// A projectile's target, once locked at its spawn, is never changed: every
/// projectile that is on the arena after a tick either was on it before the
/// tick, with the same target, or was spawned in this tick.
pub proof fn lemma_tick_keeps_targets(w: WorldView, delta: u64, i: int)
    requires
        0 <= i < w.tick(delta).projectiles.len(),
    ensures
        w.tick(delta).projectiles[i].entity >= w.next_entity || exists|k: int|
            0 <= k < w.projectiles.len() && same_lock(
                #[trigger] w.projectiles[k],
                w.tick(delta).projectiles[i],
            ),
{
    let e = w.before_projectiles(delta);
    lemma_flight_keeps_target(e, delta, i);
    lemma_projectiles_before_flight(w, delta);
    let k = choose|k: int|
        0 <= k < e.projectiles.len() && same_lock(
            #[trigger] e.projectiles[k],
            e.after_projectiles(delta).projectiles[i],
        );
    if k < w.projectiles.len() {
        assert(same_lock(w.projectiles[k], w.tick(delta).projectiles[i]));
    }
}

/// A projectile that goes off, or whose target is gone, is gone after the
/// projectiles' flight, and the flight sends exactly one despawn notice for
/// it.
pub proof fn lemma_spent_projectile_ends(w: WorldView, delta: u64, k: int)
    requires
        w.wf(),
        0 <= k < w.projectiles.len(),
        is_spent(w.units, delta)(w.projectiles[k]),
    ensures
        forall|i: int|
            0 <= i < w.after_projectiles(delta).projectiles.len() ==> (
            #[trigger] w.after_projectiles(delta).projectiles[i]).entity
                != w.projectiles[k].entity,
        exists|j: int|
            0 <= j < w.spent_notices(delta).len() && #[trigger] w.spent_notices(delta)[j]
                == ServerMessage::Despawn(w.projectiles[k].entity) && forall|n: int|
                0 <= n < w.spent_notices(delta).len() && #[trigger] w.spent_notices(delta)[n]
                    == ServerMessage::Despawn(w.projectiles[k].entity) ==> n == j,
{
    let p = w.projectiles[k];
    let f = w.after_projectiles(delta);
    let notices = w.spent_notices(delta);
    let gone = ServerMessage::Despawn(p.entity);
    assert forall|i: int| 0 <= i < f.projectiles.len() implies (#[trigger] f.projectiles[i]).entity
        != p.entity by {
        lemma_flight_keeps_target(w, delta, i);
        let m = choose|m: int|
            0 <= m < w.projectiles.len() && flies_on(w.units, delta)(w.projectiles[m])
                && f.projectiles[i] == crate::server::projectiles::flown(
                #[trigger] w.projectiles[m],
                w.units,
                delta,
            ) && same_lock(w.projectiles[m], f.projectiles[i]);
        if f.projectiles[i].entity == p.entity {
            assert(projectile_ids(w.projectiles)[m] == projectile_ids(w.projectiles)[k]);
        }
    }
    let spent = w.projectiles.filter(is_spent(w.units, delta));
    w.projectiles.lemma_filter_contains(is_spent(w.units, delta), k);
    let j = choose|j: int| 0 <= j < spent.len() && spent[j] == p;
    assert(notices[j] == gone);
    lemma_projectiles_replay(w, delta);
    assert(w.ledger().is_sound()) by {
        assert forall|x: u64| w.ledger().live.contains(x) implies x < w.ledger().next by {
            lemma_id_member(w.units, unit_id(), x);
            lemma_id_member(w.projectiles, projectile_id(), x);
        }
    }
    lemma_replay_accounts(w.ledger(), notices);
    assert forall|n: int| 0 <= n < notices.len() && #[trigger] notices[n] == gone implies n == j by {
        assert(despawned_id(notices[n]) == Some(p.entity));
        assert(despawned_id(notices[j]) == Some(p.entity));
    }
}

/// A projectile that flies on gets no despawn notice.
pub proof fn lemma_flying_projectile_gets_no_notice(w: WorldView, delta: u64, k: int)
    requires
        w.wf(),
        0 <= k < w.projectiles.len(),
        flies_on(w.units, delta)(w.projectiles[k]),
    ensures
        forall|n: int|
            0 <= n < w.spent_notices(delta).len() ==> #[trigger] w.spent_notices(delta)[n]
                != ServerMessage::Despawn(w.projectiles[k].entity),
{
    let spent = w.projectiles.filter(is_spent(w.units, delta));
    assert forall|n: int| 0 <= n < w.spent_notices(delta).len() implies #[trigger] w.spent_notices(
        delta,
    )[n] != ServerMessage::Despawn(w.projectiles[k].entity) by {
        w.projectiles.lemma_filter_pred(is_spent(w.units, delta), n);
        assert(spent.contains(spent[n]));
        w.projectiles.lemma_filter_contains_rev(is_spent(w.units, delta), spent[n]);
        let m = choose|m: int| 0 <= m < w.projectiles.len() && w.projectiles[m] == spent[n];
        if spent[n].entity == w.projectiles[k].entity {
            assert(projectile_ids(w.projectiles)[m] == projectile_ids(w.projectiles)[k]);
        }
    }
}

/// A projectile whose target is no longer on the arena is gone after the
/// next tick, and the tick sends exactly one despawn notice for it.
pub proof fn lemma_lost_target_ends_projectile(w: WorldView, delta: u64, k: int)
    requires
        w.wf(),
        0 <= k < w.projectiles.len(),
        !present(w.units, w.projectiles[k].target),
    ensures
        forall|i: int|
            0 <= i < w.tick(delta).projectiles.len() ==> (#[trigger] w.tick(
                delta,
            ).projectiles[i]).entity != w.projectiles[k].entity,
        exists|j: int|
            0 <= j < w.tick_notices(delta).len() && #[trigger] w.tick_notices(delta)[j]
                == ServerMessage::Despawn(w.projectiles[k].entity) && forall|n: int|
                0 <= n < w.tick_notices(delta).len() && #[trigger] w.tick_notices(delta)[n]
                    == ServerMessage::Despawn(w.projectiles[k].entity) ==> n == j,
{
    let p = w.projectiles[k];
    let e = w.before_projectiles(delta);
    let f = e.after_projectiles(delta);
    let notices = w.tick_notices(delta);
    let gone = ServerMessage::Despawn(p.entity);
    lemma_projectiles_before_flight(w, delta);
    lemma_systems_evolve(w, delta);
    assert(e.projectiles[k] == p);
    // the tick's attacks and quiet systems keep the arena well formed
    let a = w.after_attacks(delta);
    let b = a.after_unit_states();
    let c = b.after_giants(delta);
    let d = c.after_stuns(delta);
    lemma_attacks_replay(w, delta);
    lemma_unit_states_evolve(a);
    lemma_quiet_system(a, b);
    lemma_giants_evolve(b, delta);
    lemma_quiet_system(b, c);
    lemma_stuns_evolve(c, delta);
    lemma_quiet_system(c, d);
    lemma_movements_evolve(d, delta);
    lemma_quiet_system(d, e);
    // the target is still missing when the projectiles fly
    assert forall|j: int| 0 <= j < e.units.len() implies has_id(p.target)(#[trigger] e.units[j])
        == has_id(p.target)(w.units[j]) by {}
    lemma_first_agree(e.units, has_id(p.target), w.units, has_id(p.target));
    assert(is_spent(e.units, delta)(p));
    // so the projectile does not fly on
    assert forall|i: int| 0 <= i < w.tick(delta).projectiles.len() implies (#[trigger] w.tick(
        delta,
    ).projectiles[i]).entity != p.entity by {
        lemma_flight_keeps_target(e, delta, i);
        let m = choose|m: int|
            0 <= m < e.projectiles.len() && flies_on(e.units, delta)(e.projectiles[m])
                && f.projectiles[i] == crate::server::projectiles::flown(
                #[trigger] e.projectiles[m],
                e.units,
                delta,
            ) && same_lock(e.projectiles[m], f.projectiles[i]);
        if f.projectiles[i].entity == p.entity {
            assert(projectile_ids(e.projectiles)[m] == projectile_ids(e.projectiles)[k]);
        }
    }
    // and its despawn notice is among the tick's notices
    let spent = e.projectiles.filter(is_spent(e.units, delta));
    e.projectiles.lemma_filter_contains(is_spent(e.units, delta), k);
    let s = choose|s: int| 0 <= s < spent.len() && spent[s] == p;
    let j = w.attack_notices(delta).len() + s;
    assert(e.spent_notices(delta)[s] == gone);
    assert(notices[j] == gone);
    // once only
    lemma_tick_replays(w, delta);
    assert(w.ledger().is_sound()) by {
        assert forall|x: u64| w.ledger().live.contains(x) implies x < w.ledger().next by {
            lemma_id_member(w.units, unit_id(), x);
            lemma_id_member(w.projectiles, projectile_id(), x);
        }
    }
    lemma_replay_accounts(w.ledger(), notices);
    assert forall|n: int| 0 <= n < notices.len() && #[trigger] notices[n] == gone implies n == j by {
        assert(despawned_id(notices[n]) == Some(p.entity));
        assert(despawned_id(notices[j]) == Some(p.entity));
    }
}

} // verus!
