//! Projectiles in flight: each flies toward the unit it is locked onto, goes
//! off once when it gets there, and is gone.

use vstd::prelude::*;
use crate::common::{Projectile, ServerMessage};
use crate::geometry::{spec_step_toward, spec_within, step_toward};
use crate::seq_search::{count_upto, lemma_sum_upto_single, lemma_sum_upto_uniform, sum_upto};
use crate::server::ai::lemma_damage_adds;
use crate::server::units::{UnitRecord, UnitType};
use crate::server::world::{find_unit, lookup, ProjectileRecord, World, WorldView};

verus! {

/// How near the centre of `u` the projectile `p` has to be to touch it: the
/// projectile's radius and the unit's hitbox together.
pub open spec fn reach(p: ProjectileRecord, u: UnitRecord) -> nat {
    (p.radius + u.hitbox.0) as nat
}

/// The projectile after one tick of flight toward where its target stands
/// now. Its target and everything else but its position stay as they are.
pub open spec fn flown(p: ProjectileRecord, units: Seq<UnitRecord>, delta: u64) -> ProjectileRecord {
    match lookup(units, p.target) {
        Some(j) => ProjectileRecord {
            pos: spec_step_toward(p.pos, units[j].pos, p.speed, delta),
            ..p
        },
        None => p,
    }
}

/// Whether the projectile reaches its target in this tick.
pub open spec fn impacts(p: ProjectileRecord, units: Seq<UnitRecord>, delta: u64) -> bool {
    lookup(units, p.target) matches Some(j) && spec_within(
        flown(p, units, delta).pos,
        units[j].pos,
        reach(p, units[j]),
    )
}

/// The test "is gone after this tick": its target is no longer on the arena,
/// or it reaches its target.
pub open spec fn is_spent(units: Seq<UnitRecord>, delta: u64) -> spec_fn(ProjectileRecord) -> bool {
    |p: ProjectileRecord| lookup(units, p.target) is None || impacts(p, units, delta)
}

/// The test "flies on after this tick".
pub open spec fn flies_on(units: Seq<UnitRecord>, delta: u64) -> spec_fn(ProjectileRecord) -> bool {
    |p: ProjectileRecord| !is_spent(units, delta)(p)
}

/// One tick of flight, as a function of the projectile.
pub open spec fn flight(units: Seq<UnitRecord>, delta: u64) -> spec_fn(
    ProjectileRecord,
) -> ProjectileRecord {
    |p: ProjectileRecord| flown(p, units, delta)
}

/// The notice that tells clients to remove a projectile.
pub open spec fn projectile_gone() -> spec_fn(ProjectileRecord) -> ServerMessage {
    |p: ProjectileRecord| ServerMessage::Despawn(p.entity)
}

/// The damage that the projectile does in this tick to the unit at position
/// `j`. A projectile that does not reach its target does none. A bullet
/// damages its target and nothing else. A fireball or a bomb damages every
/// ground unit that it touches where it goes off, whoever owns it, and no
/// flying unit.
pub open spec fn hit_on(p: ProjectileRecord, units: Seq<UnitRecord>, delta: u64, j: int) -> nat {
    if !impacts(p, units, delta) {
        0
    } else if p.kind.spec_is_area() {
        if units[j].unit_type == UnitType::Ground && spec_within(
            flown(p, units, delta).pos,
            units[j].pos,
            reach(p, units[j]),
        ) {
            p.kind.spec_damage() as nat
        } else {
            0
        }
    } else if lookup(units, p.target) == Some(j) {
        p.kind.spec_damage() as nat
    } else {
        0
    }
}

/// For each position `k`, the damage that the projectile at `k` does in this
/// tick to the unit at `victim`.
pub open spec fn hits_on(
    projectiles: Seq<ProjectileRecord>,
    units: Seq<UnitRecord>,
    delta: u64,
    victim: int,
) -> spec_fn(int) -> nat {
    |k: int| hit_on(projectiles[k], units, delta, victim)
}

/// The units after every projectile had its tick: each with its health
/// lowered by all the damage that projectiles did to it.
pub open spec fn units_after_projectiles(
    units: Seq<UnitRecord>,
    projectiles: Seq<ProjectileRecord>,
    delta: u64,
) -> Seq<UnitRecord> {
    Seq::new(
        units.len(),
        |j: int|
            UnitRecord {
                health: units[j].health.after_damage(
                    sum_upto(hits_on(projectiles, units, delta, j), projectiles.len() as int),
                ),
                ..units[j]
            },
    )
}

/// Does the damage of a projectile that goes off. `units` is the arena that
/// the projectile flew in, `out` the same units with the damage done so far.
fn go_off(out: &mut Vec<UnitRecord>, units: &Vec<UnitRecord>, p: ProjectileRecord, delta: u64)
    requires
        old(out)@.len() == units@.len(),
        impacts(p, units@, delta),
    ensures
        final(out)@.len() == units@.len(),
        forall|j: int|
            0 <= j < units@.len() ==> (#[trigger] final(out)@[j]) == (UnitRecord {
                health: old(out)@[j].health.after_damage(hit_on(p, units@, delta, j)),
                ..old(out)@[j]
            }),
{
    let ghost before = out@;
    let t = match find_unit(units, p.target) {
        Some(t) => t,
        None => {
            return ;
        },
    };
    let point = step_toward(p.pos, units[t].pos, p.speed, delta);
    let damage = p.kind.damage();
    if !p.kind.is_area() {
        let mut u = out[t];
        u.health.damage(damage);
        out.set(t, u);
        return ;
    }
    let mut j: usize = 0;
    while j < units.len()
        invariant
            j <= units.len(),
            out@.len() == units@.len(),
            before.len() == units@.len(),
            impacts(p, units@, delta),
            p.kind.spec_is_area(),
            damage == p.kind.spec_damage(),
            point == flown(p, units@, delta).pos,
            forall|i: int|
                0 <= i < j ==> (#[trigger] out@[i]) == (UnitRecord {
                    health: before[i].health.after_damage(hit_on(p, units@, delta, i)),
                    ..before[i]
                }),
            forall|i: int| j <= i < units@.len() ==> (#[trigger] out@[i]) == before[i],
        decreases units.len() - j,
    {
        let u = units[j];
        let touched = match u.unit_type {
            UnitType::Ground => point.within(&u.pos, p.radius as u64 + u.hitbox.0 as u64),
            UnitType::Air => false,
        };
        if touched {
            let mut v = out[j];
            v.health.damage(damage);
            out.set(j, v);
        }
        j += 1;
    }
}

/// A copy of `units`.
fn copy_units(units: &Vec<UnitRecord>) -> (out: Vec<UnitRecord>)
    ensures
        out@ == units@,
{
    let mut out: Vec<UnitRecord> = Vec::new();
    let mut i: usize = 0;
    while i < units.len()
        invariant
            i <= units.len(),
            out@ == units@.take(i as int),
        decreases units.len() - i,
    {
        out.push(units[i]);
        assert(units@.take(i as int + 1) == units@.take(i as int).push(units@[i as int]));
        i += 1;
    }
    assert(units@.take(units@.len() as int) == units@);
    out
}

impl WorldView {
    /// The arena after every projectile had its tick.
    pub open spec fn after_projectiles(self, delta: u64) -> WorldView {
        WorldView {
            units: units_after_projectiles(self.units, self.projectiles, delta),
            projectiles: self.projectiles.filter(flies_on(self.units, delta)).map_values(
                flight(self.units, delta),
            ),
            next_entity: self.next_entity,
        }
    }

    /// The despawn notices of the projectiles that are gone after their
    /// tick.
    pub open spec fn spent_notices(self, delta: u64) -> Seq<ServerMessage> {
        self.projectiles.filter(is_spent(self.units, delta)).map_values(projectile_gone())
    }
}

/// `after` is the projectile `before` a while later: the same entity, of
/// the same kind, shot by the same attacker and locked onto the same target.
pub open spec fn same_lock(before: ProjectileRecord, after: ProjectileRecord) -> bool {
    &&& after.entity == before.entity
    &&& after.kind == before.kind
    &&& after.attacker == before.attacker
    &&& after.target == before.target
}

/// No projectile changes its target in flight: every projectile that flies
/// on after its tick is one that flew before, moved and otherwise as it was.
pub proof fn lemma_flight_keeps_target(w: WorldView, delta: u64, i: int)
    requires
        0 <= i < w.after_projectiles(delta).projectiles.len(),
    ensures
        exists|k: int|
            0 <= k < w.projectiles.len() && flies_on(w.units, delta)(w.projectiles[k])
                && w.after_projectiles(delta).projectiles[i] == flown(
                #[trigger] w.projectiles[k],
                w.units,
                delta,
            ) && same_lock(w.projectiles[k], w.after_projectiles(delta).projectiles[i]),
{
    let kept = w.projectiles.filter(flies_on(w.units, delta));
    let p = kept[i];
    w.projectiles.lemma_filter_pred(flies_on(w.units, delta), i);
    assert(kept.contains(p));
    w.projectiles.lemma_filter_contains_rev(flies_on(w.units, delta), p);
    let k = choose|k: int| 0 <= k < w.projectiles.len() && w.projectiles[k] == p;
    assert(w.after_projectiles(delta).projectiles[i] == flown(w.projectiles[k], w.units, delta));
}

/// A projectile that does not reach its target flies on: it is on the arena
/// after its tick, moved and otherwise as it was, and it has damaged nobody.
pub proof fn lemma_flying_projectile_stays(w: WorldView, delta: u64, k: int)
    requires
        0 <= k < w.projectiles.len(),
        flies_on(w.units, delta)(w.projectiles[k]),
    ensures
        w.after_projectiles(delta).projectiles.contains(flown(w.projectiles[k], w.units, delta)),
        same_lock(w.projectiles[k], flown(w.projectiles[k], w.units, delta)),
        forall|j: int| 0 <= j < w.units.len() ==> hit_on(w.projectiles[k], w.units, delta, j) == 0,
{
    let p = w.projectiles[k];
    let kept = w.projectiles.filter(flies_on(w.units, delta));
    w.projectiles.lemma_filter_contains(flies_on(w.units, delta), k);
    let i = choose|i: int| 0 <= i < kept.len() && kept[i] == p;
    assert(w.after_projectiles(delta).projectiles[i] == flown(p, w.units, delta));
}

/// The test "goes off in this tick and touches the unit at position `j`".
pub open spec fn hits(
    projectiles: Seq<ProjectileRecord>,
    units: Seq<UnitRecord>,
    delta: u64,
    j: int,
) -> spec_fn(int) -> bool {
    |k: int| hit_on(projectiles[k], units, delta, j) > 0
}

/// A projectile that goes off alone does its damage and no other: a bullet
/// takes 50 from its target and nothing from anybody else; a fireball or a
/// bomb takes its damage from every ground unit that it touches.
pub proof fn lemma_one_impact(
    units: Seq<UnitRecord>,
    projectiles: Seq<ProjectileRecord>,
    delta: u64,
    k: int,
)
    requires
        0 <= k < projectiles.len(),
        forall|n: int|
            0 <= n < projectiles.len() && n != k ==> !impacts(
                #[trigger] projectiles[n],
                units,
                delta,
            ),
    ensures
        forall|j: int|
            0 <= j < units.len() ==> (#[trigger] units_after_projectiles(
                units,
                projectiles,
                delta,
            )[j]).health == units[j].health.after_damage(hit_on(projectiles[k], units, delta, j)),
        impacts(projectiles[k], units, delta) && projectiles[k].kind == Projectile::Bullet
            ==> forall|j: int|
            0 <= j < units.len() ==> #[trigger] hit_on(projectiles[k], units, delta, j) == (
            if lookup(units, projectiles[k].target) == Some(j) {
                50nat
            } else {
                0nat
            }),
{
    assert forall|j: int| 0 <= j < units.len() implies (#[trigger] units_after_projectiles(
        units,
        projectiles,
        delta,
    )[j]).health == units[j].health.after_damage(hit_on(projectiles[k], units, delta, j)) by {
        let f = hits_on(projectiles, units, delta, j);
        assert forall|n: int| 0 <= n < projectiles.len() && n != k implies #[trigger] f(n) == 0 by {
            assert(!impacts(projectiles[n], units, delta));
        }
        lemma_sum_upto_single(f, projectiles.len() as int, k);
    }
}

/// With projectiles of one kind in flight, a unit loses that kind's damage
/// once for each projectile that goes off and touches it, stopping at zero:
/// 140 for each fireball, 88 for each bomb, 50 for each bullet.
pub proof fn lemma_impacts_add_up(
    units: Seq<UnitRecord>,
    projectiles: Seq<ProjectileRecord>,
    delta: u64,
    kind: Projectile,
    j: int,
)
    requires
        0 <= j < units.len(),
        forall|k: int| 0 <= k < projectiles.len() ==> (#[trigger] projectiles[k]).kind == kind,
    ensures
        units_after_projectiles(units, projectiles, delta)[j].health
            == units[j].health.after_damage(
            kind.spec_damage() as nat * count_upto(
                hits(projectiles, units, delta, j),
                projectiles.len() as int,
            ),
        ),
{
    let f = hits_on(projectiles, units, delta, j);
    let p = hits(projectiles, units, delta, j);
    assert forall|k: int| 0 <= k < projectiles.len() implies #[trigger] f(k) == (if p(k) {
        kind.spec_damage() as nat
    } else {
        0nat
    }) by {
        assert(projectiles[k].kind == kind);
    }
    lemma_sum_upto_uniform(f, p, kind.spec_damage() as nat, projectiles.len() as int);
}

impl World {
    /// Gives every projectile its tick of `delta` microseconds. A projectile
    /// whose target is no longer on the arena is removed. Any other flies
    /// toward where its target stands now; if that brings it there, it does
    /// its damage and is removed. One despawn notice is returned for each
    /// projectile removed, in order. No projectile changes its target.
    pub fn update_projectiles(&mut self, delta: u64) -> (msgs: Vec<ServerMessage>)
        ensures
            final(self)@ == old(self)@.after_projectiles(delta),
            msgs@ == old(self)@.spent_notices(delta),
    {
        let ghost units = self.units@;
        let ghost projectiles = self.projectiles@;
        let mut out = copy_units(&self.units);
        let mut kept: Vec<ProjectileRecord> = Vec::new();
        let mut msgs: Vec<ServerMessage> = Vec::new();
        let mut k: usize = 0;
        assert(projectiles.take(0) == Seq::<ProjectileRecord>::empty());
        while k < self.projectiles.len()
            invariant
                k <= self.projectiles.len(),
                *self == *old(self),
                units == self.units@,
                projectiles == self.projectiles@,
                out@.len() == units.len(),
                forall|j: int|
                    0 <= j < units.len() ==> (#[trigger] out@[j]) == (UnitRecord {
                        health: units[j].health.after_damage(
                            sum_upto(hits_on(projectiles, units, delta, j), k as int),
                        ),
                        ..units[j]
                    }),
                kept@ == projectiles.take(k as int).filter(flies_on(units, delta)).map_values(
                    flight(units, delta),
                ),
                msgs@ == projectiles.take(k as int).filter(is_spent(units, delta)).map_values(
                    projectile_gone(),
                ),
            decreases self.projectiles.len() - k,
        {
            let p = self.projectiles[k];
            proof {
                let prefix = projectiles.take(k as int);
                assert(projectiles.take(k as int + 1) == prefix.push(p));
                Seq::lemma_filter_push(prefix, p, flies_on(units, delta));
                Seq::lemma_filter_push(prefix, p, is_spent(units, delta));
                prefix.filter(is_spent(units, delta)).lemma_push_map_commute(projectile_gone(), p);
                prefix.filter(flies_on(units, delta)).lemma_push_map_commute(
                    flight(units, delta),
                    p,
                );
                assert forall|j: int| 0 <= j < units.len() implies sum_upto(
                    hits_on(projectiles, units, delta, j),
                    k as int + 1,
                ) == sum_upto(hits_on(projectiles, units, delta, j), k as int) + hit_on(
                    p,
                    units,
                    delta,
                    j,
                ) by {
                    assert(hits_on(projectiles, units, delta, j)(k as int) == hit_on(
                        p,
                        units,
                        delta,
                        j,
                    ));
                }
                assert forall|j: int| 0 <= j < units.len() implies units[j].health.after_damage(
                    sum_upto(hits_on(projectiles, units, delta, j), k as int),
                ).after_damage(hit_on(p, units, delta, j)) == units[j].health.after_damage(
                    sum_upto(hits_on(projectiles, units, delta, j), k as int + 1),
                ) by {
                    lemma_damage_adds(
                        units[j].health,
                        sum_upto(hits_on(projectiles, units, delta, j), k as int),
                        hit_on(p, units, delta, j),
                    );
                }
            }
            match find_unit(&self.units, p.target) {
                None => {
                    msgs.push(ServerMessage::Despawn(p.entity));
                },
                Some(t) => {
                    let target = self.units[t];
                    let q = ProjectileRecord {
                        pos: step_toward(p.pos, target.pos, p.speed, delta),
                        ..p
                    };
                    if q.pos.within(&target.pos, p.radius as u64 + target.hitbox.0 as u64) {
                        go_off(&mut out, &self.units, p, delta);
                        msgs.push(ServerMessage::Despawn(p.entity));
                    } else {
                        kept.push(q);
                    }
                },
            }
            k += 1;
        }
        proof {
            assert(projectiles.take(projectiles.len() as int) == projectiles);
            assert(out@ == units_after_projectiles(units, projectiles, delta));
        }
        self.units = out;
        self.projectiles = kept;
        msgs
    }
}

} // verus!
