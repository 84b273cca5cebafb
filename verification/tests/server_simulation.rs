use boyar_tournament::common::{
    Direction, Health, PlayerNumber, Projectile, ProjectileSync, ServerMessage, Unit, UnitState,
    UnitSync,
};
use boyar_tournament::geometry::{ArenaPos, UNIT};
use boyar_tournament::server::ai::{
    find_nearest_tower, next_state, Attack, AttackTargetType, AttackType, Movement, StunnedTimer,
};
use boyar_tournament::server::units::{UnitRecord, UnitType};
use boyar_tournament::server::world::{find_unit, World};
use boyar_tournament::timer::{Timer, TimerMode};

/// One tick of a simulation that runs 64 times a second.
const DT: u64 = 15_625;

fn at(x: f64, y: f64) -> ArenaPos {
    ArenaPos((x * UNIT as f64).round() as i32, (y * UNIT as f64).round() as i32)
}

/// Spawns a unit that is past its stun.
fn awake(w: &mut World, kind: Unit, pos: ArenaPos, owner: PlayerNumber) -> u64 {
    let id = w.next_entity;
    assert!(w.spawn_unit(kind, pos, owner).is_some());
    let last = w.units.len() - 1;
    w.units[last].stun = None;
    id
}

fn unit(w: &World, id: u64) -> UnitRecord {
    w.units[find_unit(&w.units, id).expect("the unit is on the arena")]
}

#[test]
fn every_kind_is_spawned_with_its_numbers() {
    let p = at(1.0, 2.0);
    let one = PlayerNumber::One;

    let r = Unit::ArcherTower.record(7, p, one);
    assert_eq!(r.entity, 7);
    assert_eq!(r.pos, p);
    assert_eq!(r.owner, one);
    assert_eq!(r.health, Health(1400, 1400));
    assert_eq!(r.state, UnitState::Idle);
    assert_eq!(r.unit_type, UnitType::Ground);
    assert_eq!(r.hitbox.0, 1_500_000);
    assert_eq!(
        r.attack,
        Some(Attack::new(
            AttackType::Ranged(Projectile::Bullet),
            AttackTargetType::All,
            750_000,
            8_500_000
        ))
    );
    assert_eq!(r.movement, None);
    assert_eq!(r.aggro_radius, None);
    assert_eq!(r.stun, None);
    assert_eq!(r.giant, None);

    let r = Unit::KingTower.record(0, p, one);
    assert_eq!(r.health, Health(2400, 2400));
    assert_eq!(r.hitbox.0, 2_000_000);
    assert_eq!(
        r.attack,
        Some(Attack::new(
            AttackType::Ranged(Projectile::Fireball),
            AttackTargetType::All,
            1_000_000,
            6_000_000
        ))
    );
    assert_eq!(r.movement, None);
    assert_eq!(r.state, UnitState::Idle);

    let r = Unit::Rus.record(0, p, one);
    assert_eq!(r.health, Health(690, 690));
    assert_eq!(
        r.attack,
        Some(Attack::new(AttackType::Melee(80), AttackTargetType::Ground, 800_000, 2_000_000))
    );
    assert_eq!(r.movement, Some(Movement::new(2_000_000)));
    assert_eq!(r.aggro_radius.map(|a| a.0), Some(5_000_000));
    assert_eq!(r.hitbox.0, 500_000);
    assert_eq!(r.state, UnitState::Moving);
    assert_eq!(r.stun, Some(StunnedTimer::default()));

    let r = Unit::Musketeer.record(0, p, one);
    assert_eq!(r.health, Health(340, 340));
    assert_eq!(
        r.attack,
        Some(Attack::new(
            AttackType::Ranged(Projectile::Bullet),
            AttackTargetType::All,
            750_000,
            6_000_000
        ))
    );
    assert_eq!(r.movement, Some(Movement::new(2_000_000)));
    assert_eq!(r.aggro_radius.map(|a| a.0), Some(7_000_000));

    let r = Unit::Bat.record(0, p, one);
    assert_eq!(r.health, Health(90, 90));
    assert_eq!(r.unit_type, UnitType::Air);
    assert_eq!(
        r.attack,
        Some(Attack::new(AttackType::Melee(80), AttackTargetType::All, 1_000_000, 2_000_000))
    );
    assert_eq!(r.movement, Some(Movement::new(3_000_000)));
    assert_eq!(r.aggro_radius.map(|a| a.0), Some(5_000_000));

    let r = Unit::Priest.record(0, p, one);
    assert_eq!(r.health, Health(400, 400));
    assert_eq!(
        r.attack,
        Some(Attack::new(
            AttackType::Ranged(Projectile::Fireball),
            AttackTargetType::All,
            750_000,
            6_000_000
        ))
    );
    assert_eq!(r.aggro_radius.map(|a| a.0), Some(7_000_000));

    let r = Unit::Bomber.record(0, p, one);
    assert_eq!(r.health, Health(230, 230));
    assert_eq!(
        r.attack,
        Some(Attack::new(
            AttackType::Ranged(Projectile::Bomb),
            AttackTargetType::Ground,
            700_000,
            4_500_000
        ))
    );
    assert_eq!(r.aggro_radius.map(|a| a.0), Some(5_500_000));

    let r = Unit::Giant.record(0, p, one);
    assert_eq!(r.health, Health(800, 800));
    assert_eq!(r.attack, None);
    assert_eq!(r.aggro_radius, None);
    assert_eq!(r.movement, Some(Movement::new(1_500_000)));
    assert_eq!(r.hitbox.0, 1_000_000);
    assert_eq!(r.state, UnitState::Moving);
    let g = r.giant.expect("a giant has its giant part");
    assert_eq!(g.target, None);
    assert_eq!(g.attack_range, 2_000_000);
    assert_eq!(g.damage, 120);
    assert_eq!(g.cooldown, Timer::new(1_500_000, TimerMode::Repeating));
}

#[test]
fn projectile_numbers() {
    assert_eq!(Projectile::Bullet.speed(), 40_000_000);
    assert_eq!(Projectile::Bullet.radius(), 200_000);
    assert_eq!(Projectile::Bullet.damage(), 50);
    assert!(!Projectile::Bullet.is_area());
    assert_eq!(Projectile::Fireball.speed(), 10_000_000);
    assert_eq!(Projectile::Fireball.radius(), 1_000_000);
    assert_eq!(Projectile::Fireball.damage(), 140);
    assert!(Projectile::Fireball.is_area());
    assert_eq!(Projectile::Bomb.speed(), 15_000_000);
    assert_eq!(Projectile::Bomb.radius(), 1_000_000);
    assert_eq!(Projectile::Bomb.damage(), 88);
    assert!(Projectile::Bomb.is_area());
}

#[test]
fn spawns_get_rising_identifiers_and_notices() {
    let mut w = World::new();
    let m = w.spawn_unit(Unit::Rus, at(1.0, 1.0), PlayerNumber::Two);
    assert_eq!(
        m,
        Some(ServerMessage::SpawnUnit {
            server_entity: 0,
            unit: Unit::Rus,
            pos: at(1.0, 1.0),
            owner: PlayerNumber::Two
        })
    );
    let m = w.spawn_projectile(Projectile::Bomb, 0, 0, at(2.0, 2.0));
    assert_eq!(
        m,
        Some(ServerMessage::SpawnProjectile {
            server_entity: 1,
            projectile: Projectile::Bomb,
            attacker: 0,
            receiver: 0,
            pos: at(2.0, 2.0)
        })
    );
    assert_eq!(w.next_entity, 2);
    assert_eq!(w.units.len(), 1);
    assert_eq!(w.projectiles.len(), 1);
    assert_eq!(w.projectiles[0].target, 0);
    assert_eq!(w.projectiles[0].speed, 15_000_000);
    assert_eq!(w.projectiles[0].radius, 1_000_000);
}

#[test]
fn nothing_is_spawned_when_identifiers_run_out() {
    let mut w = World::new();
    w.next_entity = u64::MAX;
    assert_eq!(w.spawn_unit(Unit::Rus, at(0.0, 0.0), PlayerNumber::One), None);
    assert_eq!(w.spawn_projectile(Projectile::Bullet, 1, 2, at(0.0, 0.0)), None);
    assert!(w.units.is_empty());
    assert!(w.projectiles.is_empty());
    assert_eq!(w.next_entity, u64::MAX);
}

#[test]
fn two_musketeers_shoot_each_other() {
    let mut w = World::new();
    let a = awake(&mut w, Unit::Musketeer, at(0.0, 0.0), PlayerNumber::One);
    let b = awake(&mut w, Unit::Musketeer, at(3.0, 0.0), PlayerNumber::Two);
    w.units[0].state = UnitState::Idle;
    w.units[1].state = UnitState::Idle;

    w.tick(DT);
    assert_eq!(unit(&w, a).state, UnitState::Attacking);
    assert_eq!(unit(&w, b).state, UnitState::Attacking);
    assert_eq!(unit(&w, a).attack.unwrap().target, Some(b));
    assert_eq!(unit(&w, b).attack.unwrap().target, Some(a));

    // four cooldowns of 0.75 s, and a few ticks for the last bullets to land
    for _ in 0..200 {
        w.tick(DT);
    }
    assert_eq!(unit(&w, a).health, Health(140, 340));
    assert_eq!(unit(&w, b).health, Health(140, 340));
    assert_eq!(unit(&w, a).pos, at(0.0, 0.0));
    assert_eq!(unit(&w, b).pos, at(3.0, 0.0));
    assert!(w.projectiles.is_empty());
}

#[test]
fn a_bullet_is_shot_when_the_cooldown_completes_and_lands_three_ticks_later() {
    let mut w = World::new();
    let a = awake(&mut w, Unit::Musketeer, at(0.0, 0.0), PlayerNumber::One);
    let b = awake(&mut w, Unit::Rus, at(3.0, 0.0), PlayerNumber::Two);
    // the rus cannot reach the musketeer and is held back from walking
    w.units[1].movement = None;
    w.units[1].state = UnitState::Idle;
    w.tick(DT);
    for _ in 0..47 {
        let notices = w.tick(DT);
        assert!(notices.is_empty());
    }
    let notices = w.tick(DT);
    assert_eq!(
        notices,
        vec![ServerMessage::SpawnProjectile {
            server_entity: 2,
            projectile: Projectile::Bullet,
            attacker: a,
            receiver: b,
            pos: at(0.0, 0.0)
        }]
    );
    assert_eq!(w.projectiles.len(), 1);
    assert_eq!(w.projectiles[0].pos, at(0.625, 0.0));
    assert_eq!(w.projectiles[0].target, b);
    assert!(w.tick(DT).is_empty());
    assert!(w.tick(DT).is_empty());
    assert_eq!(w.projectiles[0].pos, at(1.875, 0.0));
    assert_eq!(w.projectiles[0].target, b);
    assert_eq!(unit(&w, b).health, Health(690, 690));
    let notices = w.tick(DT);
    assert_eq!(notices, vec![ServerMessage::Despawn(2)]);
    assert_eq!(unit(&w, b).health, Health(640, 690));
    assert!(w.projectiles.is_empty());
}

#[test]
fn a_spawned_unit_is_stunned_for_a_second_and_a_half() {
    let mut w = World::new();
    w.spawn_unit(Unit::Musketeer, at(0.0, 0.0), PlayerNumber::One);
    w.spawn_unit(Unit::Musketeer, at(3.0, 0.0), PlayerNumber::Two);
    for _ in 0..95 {
        w.tick(DT);
        assert!(w.units[0].stun.is_some());
        assert_eq!(w.units[0].state, UnitState::Moving);
        assert_eq!(w.units[0].attack.unwrap().target, None);
        assert_eq!(w.units[0].pos, at(0.0, 0.0));
    }
    w.tick(DT);
    assert_eq!(w.units[0].stun, None);
    assert_eq!(w.units[0].state, UnitState::Moving);
    w.tick(DT);
    assert_eq!(w.units[0].state, UnitState::Attacking);
    assert_eq!(w.units[1].state, UnitState::Attacking);
}

#[test]
fn a_bomb_damages_ground_units_around_it_and_no_flier() {
    let mut w = World::new();
    let a = awake(&mut w, Unit::Rus, at(0.0, 0.0), PlayerNumber::One);
    let b = awake(&mut w, Unit::Rus, at(1.0, 0.0), PlayerNumber::Two);
    let c = awake(&mut w, Unit::Bat, at(0.0, 0.0), PlayerNumber::Two);
    let edge = awake(&mut w, Unit::Rus, at(0.0, -1.5), PlayerNumber::One);
    let outside = awake(&mut w, Unit::Rus, at(0.0, 1.500001), PlayerNumber::One);
    let bomb = w.next_entity;
    w.spawn_projectile(Projectile::Bomb, b, a, at(0.0, 0.0));

    let notices = w.update_projectiles(DT);

    assert_eq!(notices, vec![ServerMessage::Despawn(bomb)]);
    assert!(w.projectiles.is_empty());
    assert_eq!(unit(&w, a).health, Health(602, 690));
    assert_eq!(unit(&w, b).health, Health(602, 690));
    assert_eq!(unit(&w, c).health, Health(90, 90));
    assert_eq!(unit(&w, edge).health, Health(602, 690));
    assert_eq!(unit(&w, outside).health, Health(690, 690));
}

#[test]
fn a_fireball_damages_ground_units_around_it_and_no_flier() {
    let mut w = World::new();
    let a = awake(&mut w, Unit::Musketeer, at(2.0, 2.0), PlayerNumber::One);
    let b = awake(&mut w, Unit::Musketeer, at(2.0, 3.0), PlayerNumber::One);
    let c = awake(&mut w, Unit::Bat, at(2.0, 2.0), PlayerNumber::One);
    w.spawn_projectile(Projectile::Fireball, 99, a, at(2.0, 2.5));
    w.update_projectiles(DT);
    assert_eq!(unit(&w, a).health, Health(200, 340));
    assert_eq!(unit(&w, b).health, Health(200, 340));
    assert_eq!(unit(&w, c).health, Health(90, 90));
}

#[test]
fn a_bullet_damages_its_target_only() {
    let mut w = World::new();
    let a = awake(&mut w, Unit::Bat, at(0.0, 0.0), PlayerNumber::One);
    let b = awake(&mut w, Unit::Rus, at(0.0, 0.0), PlayerNumber::One);
    w.spawn_projectile(Projectile::Bullet, 99, a, at(0.1, 0.0));
    let notices = w.update_projectiles(DT);
    assert_eq!(notices.len(), 1);
    assert_eq!(unit(&w, a).health, Health(40, 90));
    assert_eq!(unit(&w, b).health, Health(690, 690));
}

#[test]
fn a_projectile_flies_toward_where_its_target_is_now() {
    let mut w = World::new();
    let a = awake(&mut w, Unit::Rus, at(0.0, 8.0), PlayerNumber::One);
    w.spawn_projectile(Projectile::Bomb, 99, a, at(0.0, 0.0));
    assert!(w.update_projectiles(1_000_000 / 15).is_empty());
    // a fifteenth of a second at 15 units a second, counted in whole microseconds
    assert_eq!(w.projectiles[0].pos, ArenaPos(0, 999_990));
    w.units[0].pos = at(6.0, 999_990.0 / 1_000_000.0);
    assert!(w.update_projectiles(100_000).is_empty());
    assert_eq!(w.projectiles[0].pos, ArenaPos(1_500_000, 999_990));
    assert_eq!(w.projectiles[0].target, a);
}

#[test]
fn a_projectile_whose_target_is_gone_is_removed_with_one_notice() {
    let mut w = World::new();
    let a = awake(&mut w, Unit::Rus, at(0.0, 8.0), PlayerNumber::One);
    let lost = w.next_entity;
    w.spawn_projectile(Projectile::Bullet, a, 1234, at(0.0, 0.0));
    let kept = w.next_entity;
    w.spawn_projectile(Projectile::Bullet, 1234, a, at(0.0, 0.0));
    let notices = w.tick(DT);
    assert_eq!(notices, vec![ServerMessage::Despawn(lost)]);
    assert_eq!(w.projectiles.len(), 1);
    assert_eq!(w.projectiles[0].entity, kept);
    assert_eq!(unit(&w, a).health, Health(690, 690));
}

#[test]
fn a_giant_without_enemy_towers_keeps_moving_toward_nothing() {
    let mut w = World::new();
    let g = awake(&mut w, Unit::Giant, at(0.0, 0.0), PlayerNumber::One);
    // towers of its own side and enemy units do not count
    awake(&mut w, Unit::KingTower, at(0.0, -13.0), PlayerNumber::One);
    awake(&mut w, Unit::Bat, at(9.0, 9.0), PlayerNumber::Two);
    assert!(!w.enemy_tower_left(PlayerNumber::One));
    assert!(w.enemy_tower_left(PlayerNumber::Two));
    for _ in 0..300 {
        w.update_giants(DT);
        w.update_movement(DT);
        let giant = unit(&w, g);
        assert_eq!(giant.state, UnitState::Moving);
        assert_eq!(giant.movement.unwrap().target, None);
        assert_eq!(giant.giant.unwrap().target, None);
        assert_eq!(giant.pos, at(0.0, 0.0));
    }
}

#[test]
fn a_giant_walks_to_the_nearest_enemy_tower_and_hits_it() {
    let mut w = World::new();
    let g = awake(&mut w, Unit::Giant, at(0.0, 0.0), PlayerNumber::One);
    let far = awake(&mut w, Unit::KingTower, at(0.0, 13.0), PlayerNumber::Two);
    let near = awake(&mut w, Unit::ArcherTower, at(0.0, 5.0), PlayerNumber::Two);
    // an enemy unit next to the giant is nothing to it
    let bat = awake(&mut w, Unit::Bat, at(0.5, 0.0), PlayerNumber::Two);
    w.units[3].attack = None;
    w.units[1].attack = None;
    w.units[2].attack = None;

    w.update_giants(DT);
    assert_eq!(unit(&w, g).movement.unwrap().target, Some(near));
    assert_eq!(unit(&w, g).state, UnitState::Moving);

    // 3 units to go at 1.5 units a second, 23437 millionths a tick
    for _ in 0..128 {
        w.update_giants(DT);
        w.update_movement(DT);
    }
    assert_eq!(unit(&w, g).state, UnitState::Moving);
    assert_eq!(unit(&w, g).pos, ArenaPos(0, 2_999_936));
    w.update_giants(DT);
    assert_eq!(unit(&w, g).state, UnitState::Moving);
    w.update_movement(DT);
    assert_eq!(unit(&w, g).pos, ArenaPos(0, 3_023_373));
    w.update_giants(DT);
    assert_eq!(unit(&w, g).state, UnitState::Attacking);
    assert_eq!(unit(&w, g).giant.unwrap().target, Some(near));

    for _ in 0..95 {
        w.update_giants(DT);
    }
    assert_eq!(unit(&w, near).health, Health(1400, 1400));
    w.update_giants(DT);
    assert_eq!(unit(&w, near).health, Health(1280, 1400));
    assert_eq!(unit(&w, far).health, Health(2400, 2400));
    assert_eq!(unit(&w, bat).health, Health(90, 90));
}

#[test]
fn a_giant_drops_a_tower_that_is_gone() {
    let mut w = World::new();
    let g = awake(&mut w, Unit::Giant, at(0.0, 4.0), PlayerNumber::One);
    let tower = awake(&mut w, Unit::ArcherTower, at(0.0, 5.0), PlayerNumber::Two);
    w.update_giants(DT);
    w.update_giants(DT);
    assert_eq!(unit(&w, g).state, UnitState::Attacking);
    assert_eq!(unit(&w, g).giant.unwrap().target, Some(tower));
    w.units[1].health = Health(0, 1400);
    assert_eq!(w.check_health(), vec![ServerMessage::Despawn(tower)]);
    w.update_giants(DT);
    assert_eq!(unit(&w, g).state, UnitState::Moving);
    assert_eq!(unit(&w, g).giant.unwrap().target, None);
}

#[test]
fn the_nearest_tower_is_by_distance_then_by_identifier() {
    let mut w = World::new();
    awake(&mut w, Unit::KingTower, at(0.0, -13.0), PlayerNumber::One);
    let far = awake(&mut w, Unit::KingTower, at(0.0, 13.0), PlayerNumber::Two);
    let right = awake(&mut w, Unit::ArcherTower, at(5.5, 9.5), PlayerNumber::Two);
    let left = awake(&mut w, Unit::ArcherTower, at(-5.5, 9.5), PlayerNumber::Two);
    awake(&mut w, Unit::Rus, at(0.0, 1.0), PlayerNumber::Two);

    let from = at(0.0, 0.0);
    assert_eq!(find_nearest_tower(&w.units, from, PlayerNumber::One), Some(right));
    assert_eq!(find_nearest_tower(&w.units, at(-1.0, 0.0), PlayerNumber::One), Some(left));
    assert_eq!(find_nearest_tower(&w.units, at(0.0, 12.0), PlayerNumber::One), Some(far));
    assert_eq!(find_nearest_tower(&w.units, from, PlayerNumber::Two), Some(0));
    w.units.truncate(1);
    assert_eq!(find_nearest_tower(&w.units, from, PlayerNumber::One), None);
}

#[test]
fn a_unit_attacks_what_is_in_range_and_walks_to_what_is_in_aggro() {
    let mut w = World::new();
    let rus = awake(&mut w, Unit::Rus, at(0.0, 0.0), PlayerNumber::One);
    let own = awake(&mut w, Unit::Rus, at(0.5, 0.0), PlayerNumber::One);
    let bat = awake(&mut w, Unit::Bat, at(0.0, 1.0), PlayerNumber::Two);
    let walker = awake(&mut w, Unit::Musketeer, at(0.0, 4.0), PlayerNumber::Two);
    let _ = (own, bat);

    // the rus hits ground units only: the bat next to it is passed over, the
    // musketeer is out of range but within the aggro radius of 5
    let next = next_state(unit(&w, rus), &w.units);
    assert_eq!(next.state, UnitState::Moving);
    assert_eq!(next.attack.unwrap().target, None);
    assert_eq!(next.movement.unwrap().target, Some(walker));

    // the musketeer has range 6
    let next = next_state(unit(&w, walker), &w.units);
    assert_eq!(next.state, UnitState::Attacking);
    assert_eq!(next.attack.unwrap().target, Some(rus));

    // the bat hits everything and takes the first enemy in range
    let next = next_state(unit(&w, bat), &w.units);
    assert_eq!(next.state, UnitState::Attacking);
    assert_eq!(next.attack.unwrap().target, Some(rus));
}

#[test]
fn a_unit_with_nobody_near_walks_to_the_nearest_enemy_tower() {
    let mut w = World::new();
    let rus = awake(&mut w, Unit::Rus, at(0.0, 0.0), PlayerNumber::One);
    let tower = awake(&mut w, Unit::ArcherTower, at(5.5, 9.5), PlayerNumber::Two);
    awake(&mut w, Unit::KingTower, at(0.0, 13.0), PlayerNumber::Two);
    w.update_unit_state();
    assert_eq!(unit(&w, rus).state, UnitState::Moving);
    assert_eq!(unit(&w, rus).movement.unwrap().target, Some(tower));
    w.update_movement(1_000_000);
    // two units along (5.5, 9.5) / |(5.5, 9.5)|
    assert_eq!(unit(&w, rus).pos, ArenaPos(1_002_072, 1_730_852));
}

#[test]
fn a_tower_with_nothing_in_range_stays_idle() {
    let mut w = World::new();
    let tower = awake(&mut w, Unit::ArcherTower, at(0.0, 0.0), PlayerNumber::One);
    awake(&mut w, Unit::Rus, at(0.0, 8.6), PlayerNumber::Two);
    w.update_unit_state();
    assert_eq!(unit(&w, tower).state, UnitState::Idle);
    assert_eq!(unit(&w, tower).attack.unwrap().target, None);
    w.units[1].pos = at(0.0, 8.5);
    w.update_unit_state();
    assert_eq!(unit(&w, tower).state, UnitState::Attacking);
}

#[test]
fn an_attacker_falls_back_when_its_target_leaves_or_dies() {
    let mut w = World::new();
    let tower = awake(&mut w, Unit::ArcherTower, at(0.0, 0.0), PlayerNumber::One);
    let mus = awake(&mut w, Unit::Musketeer, at(0.0, 5.0), PlayerNumber::Two);
    w.units[0].attack.as_mut().unwrap().range = 5_500_000;
    w.update_unit_state();
    assert_eq!(unit(&w, tower).state, UnitState::Attacking);
    assert_eq!(unit(&w, mus).state, UnitState::Attacking);

    // out of the tower's range, still within the musketeer's
    w.units[1].pos = at(0.0, 5.8);
    w.update_unit_state();
    assert_eq!(unit(&w, tower).state, UnitState::Idle);
    assert_eq!(unit(&w, tower).attack.unwrap().target, None);
    assert_eq!(unit(&w, mus).state, UnitState::Attacking);

    // the tower is gone
    w.units.remove(0);
    w.update_unit_state();
    assert_eq!(unit(&w, mus).state, UnitState::Moving);
    assert_eq!(unit(&w, mus).attack.unwrap().target, None);
}

#[test]
fn melee_damage_is_done_when_the_cooldown_completes() {
    let mut w = World::new();
    let rus = awake(&mut w, Unit::Rus, at(0.0, 0.0), PlayerNumber::One);
    let prey = awake(&mut w, Unit::Musketeer, at(0.0, 1.0), PlayerNumber::Two);
    w.units[1].attack = None;
    w.units[1].movement = None;
    w.update_unit_state();
    assert_eq!(unit(&w, rus).attack.unwrap().target, Some(prey));
    assert!(w.update_attacks(799_999).is_empty());
    assert_eq!(unit(&w, prey).health, Health(340, 340));
    assert!(w.update_attacks(1).is_empty());
    assert_eq!(unit(&w, prey).health, Health(260, 340));
    for _ in 0..4 {
        w.update_attacks(800_000);
    }
    assert_eq!(unit(&w, prey).health, Health(0, 340));
    w.update_attacks(800_000);
    assert_eq!(unit(&w, prey).health, Health(0, 340));
}

#[test]
fn several_blows_on_one_unit_add_up() {
    let mut w = World::new();
    let prey = awake(&mut w, Unit::Musketeer, at(0.0, 0.0), PlayerNumber::Two);
    w.units[0].attack = None;
    w.units[0].health = Health(150, 340);
    for i in 0..3 {
        awake(&mut w, Unit::Rus, at(0.5, i as f64 * 0.1), PlayerNumber::One);
    }
    w.update_unit_state();
    w.update_attacks(800_000);
    assert_eq!(unit(&w, prey).health, Health(0, 340));
}

#[test]
fn the_cooldown_starts_over_without_a_target() {
    let mut w = World::new();
    awake(&mut w, Unit::Rus, at(0.0, 0.0), PlayerNumber::One);
    w.units[0].attack.as_mut().unwrap().cooldown_timer.tick(500_000);
    assert_eq!(w.units[0].attack.unwrap().cooldown_timer.elapsed, 500_000);
    w.update_attacks(100_000);
    assert_eq!(w.units[0].attack.unwrap().cooldown_timer.elapsed, 0);
}

#[test]
fn an_attack_loses_a_target_that_is_gone() {
    let mut w = World::new();
    awake(&mut w, Unit::Rus, at(0.0, 0.0), PlayerNumber::One);
    let other = awake(&mut w, Unit::Musketeer, at(0.0, 1.0), PlayerNumber::Two);
    w.units[0].state = UnitState::Attacking;
    w.units[0].attack.as_mut().unwrap().target = Some(77);
    w.units[0].attack.as_mut().unwrap().cooldown_timer.tick(500_000);
    let notices = w.update_attacks(900_000);
    assert!(notices.is_empty());
    assert!(w.projectiles.is_empty());
    assert_eq!(w.units[0].attack.unwrap().target, None);
    assert_eq!(w.units[0].attack.unwrap().cooldown_timer.elapsed, 500_000);
    assert_eq!(unit(&w, other).health, Health(340, 340));
    assert_eq!(w.units[0].health, Health(690, 690));
    // the decision that follows in the same tick ends the attack
    w.units[1].pos = at(0.0, 9.0);
    w.update_unit_state();
    assert_eq!(w.units[0].state, UnitState::Moving);
}

#[test]
fn an_enemy_in_range_is_attacked_before_one_in_aggro_is_walked_to() {
    let mut w = World::new();
    let mus = awake(&mut w, Unit::Musketeer, at(0.0, 0.0), PlayerNumber::One);
    // listed first, and only within the aggro radius of 7
    let far = awake(&mut w, Unit::Rus, at(0.0, 6.5), PlayerNumber::Two);
    // listed second, within the attack range of 6
    let near = awake(&mut w, Unit::Rus, at(0.0, 3.0), PlayerNumber::Two);
    let next = next_state(unit(&w, mus), &w.units);
    assert_eq!(next.state, UnitState::Attacking);
    assert_eq!(next.attack.unwrap().target, Some(near));
    assert_eq!(next.movement.unwrap().target, None);
    // with nobody in range the unit walks to the first in aggro
    w.units[2].pos = at(0.0, 6.8);
    let next = next_state(unit(&w, mus), &w.units);
    assert_eq!(next.state, UnitState::Moving);
    assert_eq!(next.attack.unwrap().target, None);
    assert_eq!(next.movement.unwrap().target, Some(far));
}

#[test]
fn ticks_that_sum_to_four_cooldowns_give_four_shots() {
    let mut w = World::new();
    let mus = awake(&mut w, Unit::Musketeer, at(0.0, 0.0), PlayerNumber::One);
    let rus = awake(&mut w, Unit::Rus, at(3.0, 0.0), PlayerNumber::Two);
    w.units[0].state = UnitState::Attacking;
    w.units[0].attack.as_mut().unwrap().target = Some(rus);
    let mut shots = Vec::new();
    // twelve ticks of a quarter of a second: four cooldowns of 0.75 s
    for tick in 1..=12 {
        let notices = w.update_attacks(250_000);
        assert_eq!(notices.len(), if tick % 3 == 0 { 1 } else { 0 });
        shots.extend(notices);
    }
    assert_eq!(shots.len(), 4);
    for (i, shot) in shots.iter().enumerate() {
        assert_eq!(
            *shot,
            ServerMessage::SpawnProjectile {
                server_entity: 2 + i as u64,
                projectile: Projectile::Bullet,
                attacker: mus,
                receiver: rus,
                pos: at(0.0, 0.0)
            }
        );
    }
    // the attacks themselves take nothing from the target
    assert_eq!(unit(&w, rus).health, Health(690, 690));
    assert_eq!(w.units[0].attack.unwrap().cooldown_timer.elapsed, 0);
}

#[test]
fn units_without_health_are_removed_with_a_notice_each() {
    let mut w = World::new();
    let a = awake(&mut w, Unit::Rus, at(0.0, 0.0), PlayerNumber::One);
    let b = awake(&mut w, Unit::Rus, at(1.0, 0.0), PlayerNumber::One);
    let c = awake(&mut w, Unit::Rus, at(2.0, 0.0), PlayerNumber::One);
    w.units[0].health = Health(0, 690);
    w.units[2].health = Health(0, 690);
    let notices = w.check_health();
    assert_eq!(notices, vec![ServerMessage::Despawn(a), ServerMessage::Despawn(c)]);
    assert_eq!(w.units.len(), 1);
    assert_eq!(w.units[0].entity, b);
    assert!(w.check_health().is_empty());
}

#[test]
fn stun_runs_down_and_comes_off() {
    let mut w = World::new();
    w.spawn_unit(Unit::Rus, at(0.0, 0.0), PlayerNumber::One);
    w.update_stun_timers(1_499_999);
    assert_eq!(w.units[0].stun.unwrap().0.elapsed, 1_499_999);
    w.update_stun_timers(1);
    assert_eq!(w.units[0].stun, None);
    w.update_stun_timers(1);
    assert_eq!(w.units[0].stun, None);
}

#[test]
fn a_stunned_unit_does_not_move_or_decide() {
    let mut w = World::new();
    w.spawn_unit(Unit::Rus, at(0.0, 0.0), PlayerNumber::One);
    awake(&mut w, Unit::Musketeer, at(0.0, 1.0), PlayerNumber::Two);
    w.units[0].movement.as_mut().unwrap().target = Some(1);
    let before = w.units[0];
    w.update_unit_state();
    w.update_movement(DT);
    assert_eq!(w.units[0], before);
}

#[test]
fn a_unit_moves_toward_its_target_and_forgets_one_that_is_gone() {
    let mut w = World::new();
    let rus = awake(&mut w, Unit::Rus, at(0.0, 0.0), PlayerNumber::One);
    let mus = awake(&mut w, Unit::Musketeer, at(3.0, 4.0), PlayerNumber::Two);
    w.units[0].movement.as_mut().unwrap().target = Some(mus);
    w.units[1].movement.as_mut().unwrap().target = Some(rus);
    w.update_movement(500_000);
    // both took their step toward where the other stood before the step
    assert_eq!(unit(&w, rus).pos, at(0.6, 0.8));
    assert_eq!(unit(&w, mus).pos, at(2.4, 3.2));
    w.units.truncate(1);
    w.update_movement(500_000);
    assert_eq!(unit(&w, rus).pos, at(0.6, 0.8));
    assert_eq!(unit(&w, rus).movement.unwrap().target, None);
}

#[test]
fn the_snapshot_lists_every_unit_and_every_projectile() {
    let mut w = World::new();
    let giant = awake(&mut w, Unit::Giant, at(0.0, -2.0), PlayerNumber::One);
    let mus = awake(&mut w, Unit::Musketeer, at(0.0, 0.0), PlayerNumber::One);
    w.spawn_unit(Unit::Rus, at(3.0, 0.5), PlayerNumber::Two);
    let rus = 2;
    let tower = awake(&mut w, Unit::ArcherTower, at(-5.5, 9.5), PlayerNumber::Two);
    w.update_unit_state();
    w.update_giants(DT);
    let bullet = w.next_entity;
    w.spawn_projectile(Projectile::Bullet, mus, rus, at(0.0, 0.0));

    let snapshot = w.sync_entities();
    assert_eq!(
        snapshot,
        ServerMessage::SyncEntities {
            units: vec![
                UnitSync {
                    entity: giant,
                    pos: at(0.0, -2.0),
                    direction: Direction::Up,
                    state: UnitState::Moving,
                    health: Health(800, 800)
                },
                UnitSync {
                    entity: mus,
                    pos: at(0.0, 0.0),
                    direction: Direction::Right,
                    state: UnitState::Attacking,
                    health: Health(340, 340)
                },
                UnitSync {
                    entity: rus,
                    pos: at(3.0, 0.5),
                    direction: Direction::Down,
                    state: UnitState::Idle,
                    health: Health(690, 690)
                },
                UnitSync {
                    entity: tower,
                    pos: at(-5.5, 9.5),
                    direction: Direction::Down,
                    state: UnitState::Idle,
                    health: Health(1400, 1400)
                },
            ],
            projectiles: vec![ProjectileSync { entity: bullet, pos: at(0.0, 0.0) }],
        }
    );
}

#[test]
fn the_snapshot_keeps_a_unit_that_looks_at_a_unit_that_is_gone() {
    let mut w = World::new();
    let a = awake(&mut w, Unit::Rus, at(0.0, 0.0), PlayerNumber::One);
    let b = awake(&mut w, Unit::Rus, at(4.0, 0.0), PlayerNumber::Two);
    w.update_unit_state();
    assert_eq!(unit(&w, a).movement.unwrap().target, Some(b));
    match w.sync_entities() {
        ServerMessage::SyncEntities { units, .. } => {
            assert_eq!(units.len(), 2);
            assert_eq!(units[0].direction, Direction::Right);
        }
        _ => panic!("a snapshot is a SyncEntities message"),
    }
    w.units.truncate(1);
    match w.sync_entities() {
        ServerMessage::SyncEntities { units, projectiles } => {
            assert_eq!(
                units,
                vec![UnitSync {
                    entity: a,
                    pos: at(0.0, 0.0),
                    direction: Direction::Up,
                    state: UnitState::Moving,
                    health: Health(690, 690)
                }]
            );
            assert!(projectiles.is_empty());
        }
        _ => panic!("a snapshot is a SyncEntities message"),
    }
}

#[test]
fn every_unit_is_in_every_snapshot_of_a_battle() {
    let mut w = World::new();
    for i in 0..4 {
        awake(&mut w, Unit::Rus, at(i as f64, -1.0), PlayerNumber::One);
        awake(&mut w, Unit::Bomber, at(i as f64, 1.0), PlayerNumber::Two);
    }
    awake(&mut w, Unit::Giant, at(0.0, -4.0), PlayerNumber::One);
    awake(&mut w, Unit::KingTower, at(0.0, 5.0), PlayerNumber::Two);
    for _ in 0..640 {
        w.tick(DT);
        match w.sync_entities() {
            ServerMessage::SyncEntities { units, projectiles } => {
                let shown: Vec<u64> = units.iter().map(|e| e.entity).collect();
                let there: Vec<u64> = w.units.iter().map(|u| u.entity).collect();
                assert_eq!(shown, there);
                assert_eq!(projectiles.len(), w.projectiles.len());
            }
            _ => panic!("a snapshot is a SyncEntities message"),
        }
    }
    assert!(w.units.len() < 10);
}

#[test]
fn health_never_grows_over_a_battle() {
    let mut w = World::new();
    for i in 0..4 {
        awake(&mut w, Unit::Rus, at(i as f64, -1.0), PlayerNumber::One);
        awake(&mut w, Unit::Bomber, at(i as f64, 1.0), PlayerNumber::Two);
    }
    awake(&mut w, Unit::KingTower, at(0.0, -5.0), PlayerNumber::One);
    let mut seen: Vec<(u64, Health)> = w.units.iter().map(|u| (u.entity, u.health)).collect();
    for _ in 0..640 {
        w.tick(DT);
        for u in w.units.iter() {
            let before = seen.iter_mut().find(|(e, _)| *e == u.entity).unwrap();
            assert!(u.health.0 <= before.1 .0);
            assert!(u.health.0 <= u.health.1);
            assert_eq!(u.health.1, before.1 .1);
            assert!(u.health.0 > 0);
            before.1 = u.health;
        }
        seen.retain(|(e, _)| w.units.iter().any(|u| u.entity == *e));
        for u in w.units.iter() {
            if u.state == UnitState::Attacking {
                assert!(u.attack.unwrap().target.is_some());
            } else if let Some(a) = u.attack {
                assert_eq!(a.target, None);
            }
        }
    }
    assert!(w.units.len() < 9);
}
