use boyar_tournament::client::networking::{ClientWorld, LocalProjectile};
use boyar_tournament::client::units::{AssociatedTower, LocalUnit};
use boyar_tournament::common::{
    Card, ClientMessage, Direction, Health, PlayerNumber, Projectile, ProjectileSync,
    ServerMessage, Unit, UnitState, UnitSync,
};
use boyar_tournament::geometry::{ArenaPos, UNIT};
use boyar_tournament::server::networking::{Admission, Server};

fn at(x: f64, y: f64) -> ArenaPos {
    ArenaPos((x * UNIT as f64).round() as i32, (y * UNIT as f64).round() as i32)
}

fn client_of(player: PlayerNumber) -> ClientWorld {
    let mut c = ClientWorld::new();
    assert!(c.handle_server_message(&ServerMessage::StartGame(player)).is_empty());
    c
}

fn spawn(c: &mut ClientWorld, server_entity: u64, unit: Unit, pos: ArenaPos, owner: PlayerNumber) {
    let gone =
        c.handle_server_message(&ServerMessage::SpawnUnit { server_entity, unit, pos, owner });
    assert!(gone.is_empty());
}

fn entry(entity: u64, pos: ArenaPos, direction: Direction, state: UnitState, health: Health) -> UnitSync {
    UnitSync { entity, pos, direction, state, health }
}

#[test]
fn a_new_client_knows_nothing() {
    let c = ClientWorld::new();
    assert_eq!(c.player, PlayerNumber::One);
    assert!(c.units.is_empty());
    assert!(c.projectiles.is_empty());
    assert_eq!(c.local_entity(0), None);
    assert_eq!(c.unit(0), None);
    assert_eq!(c.projectile(0), None);
}

#[test]
fn start_game_sets_the_seat() {
    let c = client_of(PlayerNumber::Two);
    assert_eq!(c.player, PlayerNumber::Two);
}

#[test]
fn player_two_sees_a_spawn_mirrored() {
    let mut c = client_of(PlayerNumber::Two);
    spawn(&mut c, 41, Unit::Rus, at(3.0, 5.0), PlayerNumber::One);
    let unit = c.unit(41).expect("the spawned unit is shown");
    assert_eq!(unit.pos, at(-3.0, -5.0));
    assert_eq!(unit.direction, Direction::Down);
    assert_eq!(PlayerNumber::One.default_direction(), Direction::Up);
    assert_eq!(PlayerNumber::One.default_direction().adjust_for_player(PlayerNumber::Two), Direction::Down);
}

#[test]
fn player_one_sees_a_spawn_as_it_is() {
    let mut c = client_of(PlayerNumber::One);
    spawn(&mut c, 41, Unit::Rus, at(3.0, 5.0), PlayerNumber::One);
    assert_eq!(
        c.unit(41),
        Some(LocalUnit {
            entity: 0,
            kind: Unit::Rus,
            owner: PlayerNumber::One,
            pos: at(3.0, 5.0),
            direction: Direction::Up,
            state: UnitState::Idle,
            health: Health(100, 100),
            tower: None,
        })
    );
    assert_eq!(c.local_entity(41), Some(0));
}

#[test]
fn own_units_face_up_and_the_others_down() {
    let one = PlayerNumber::One;
    let two = PlayerNumber::Two;
    assert_eq!(one.spawn_direction(one), Direction::Up);
    assert_eq!(two.spawn_direction(two), Direction::Up);
    assert_eq!(one.spawn_direction(two), Direction::Down);
    assert_eq!(two.spawn_direction(one), Direction::Down);
}

#[test]
fn adjusting_for_a_player() {
    assert_eq!(at(1.0, -2.0).adjust_for_player(PlayerNumber::One), at(1.0, -2.0));
    assert_eq!(at(1.0, -2.0).adjust_for_player(PlayerNumber::Two), at(-1.0, 2.0));
    assert_eq!(Direction::Left.adjust_for_player(PlayerNumber::One), Direction::Left);
    assert_eq!(Direction::Left.adjust_for_player(PlayerNumber::Two), Direction::Right);
    assert_eq!(Direction::Up.adjust_for_player(PlayerNumber::Two), Direction::Down);
}

#[test]
fn animation_tags() {
    assert_eq!(Direction::Up.tag(), "u");
    assert_eq!(Direction::Down.tag(), "d");
    assert_eq!(Direction::Left.tag(), "l");
    assert_eq!(Direction::Right.tag(), "r");
    assert_eq!(UnitState::Idle.tag(), "");
    assert_eq!(UnitState::Moving.tag(), "");
    assert_eq!(UnitState::Attacking.tag(), "a");
}

#[test]
fn server_and_local_identifiers_are_kept_apart() {
    let mut c = client_of(PlayerNumber::One);
    spawn(&mut c, 700, Unit::Rus, at(0.0, 0.0), PlayerNumber::One);
    spawn(&mut c, 5, Unit::Bat, at(1.0, 0.0), PlayerNumber::Two);
    assert_eq!(c.local_entity(700), Some(0));
    assert_eq!(c.local_entity(5), Some(1));
    assert_eq!(c.local_entity(0), None);
    assert_eq!(c.local_entity(1), None);
    assert_eq!(c.unit(5).unwrap().kind, Unit::Bat);
    assert_eq!(c.unit(700).unwrap().kind, Unit::Rus);
}

#[test]
fn a_tower_comes_with_its_defender() {
    let mut c = client_of(PlayerNumber::One);
    spawn(&mut c, 3, Unit::KingTower, at(0.0, 13.0), PlayerNumber::Two);
    let defender = c.unit(3).unwrap();
    assert_eq!(defender.entity, 1);
    assert_eq!(defender.tower, Some(AssociatedTower(0)));
    assert_eq!(defender.direction, Direction::Down);
    assert_eq!(c.next_local, 2);
    let gone = c.handle_server_message(&ServerMessage::Despawn(3));
    assert_eq!(gone, vec![0, 1]);
    assert_eq!(c.unit(3), None);
    assert_eq!(c.local_entity(3), None);
    assert!(c.units.is_empty());
}

#[test]
fn a_despawn_removes_the_entity_and_its_entry() {
    let mut c = client_of(PlayerNumber::One);
    spawn(&mut c, 10, Unit::Rus, at(0.0, 0.0), PlayerNumber::One);
    spawn(&mut c, 11, Unit::Bat, at(1.0, 0.0), PlayerNumber::Two);
    let gone = c.handle_server_message(&ServerMessage::Despawn(10));
    assert_eq!(gone, vec![0]);
    assert_eq!(c.local_entity(10), None);
    assert_eq!(c.units.len(), 1);
    assert_eq!(c.units[0].kind, Unit::Bat);
    assert_eq!(c.local_entity(11), Some(1));
}

#[test]
fn a_despawn_of_an_unknown_entity_is_ignored() {
    let mut c = client_of(PlayerNumber::One);
    spawn(&mut c, 10, Unit::Rus, at(0.0, 0.0), PlayerNumber::One);
    let gone = c.handle_server_message(&ServerMessage::Despawn(99));
    assert!(gone.is_empty());
    assert_eq!(c.units.len(), 1);
    // a second despawn of the same entity finds nothing either
    assert_eq!(c.handle_server_message(&ServerMessage::Despawn(10)), vec![0]);
    assert!(c.handle_server_message(&ServerMessage::Despawn(10)).is_empty());
}

#[test]
fn a_projectile_is_shown_between_known_units() {
    let mut c = client_of(PlayerNumber::Two);
    spawn(&mut c, 10, Unit::Musketeer, at(0.0, 0.0), PlayerNumber::One);
    spawn(&mut c, 11, Unit::Rus, at(0.0, 3.0), PlayerNumber::Two);
    let message = ServerMessage::SpawnProjectile {
        server_entity: 12,
        projectile: Projectile::Bullet,
        attacker: 10,
        receiver: 11,
        pos: at(1.0, 2.0),
    };
    assert!(c.handle_server_message(&message).is_empty());
    assert_eq!(
        c.projectile(12),
        Some(LocalProjectile {
            entity: 2,
            kind: Projectile::Bullet,
            pos: at(-1.0, -2.0),
            attacker: 0,
            receiver: 1,
        })
    );
    assert_eq!(c.handle_server_message(&ServerMessage::Despawn(12)), vec![2]);
    assert_eq!(c.projectile(12), None);
    assert!(c.projectiles.is_empty());
    assert_eq!(c.units.len(), 2);
}

#[test]
fn a_projectile_between_unknown_units_is_not_shown() {
    let mut c = client_of(PlayerNumber::One);
    spawn(&mut c, 10, Unit::Musketeer, at(0.0, 0.0), PlayerNumber::One);
    for (attacker, receiver) in [(10, 99), (99, 10), (98, 99)] {
        c.spawn_projectile(12, Projectile::Bomb, attacker, receiver, at(0.0, 0.0));
        assert_eq!(c.local_entity(12), None);
        assert!(c.projectiles.is_empty());
    }
    assert!(c.handle_server_message(&ServerMessage::Despawn(12)).is_empty());
}

#[test]
fn a_snapshot_overwrites_what_is_shown() {
    let mut c = client_of(PlayerNumber::Two);
    spawn(&mut c, 10, Unit::Musketeer, at(0.0, 0.0), PlayerNumber::One);
    spawn(&mut c, 11, Unit::Rus, at(0.0, 3.0), PlayerNumber::Two);
    c.spawn_projectile(12, Projectile::Bullet, 10, 11, at(0.0, 0.0));
    let snapshot = ServerMessage::SyncEntities {
        units: vec![
            entry(10, at(1.0, 2.0), Direction::Left, UnitState::Attacking, Health(300, 340)),
            entry(77, at(9.0, 9.0), Direction::Up, UnitState::Moving, Health(1, 1)),
        ],
        projectiles: vec![
            ProjectileSync { entity: 12, pos: at(0.5, 0.25) },
            ProjectileSync { entity: 78, pos: at(9.0, 9.0) },
        ],
    };
    assert!(c.handle_server_message(&snapshot).is_empty());
    let shown = c.unit(10).unwrap();
    assert_eq!(shown.pos, at(-1.0, -2.0));
    assert_eq!(shown.direction, Direction::Right);
    assert_eq!(shown.state, UnitState::Attacking);
    assert_eq!(shown.health, Health(300, 340));
    assert_eq!(shown.kind, Unit::Musketeer);
    assert_eq!(shown.entity, 0);
    // the unit without an entry stays as it was
    let other = c.unit(11).unwrap();
    assert_eq!(other.pos, at(0.0, -3.0));
    assert_eq!(other.health, Health(100, 100));
    assert_eq!(c.projectile(12).unwrap().pos, at(-0.5, -0.25));
    assert_eq!(c.units.len(), 2);
    assert_eq!(c.projectiles.len(), 1);
    assert_eq!(c.local_entity(77), None);
}

#[test]
fn the_same_snapshot_twice_changes_nothing_more() {
    let mut c = client_of(PlayerNumber::Two);
    spawn(&mut c, 10, Unit::Musketeer, at(0.0, 0.0), PlayerNumber::One);
    spawn(&mut c, 11, Unit::ArcherTower, at(5.5, 9.5), PlayerNumber::Two);
    c.spawn_projectile(12, Projectile::Fireball, 11, 10, at(5.5, 9.5));
    let snapshot = ServerMessage::SyncEntities {
        units: vec![
            entry(10, at(1.0, 2.0), Direction::Left, UnitState::Attacking, Health(300, 340)),
            entry(11, at(5.5, 9.5), Direction::Down, UnitState::Attacking, Health(1400, 1400)),
            // two entries for one unit: the last one counts
            entry(10, at(1.5, 2.5), Direction::Up, UnitState::Moving, Health(250, 340)),
        ],
        projectiles: vec![ProjectileSync { entity: 12, pos: at(4.0, 8.0) }],
    };
    c.handle_server_message(&snapshot);
    let units = c.units.clone();
    let projectiles = c.projectiles.clone();
    assert_eq!(units[0].pos, at(-1.5, -2.5));
    assert_eq!(units[0].health, Health(250, 340));
    c.handle_server_message(&snapshot);
    assert_eq!(c.units, units);
    assert_eq!(c.projectiles, projectiles);
    assert_eq!(c.local_entity(10), Some(0));
    assert_eq!(c.local_entity(11), Some(2));
    assert_eq!(c.local_entity(12), Some(3));
}

#[test]
fn an_entry_for_an_entity_of_the_other_sort_is_passed_over() {
    let mut c = client_of(PlayerNumber::One);
    spawn(&mut c, 10, Unit::Musketeer, at(0.0, 0.0), PlayerNumber::One);
    c.spawn_projectile(12, Projectile::Bullet, 10, 10, at(0.0, 0.0));
    let units = c.units.clone();
    let projectiles = c.projectiles.clone();
    c.sync_entities(
        &vec![entry(12, at(1.0, 1.0), Direction::Left, UnitState::Moving, Health(1, 1))],
        &vec![ProjectileSync { entity: 10, pos: at(1.0, 1.0) }],
    );
    assert_eq!(c.units, units);
    assert_eq!(c.projectiles, projectiles);
}

#[test]
fn a_client_follows_a_server() {
    let mut server = Server::new();
    server.handle_connection(1);
    let notices = match server.handle_connection(2) {
        Admission::Started { notices, .. } => notices,
        other => panic!("the match starts with the second client, not {:?}", other),
    };
    let mut one = client_of(PlayerNumber::One);
    let mut two = client_of(PlayerNumber::Two);
    for m in notices.iter() {
        one.handle_server_message(m);
        two.handle_server_message(m);
    }
    let played = server.handle_client_message(
        1,
        ClientMessage::PlayCard { card: Card::BatHorde, placement: at(0.5, 3.5) },
    );
    for m in played.iter() {
        one.handle_server_message(m);
        two.handle_server_message(m);
    }
    for _ in 0..64 * 20 {
        let out = server.tick(15_625);
        for m in out.notices.iter() {
            one.handle_server_message(m);
            two.handle_server_message(m);
        }
        one.handle_server_message(&out.snapshot);
        two.handle_server_message(&out.snapshot);
        assert_eq!(one.units.len(), server.world.units.len());
        assert_eq!(two.units.len(), server.world.units.len());
        assert_eq!(one.projectiles.len(), server.world.projectiles.len());
        for u in server.world.units.iter() {
            let a = one.unit(u.entity).expect("player one knows every unit");
            let b = two.unit(u.entity).expect("player two knows every unit");
            assert_eq!(a.pos, u.pos);
            assert_eq!(b.pos, u.pos.mirror());
            assert_eq!(a.health, u.health);
            assert_eq!(b.health, u.health);
            assert_eq!(a.direction, b.direction.opposite());
        }
    }
    assert!(server.world.units.len() < 12);
}
