use boyar_tournament::common::{Card, ClientMessage, PlayerNumber, ServerMessage, Unit};
use boyar_tournament::geometry::{ArenaPos, UNIT};
use boyar_tournament::server::networking::{tower_orders, Admission, Lobby, Server, SpawnOrder};

fn at(x: f64, y: f64) -> ArenaPos {
    ArenaPos((x * UNIT as f64).round() as i32, (y * UNIT as f64).round() as i32)
}

fn started() -> Server {
    let mut s = Server::new();
    s.handle_connection(10);
    s.handle_connection(20);
    s
}

#[test]
fn seats_go_by_arrival() {
    let mut lobby = Lobby::new();
    assert!(!lobby.is_full());
    assert_eq!(lobby.player_of(5), None);
    assert_eq!(lobby.join(5), Some(PlayerNumber::One));
    assert!(!lobby.is_full());
    assert_eq!(lobby.join(9), Some(PlayerNumber::Two));
    assert!(lobby.is_full());
    assert_eq!(lobby.player_of(5), Some(PlayerNumber::One));
    assert_eq!(lobby.player_of(9), Some(PlayerNumber::Two));
    assert_eq!(lobby.player_of(6), None);
    assert_eq!(lobby.join(6), None);
    assert_eq!(lobby.player_of(6), None);
    let mut seats = lobby.seats();
    seats.sort_by_key(|(client, _)| *client);
    assert_eq!(seats, vec![(5, PlayerNumber::One), (9, PlayerNumber::Two)]);
}

#[test]
fn a_client_that_has_a_seat_keeps_it() {
    let mut lobby = Lobby::new();
    assert!(lobby.seats().is_empty());
    assert_eq!(lobby.join(5), Some(PlayerNumber::One));
    assert_eq!(lobby.join(5), Some(PlayerNumber::One));
    assert!(!lobby.is_full());
    assert_eq!(lobby.seats(), vec![(5, PlayerNumber::One)]);
    assert_eq!(lobby.join(9), Some(PlayerNumber::Two));
    assert_eq!(lobby.join(5), None);
    assert_eq!(lobby.player_of(5), Some(PlayerNumber::One));

    let mut s = Server::new();
    assert_eq!(s.handle_connection(10), Admission::Waiting(PlayerNumber::One));
    assert_eq!(s.handle_connection(10), Admission::Waiting(PlayerNumber::One));
    assert!(s.world.units.is_empty());
    assert!(matches!(s.handle_connection(20), Admission::Started { .. }));
    assert_eq!(s.handle_connection(10), Admission::Rejected);
}

#[test]
fn the_first_client_waits() {
    let mut s = Server::new();
    assert_eq!(s.handle_connection(10), Admission::Waiting(PlayerNumber::One));
    assert!(s.world.units.is_empty());
}

#[test]
fn the_second_client_starts_the_match_with_six_towers() {
    let mut s = Server::new();
    s.handle_connection(10);
    let admission = s.handle_connection(20);
    let one = PlayerNumber::One;
    let two = PlayerNumber::Two;
    let expected = vec![
        (Unit::ArcherTower, at(-5.5, -9.5), one),
        (Unit::KingTower, at(0.0, -13.0), one),
        (Unit::ArcherTower, at(5.5, -9.5), one),
        (Unit::ArcherTower, at(-5.5, 9.5), two),
        (Unit::KingTower, at(0.0, 13.0), two),
        (Unit::ArcherTower, at(5.5, 9.5), two),
    ];
    let notices: Vec<ServerMessage> = expected
        .iter()
        .enumerate()
        .map(|(i, (unit, pos, owner))| ServerMessage::SpawnUnit {
            server_entity: i as u64,
            unit: *unit,
            pos: *pos,
            owner: *owner,
        })
        .collect();
    match admission {
        Admission::Started { mut seats, notices: sent } => {
            seats.sort_by_key(|(client, _)| *client);
            assert_eq!(seats, vec![(10, PlayerNumber::One), (20, PlayerNumber::Two)]);
            assert_eq!(sent, notices);
        }
        other => panic!("the match starts with the second client, not {:?}", other),
    }
    assert_eq!(s.world.units.len(), 6);
    for (i, (unit, pos, owner)) in expected.iter().enumerate() {
        assert_eq!(s.world.units[i], unit.record(i as u64, *pos, *owner));
    }
}

#[test]
fn the_towers_of_the_two_sides_mirror_each_other() {
    let orders = tower_orders();
    assert_eq!(orders.len(), 6);
    for o in orders.iter().filter(|o| o.owner == PlayerNumber::One) {
        let x = SpawnOrder { kind: o.kind, pos: ArenaPos(o.pos.0, -o.pos.1), owner: PlayerNumber::Two };
        assert!(orders.contains(&x));
    }
}

#[test]
fn a_third_client_is_rejected() {
    let mut s = started();
    let units = s.world.units.clone();
    assert_eq!(s.handle_connection(30), Admission::Rejected);
    assert_eq!(s.lobby.player_of(10), Some(PlayerNumber::One));
    assert_eq!(s.lobby.player_of(20), Some(PlayerNumber::Two));
    assert_eq!(s.lobby.player_of(30), None);
    assert_eq!(s.world.units, units);
    assert_eq!(s.handle_connection(10), Admission::Rejected);
}

#[test]
fn a_single_card_spawns_one_unit_for_its_player() {
    let cases = [
        (Card::Rus, Unit::Rus),
        (Card::Musketeer, Unit::Musketeer),
        (Card::Priest, Unit::Priest),
        (Card::Bomber, Unit::Bomber),
        (Card::Giant, Unit::Giant),
    ];
    for (card, unit) in cases {
        let mut s = started();
        let notices =
            s.handle_client_message(20, ClientMessage::PlayCard { card, placement: at(2.5, 3.5) });
        assert_eq!(
            notices,
            vec![ServerMessage::SpawnUnit {
                server_entity: 6,
                unit,
                pos: at(2.5, 3.5),
                owner: PlayerNumber::Two
            }]
        );
        assert_eq!(s.world.units.len(), 7);
        assert_eq!(s.world.units[6], unit.record(6, at(2.5, 3.5), PlayerNumber::Two));
    }
}

#[test]
fn a_card_of_three_spawns_three_units_around_the_placement() {
    for (card, unit) in [(Card::ThreeMusketeers, Unit::Musketeer), (Card::Bats, Unit::Bat)] {
        let mut s = started();
        let notices =
            s.handle_client_message(10, ClientMessage::PlayCard { card, placement: at(1.5, -4.5) });
        let places = [at(1.5, -3.7), at(2.3, -4.5), at(0.7, -4.5)];
        assert_eq!(notices.len(), 3);
        for (i, pos) in places.iter().enumerate() {
            assert_eq!(
                notices[i],
                ServerMessage::SpawnUnit {
                    server_entity: 6 + i as u64,
                    unit,
                    pos: *pos,
                    owner: PlayerNumber::One
                }
            );
        }
    }
}

#[test]
fn the_bat_horde_spawns_six_bats_in_a_ring() {
    let mut s = started();
    let notices = s.handle_client_message(
        10,
        ClientMessage::PlayCard { card: Card::BatHorde, placement: at(0.5, -6.5) },
    );
    let places = [
        at(1.0, -6.0),
        at(1.3, -6.5),
        at(1.0, -7.0),
        at(0.0, -7.0),
        at(-0.3, -6.5),
        at(0.0, -6.0),
    ];
    assert_eq!(notices.len(), 6);
    for (i, pos) in places.iter().enumerate() {
        assert_eq!(
            notices[i],
            ServerMessage::SpawnUnit {
                server_entity: 6 + i as u64,
                unit: Unit::Bat,
                pos: *pos,
                owner: PlayerNumber::One
            }
        );
    }
    assert_eq!(s.world.units.len(), 12);
}

#[test]
fn card_orders_and_offsets() {
    assert_eq!(Card::Giant.unit(), Unit::Giant);
    assert_eq!(Card::Giant.offsets(), vec![ArenaPos(0, 0)]);
    assert_eq!(Card::Bats.offsets().len(), 3);
    assert_eq!(Card::BatHorde.offsets().len(), 6);
    assert_eq!(
        Card::Rus.orders(at(1.0, 1.0), PlayerNumber::Two),
        vec![SpawnOrder { kind: Unit::Rus, pos: at(1.0, 1.0), owner: PlayerNumber::Two }]
    );
}

#[test]
fn a_command_of_an_unknown_client_is_dropped() {
    let mut s = started();
    let notices = s.handle_client_message(
        99,
        ClientMessage::PlayCard { card: Card::Giant, placement: at(0.0, 0.0) },
    );
    assert!(notices.is_empty());
    assert_eq!(s.world.units.len(), 6);
    assert_eq!(s.world.next_entity, 6);
}

#[test]
fn a_seated_client_can_play_before_the_other_has_arrived() {
    let mut s = Server::new();
    s.handle_connection(10);
    let notices = s.handle_client_message(
        10,
        ClientMessage::PlayCard { card: Card::Giant, placement: at(0.5, -3.5) },
    );
    assert_eq!(
        notices,
        vec![ServerMessage::SpawnUnit {
            server_entity: 0,
            unit: Unit::Giant,
            pos: at(0.5, -3.5),
            owner: PlayerNumber::One
        }]
    );
    assert_eq!(s.world.units.len(), 1);
    // the towers come with the second client, under the identifiers that follow
    match s.handle_connection(20) {
        Admission::Started { notices, .. } => {
            assert_eq!(notices.len(), 6);
            assert!(matches!(notices[0], ServerMessage::SpawnUnit { server_entity: 1, .. }));
        }
        other => panic!("the match starts with the second client, not {:?}", other),
    }
    assert_eq!(s.world.units.len(), 7);
}

#[test]
fn each_client_is_told_its_seat_when_the_match_starts() {
    let mut s = Server::new();
    assert!(s.handle_connection(10).greetings().is_empty());
    let admission = s.handle_connection(20);
    let mut greetings = admission.greetings();
    greetings.sort_by_key(|(client, _)| *client);
    assert_eq!(
        greetings,
        vec![
            (10, ServerMessage::StartGame(PlayerNumber::One)),
            (20, ServerMessage::StartGame(PlayerNumber::Two)),
        ]
    );
    assert!(s.handle_connection(30).greetings().is_empty());
}

#[test]
fn a_tick_gives_notices_and_a_snapshot() {
    let mut s = started();
    s.handle_client_message(10, ClientMessage::PlayCard { card: Card::Rus, placement: at(0.5, -4.5) });
    let out = s.tick(15_625);
    assert!(out.notices.is_empty());
    match out.snapshot {
        ServerMessage::SyncEntities { units, projectiles } => {
            assert_eq!(units.len(), 7);
            assert!(projectiles.is_empty());
            assert_eq!(units[6].entity, 6);
            assert_eq!(units[6].pos, at(0.5, -4.5));
        }
        _ => panic!("a snapshot is a SyncEntities message"),
    }
    assert_eq!(s.lobby.player_of(10), Some(PlayerNumber::One));
    assert!(s.lobby.is_full());
}

#[test]
fn a_match_runs_until_a_tower_falls() {
    let mut s = started();
    for _ in 0..3 {
        s.handle_client_message(
            10,
            ClientMessage::PlayCard { card: Card::Giant, placement: at(5.5, -2.5) },
        );
    }
    let mut spawned: Vec<u64> = (0..9).collect();
    let mut despawned: Vec<u64> = Vec::new();
    let mut fallen = false;
    for _ in 0..64 * 120 {
        let out = s.tick(15_625);
        for m in out.notices {
            match m {
                ServerMessage::SpawnProjectile { server_entity, .. } => {
                    assert!(!spawned.contains(&server_entity));
                    spawned.push(server_entity);
                }
                ServerMessage::Despawn(e) => {
                    assert!(spawned.contains(&e));
                    assert!(!despawned.contains(&e));
                    despawned.push(e);
                    if e == 5 {
                        fallen = true;
                    }
                }
                other => panic!("a tick gives no {:?}", other),
            }
        }
        if fallen {
            break;
        }
    }
    assert!(fallen);
}
