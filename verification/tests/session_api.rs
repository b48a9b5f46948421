use rollback_core::engine::GameWorld;
use rollback_core::game::Position;
use rollback_core::input::InputRollback;
use rollback_core::keyed::KeyedMap;
use rollback_core::session::{
    accept_remote_input, apply_game_sync, broadcast_local_input, despawn_player, initial_frame,
    make_game_sync, process_disconnect, process_login, process_player_connected, read_inputs,
    LoginResult,
};
use rollback_core::sync::{
    AttributeMap, GameSync, RollbackRequest, ServerEntityMap, TrackedAttribute,
};
use rollback_core::{
    frames_since_unix_time, FramedPlayerInput, IdPlayerInput, Player, PlayerData, PlayerId,
    PlayerLogin, RawPlayerInput, ServerObject, UMFromClient, DEFAULT_PLAYER_SPEED,
    FRAME_DURATION_MICROS,
};

#[test]
fn keyed_map_inserts_and_overwrites() {
    let mut m: KeyedMap<u64> = KeyedMap::new();
    assert!(m.is_empty());
    m.insert(4, 40);
    m.insert(2, 20);
    assert_eq!(m.num_entries(), 2);
    assert_eq!(m.get(4), Some(40));
    m.insert(4, 44);
    assert_eq!(m.num_entries(), 2);
    assert_eq!(m.get(4), Some(44));
    assert_eq!(m.remove(2), Some(20));
    assert_eq!(m.get(2), None);
    assert_eq!(m.remove(2), None);
    assert!(!m.contains_key(2));
}

#[test]
fn player_defaults() {
    let p = Player::default();
    assert_eq!(p.id, PlayerId(0));
    assert_eq!(p.speed, DEFAULT_PLAYER_SPEED);
    let q = Player::new(PlayerId(9)).with_speed(3);
    assert_eq!(q.id, PlayerId(9));
    assert_eq!(q.speed, 3);
    let raw = RawPlayerInput::default();
    assert_eq!(raw, RawPlayerInput { x: 0, y: 0 });
    let framed = raw.at_frame(17);
    assert_eq!(framed, FramedPlayerInput { raw, frame: 17 });
}

#[test]
fn frames_between_timestamps() {
    // Exactly three whole ticks and a bit.
    let three_and_a_bit = 3 * FRAME_DURATION_MICROS + 123;
    assert_eq!(frames_since_unix_time(1_000_000 + three_and_a_bit, 1_000_000), 3);
    // A timestamp from the future counts as zero ticks ago.
    assert_eq!(frames_since_unix_time(5, 10), 0);
}

#[test]
fn initial_frame_seeds_the_clock() {
    // Snapshot at frame 100, taken exactly two ticks of wall-clock ago.
    let sync_time = 50_000_000;
    let now = sync_time + 2 * FRAME_DURATION_MICROS;
    assert_eq!(initial_frame(100, sync_time, now), 102);
    // The delay rounds to the nearest whole tick.
    assert_eq!(initial_frame(100, sync_time, now + FRAME_DURATION_MICROS / 2 + 1), 103);
    assert_eq!(initial_frame(100, sync_time, now + FRAME_DURATION_MICROS / 4), 102);
    // Saturates instead of wrapping.
    assert_eq!(initial_frame(u64::MAX - 1, 0, u64::MAX), u64::MAX);
}

#[test]
fn reading_inputs_from_keys() {
    assert_eq!(read_inputs(false, false, false, false), None);
    assert_eq!(read_inputs(true, false, false, false), Some(RawPlayerInput { x: 0, y: 1 }));
    assert_eq!(read_inputs(false, true, true, false), Some(RawPlayerInput { x: -1, y: -1 }));
    // Opposing keys cancel but still count as input.
    assert_eq!(read_inputs(true, true, true, true), Some(RawPlayerInput { x: 0, y: 0 }));
}

#[test]
fn broadcasting_the_local_input() {
    let mut ir = InputRollback::from_frame(5);
    assert!(broadcast_local_input(&ir, PlayerId(1)).is_none());
    ir.accept_input(IdPlayerInput {
        player_id: PlayerId(1),
        input: RawPlayerInput { x: 1, y: -1 }.at_frame(5),
    });
    let msg = broadcast_local_input(&ir, PlayerId(1)).unwrap();
    let UMFromClient::PlayerInput(framed) = msg;
    assert_eq!(framed.raw, RawPlayerInput { x: 1, y: -1 });
    assert_eq!(framed.frame, 5);
}

#[test]
fn remote_input_is_recorded_and_requests_a_rollback() {
    let mut ir = InputRollback::from_frame(3);
    ir.next_frame(4);
    let mut req = RollbackRequest::new();
    accept_remote_input(
        &mut ir,
        &mut req,
        IdPlayerInput {
            player_id: PlayerId(2),
            input: RawPlayerInput { x: 1, y: 0 }.at_frame(3),
        },
    );
    assert_eq!(req.pending, Some(3));
    assert_eq!(
        ir.get_at_frame(3).unwrap().get(2),
        Some(RawPlayerInput { x: 1, y: 0 }),
    );
}

#[test]
fn bridge_refuses_duplicate_identifiers() {
    let mut se_map = ServerEntityMap::new();
    assert_eq!(se_map.insert(ServerObject(10), 0), Ok(()));
    assert_eq!(se_map.insert(ServerObject(10), 1), Err(()));
    assert_eq!(se_map.get(&ServerObject(10)), Some(0));
    assert_eq!(se_map.remove(&ServerObject(10)), Some(0));
    assert_eq!(se_map.get(&ServerObject(10)), None);
}

#[test]
fn snapshot_attribute_lookup() {
    let gs = GameSync {
        frame: 4,
        unix_time_micros: 0,
        transforms: KeyedMap::new(),
        players: KeyedMap::new(),
    };
    match gs.get(TrackedAttribute::Transforms) {
        AttributeMap::Transforms(m) => assert_eq!(m.num_entries(), 0),
        AttributeMap::Players(_) => panic!("wrong attribute map"),
    }
    match gs.get(TrackedAttribute::Players) {
        AttributeMap::Players(m) => assert_eq!(m.num_entries(), 0),
        AttributeMap::Transforms(_) => panic!("wrong attribute map"),
    }
}

#[test]
fn login_grants_spawn_and_snapshot() {
    let mut clients: KeyedMap<u64> = KeyedMap::new();
    let mut world = GameWorld::new();
    let mut se_map = ServerEntityMap::new();

    let r = process_login(
        &mut clients,
        77,
        PlayerLogin { id: PlayerId(5) },
        &mut world,
        &mut se_map,
        9,
        123_456,
    );
    let grant = match r {
        LoginResult::Granted(g) => g,
        _ => panic!("login should be granted"),
    };
    assert_eq!(grant.player_data.player.id, PlayerId(5));
    assert_eq!(grant.player_data.player.speed, DEFAULT_PLAYER_SPEED);
    assert_eq!(grant.player_data.transform, Position { x: 0, y: 0, z: 0 });
    assert_eq!(grant.game_sync.frame, 8);
    assert_eq!(grant.game_sync.unix_time_micros, 123_456);
    assert_eq!(grant.game_sync.players.get(grant.server_object.0).unwrap().id, PlayerId(5));

    let owner = se_map.get(&grant.server_object).unwrap();
    assert_eq!(world.players.get(owner).unwrap().id, PlayerId(5));
    assert_eq!(clients.get(77), Some(5));

    // A second login from the same client is ignored.
    let again = process_login(
        &mut clients,
        77,
        PlayerLogin { id: PlayerId(5) },
        &mut world,
        &mut se_map,
        10,
        0,
    );
    assert!(matches!(again, LoginResult::AlreadyLoggedIn));
    assert_eq!(world.players.num_entries(), 1);
}

#[test]
fn disconnect_despawns_the_player() {
    let mut clients: KeyedMap<u64> = KeyedMap::new();
    let mut world = GameWorld::new();
    let mut se_map = ServerEntityMap::new();
    let grant = match process_login(
        &mut clients,
        1,
        PlayerLogin { id: PlayerId(5) },
        &mut world,
        &mut se_map,
        2,
        0,
    ) {
        LoginResult::Granted(g) => g,
        _ => panic!("login should be granted"),
    };
    let other = world.spawn(Player::new(PlayerId(6)), Position { x: 1, y: 2, z: 3 });

    let left = process_disconnect(&mut clients, 1, &mut world, &mut se_map);
    assert_eq!(left, Some(PlayerId(5)));
    assert_eq!(se_map.get(&grant.server_object), None);
    assert!(world.players.get(other).is_some());
    assert_eq!(world.players.num_entries(), 1);
    assert_eq!(world.transforms.num_entries(), 1);

    // An unknown client disconnecting changes nothing.
    assert_eq!(process_disconnect(&mut clients, 42, &mut world, &mut se_map), None);
    assert_eq!(world.players.num_entries(), 1);
}

#[test]
fn despawn_removes_every_matching_owner() {
    let mut world = GameWorld::new();
    let mut se_map = ServerEntityMap::new();
    let a = world.spawn(Player::new(PlayerId(1)), Position { x: 1, y: 0, z: 0 });
    let b = world.spawn(Player::new(PlayerId(2)), Position { x: 2, y: 0, z: 0 });
    let c = world.spawn(Player::new(PlayerId(1)), Position { x: 3, y: 0, z: 0 });
    se_map.insert(ServerObject(11), a).unwrap();
    se_map.insert(ServerObject(12), b).unwrap();
    se_map.insert(ServerObject(13), c).unwrap();

    despawn_player(&mut world, &mut se_map, PlayerId(1));

    assert_eq!(world.players.get(a), None);
    assert_eq!(world.players.get(c), None);
    assert!(world.players.get(b).is_some());
    assert_eq!(world.transforms.get(b), Some(Position { x: 2, y: 0, z: 0 }));
    assert_eq!(se_map.get(&ServerObject(11)), None);
    assert_eq!(se_map.get(&ServerObject(12)), Some(b));
    assert_eq!(se_map.get(&ServerObject(13)), None);
}

#[test]
fn connected_player_materializes_once() {
    let mut world = GameWorld::new();
    let mut se_map = ServerEntityMap::new();
    let data = PlayerData {
        player: Player::new(PlayerId(4)),
        transform: Position { x: 9, y: 9, z: 0 },
    };

    // The local player's own announcement is not spawned again.
    assert_eq!(
        process_player_connected(&mut world, &mut se_map, data, ServerObject(50), PlayerId(4)),
        Ok(()),
    );
    assert_eq!(world.players.num_entries(), 0);

    // A remote player spawns and bridges.
    assert_eq!(
        process_player_connected(&mut world, &mut se_map, data, ServerObject(50), PlayerId(1)),
        Ok(()),
    );
    let owner = se_map.get(&ServerObject(50)).unwrap();
    assert_eq!(world.transforms.get(owner), Some(Position { x: 9, y: 9, z: 0 }));

    // The same stable identifier arriving twice is a duplicate spawn.
    assert_eq!(
        process_player_connected(&mut world, &mut se_map, data, ServerObject(50), PlayerId(1)),
        Err(()),
    );
    assert_eq!(world.players.num_entries(), 1);
}

#[test]
fn snapshot_round_trip_through_the_bridge() {
    // Server side: two players, snapshot taken.
    let mut server_world = GameWorld::new();
    let mut server_map = ServerEntityMap::new();
    let a = server_world.spawn(Player::new(PlayerId(1)), Position { x: 10, y: 0, z: 0 });
    let b = server_world.spawn(Player::new(PlayerId(2)), Position { x: 0, y: 20, z: 0 });
    server_map.insert(ServerObject(71), a).unwrap();
    server_map.insert(ServerObject(72), b).unwrap();
    let gs = make_game_sync(&server_world, &server_map, 30, 999);
    assert_eq!(gs.frame, 30);
    assert_eq!(gs.transforms.get(71), Some(Position { x: 10, y: 0, z: 0 }));
    assert_eq!(gs.players.get(72).unwrap().id, PlayerId(2));

    // Client side: a fresh world materializes both owners from it.
    let mut client_world = GameWorld::new();
    let mut client_map = ServerEntityMap::new();
    apply_game_sync(&mut client_world, &gs, &mut client_map);
    let ca = client_map.get(&ServerObject(71)).unwrap();
    let cb = client_map.get(&ServerObject(72)).unwrap();
    assert_eq!(client_world.transforms.get(ca), Some(Position { x: 10, y: 0, z: 0 }));
    assert_eq!(client_world.transforms.get(cb), Some(Position { x: 0, y: 20, z: 0 }));
    assert_eq!(client_world.players.get(ca).unwrap().id, PlayerId(1));

    // Applying it again reuses the bridged owners.
    apply_game_sync(&mut client_world, &gs, &mut client_map);
    assert_eq!(client_world.players.num_entries(), 2);
}

#[test]
fn random_identifiers_register_like_any_other() {
    let mut se_map = ServerEntityMap::new();
    let sid = ServerObject::random_id();
    assert_eq!(se_map.insert(sid, 0), Ok(()));
    assert_eq!(se_map.get(&sid), Some(0));
}
