use rollback_core::engine::{frame_update, handle_rollback, GameWorld, TickError};
use rollback_core::game::Position;
use rollback_core::input::InputRollback;
use rollback_core::keyed::KeyedMap;
use rollback_core::sync::{GameSync, GameSyncRequest, RollbackRequest, ServerEntityMap};
use rollback_core::tracker::{ComponentRollbacks, SyncFrameCount};
use rollback_core::{
    IdPlayerInput, Player, PlayerId, RawPlayerInput, ServerObject, FRAME_DURATION_MICROS,
};

/// One complete engine, wired the way a session starts.
struct Engine {
    world: GameWorld,
    rollbacks: ComponentRollbacks,
    input_rollback: InputRollback,
    frame_count: SyncFrameCount,
    rollback_request: RollbackRequest,
    game_sync_request: GameSyncRequest,
    se_map: ServerEntityMap,
}

impl Engine {
    fn new(init_frame: u64) -> Engine {
        Engine {
            world: GameWorld::new(),
            rollbacks: ComponentRollbacks::from_frame(init_frame - 1),
            input_rollback: InputRollback::from_frame(init_frame),
            frame_count: SyncFrameCount::new(init_frame),
            rollback_request: RollbackRequest::new(),
            game_sync_request: GameSyncRequest::default(),
            se_map: ServerEntityMap::new(),
        }
    }

    /// One full tick: reconciliation, then the clock advance.
    fn tick(&mut self) -> Result<(), TickError> {
        let r = handle_rollback(
            &mut self.world,
            &mut self.rollbacks,
            &mut self.input_rollback,
            &mut self.frame_count,
            &mut self.rollback_request,
            &mut self.game_sync_request,
            &mut self.se_map,
        );
        if r.is_ok() {
            frame_update(&mut self.frame_count, &mut self.input_rollback);
        }
        r
    }

    fn position(&self, owner: u64) -> Position {
        self.world.transforms.get(owner).unwrap()
    }
}

fn dt() -> i64 {
    FRAME_DURATION_MICROS as i64
}

fn input(player: u64, x: i8, y: i8, frame: u64) -> IdPlayerInput {
    IdPlayerInput {
        player_id: PlayerId(player),
        input: RawPlayerInput { x, y }.at_frame(frame),
    }
}

#[test]
fn plain_tick_moves_a_player_by_its_input() {
    let mut e = Engine::new(1);
    let owner = e.world.spawn(Player::new(PlayerId(7)).with_speed(1), Position { x: 0, y: 0, z: 0 });

    e.input_rollback.accept_input(input(7, 1, 0, 1));
    assert!(e.tick().is_ok());
    assert_eq!(e.frame_count.count(), 2);
    assert_eq!(e.position(owner), Position { x: dt(), y: 0, z: 0 });

    // A tick without input leaves the player where it is.
    assert!(e.tick().is_ok());
    assert_eq!(e.position(owner), Position { x: dt(), y: 0, z: 0 });
}

#[test]
fn late_input_rolls_back_and_corrects_the_past() {
    // One engine learns of the input late, through a rollback.
    let mut late = Engine::new(1);
    let owner = late.world.spawn(Player::new(PlayerId(7)).with_speed(1), Position { x: 0, y: 0, z: 0 });
    assert!(late.tick().is_ok()); // frame 1, no input
    assert!(late.tick().is_ok()); // frame 2, no input
    assert!(late.tick().is_ok()); // frame 3, no input
    assert_eq!(late.frame_count.count(), 4);
    assert_eq!(late.position(owner), Position { x: 0, y: 0, z: 0 });

    // The input for frame 2 arrives now.
    late.input_rollback.accept_input(input(7, 0, 1, 2));
    late.rollback_request.request(2);
    assert!(late.tick().is_ok());

    // The other engine knew the input from the start.
    let mut ontime = Engine::new(1);
    let owner2 = ontime.world.spawn(Player::new(PlayerId(7)).with_speed(1), Position { x: 0, y: 0, z: 0 });
    assert!(ontime.tick().is_ok());
    ontime.input_rollback.accept_input(input(7, 0, 1, 2));
    assert!(ontime.tick().is_ok());
    assert!(ontime.tick().is_ok());
    assert!(ontime.tick().is_ok());

    assert_eq!(late.frame_count.count(), ontime.frame_count.count());
    assert_eq!(late.position(owner), Position { x: 0, y: dt(), z: 0 });
    assert_eq!(late.position(owner), ontime.position(owner2));
}

#[test]
fn rollback_to_a_frame_without_input_is_refused() {
    let mut e = Engine::new(1);
    let owner = e.world.spawn(Player::new(PlayerId(7)).with_speed(1), Position { x: 0, y: 0, z: 0 });
    assert!(e.tick().is_ok());
    assert!(e.tick().is_ok());
    assert_eq!(e.frame_count.count(), 3);

    // Nothing was recorded for frame 2, so there is nothing to resimulate.
    e.rollback_request.request(2);
    let r = e.tick();
    assert_eq!(r, Err(TickError::RollbackWithoutInput(2)));
    // The refusal left the world untouched.
    assert_eq!(e.position(owner), Position { x: 0, y: 0, z: 0 });
    assert_eq!(e.frame_count.count(), 3);
}

#[test]
fn snapshot_for_a_recent_frame_resynchronizes() {
    let mut e = Engine::new(1);
    let owner = e.world.spawn(Player::new(PlayerId(7)).with_speed(1), Position { x: 0, y: 0, z: 0 });
    let sid = ServerObject(100);
    e.se_map.insert(sid, owner).unwrap();
    assert!(e.tick().is_ok());
    assert!(e.tick().is_ok());
    assert_eq!(e.frame_count.count(), 3);

    // The server says that at frame 2 the player actually stood elsewhere.
    let mut transforms = KeyedMap::new();
    transforms.insert(sid.0, Position { x: 5000, y: 0, z: 0 });
    let mut players = KeyedMap::new();
    players.insert(sid.0, Player::new(PlayerId(7)).with_speed(1));
    e.game_sync_request.request(GameSync {
        frame: 2,
        unix_time_micros: 0,
        transforms,
        players,
    });

    assert!(e.tick().is_ok());
    assert_eq!(e.frame_count.count(), 4);
    // No inputs were recorded, so resimulating frame 3 moves nothing.
    assert_eq!(e.position(owner), Position { x: 5000, y: 0, z: 0 });
    // The bridged owner was reused, not respawned.
    assert_eq!(e.se_map.get(&sid), Some(owner));
    assert_eq!(e.world.next_owner, owner + 1);
}

#[test]
fn snapshot_from_the_future_rolls_the_clock_forward() {
    let mut e = Engine::new(1);
    let sid = ServerObject(200);
    let mut transforms = KeyedMap::new();
    transforms.insert(sid.0, Position { x: 7, y: 8, z: 9 });
    let mut players = KeyedMap::new();
    players.insert(sid.0, Player::new(PlayerId(3)));
    e.game_sync_request.request(GameSync {
        frame: 5,
        unix_time_micros: 0,
        transforms,
        players,
    });

    assert!(e.tick().is_ok());
    // The engine resumed one frame past the snapshot, then advanced once.
    assert_eq!(e.frame_count.count(), 7);
    // The snapshot's owner materialized through the bridge.
    let owner = e.se_map.get(&sid).unwrap();
    assert_eq!(e.position(owner), Position { x: 7, y: 8, z: 9 });
    assert_eq!(e.world.players.get(owner).unwrap().id, PlayerId(3));
}

#[test]
fn stale_snapshot_is_dropped() {
    let mut e = Engine::new(1);
    let owner = e.world.spawn(Player::new(PlayerId(7)).with_speed(1), Position { x: 0, y: 0, z: 0 });
    for _ in 0..12 {
        assert!(e.tick().is_ok());
    }
    assert_eq!(e.frame_count.count(), 13);

    // Frame 1 left the ten-frame window long ago.
    let sid = ServerObject(300);
    let mut transforms = KeyedMap::new();
    transforms.insert(sid.0, Position { x: 4242, y: 0, z: 0 });
    e.game_sync_request.request(GameSync {
        frame: 1,
        unix_time_micros: 0,
        transforms,
        players: KeyedMap::new(),
    });

    assert!(e.tick().is_ok());
    // Dropped: the correction is unrecoverable, nothing was applied.
    assert_eq!(e.position(owner), Position { x: 0, y: 0, z: 0 });
    assert_eq!(e.se_map.get(&sid), None);
    assert_eq!(e.frame_count.count(), 14);
}

#[test]
fn identical_histories_tick_identically() {
    let script = [
        input(7, 1, 0, 1),
        input(7, 0, -1, 2),
        input(7, 1, 1, 4),
    ];

    let run = || {
        let mut e = Engine::new(1);
        let owner = e.world.spawn(Player::new(PlayerId(7)).with_speed(2), Position { x: 0, y: 0, z: 0 });
        for msg in script.iter() {
            e.input_rollback.accept_input(*msg);
        }
        for _ in 0..5 {
            assert!(e.tick().is_ok());
        }
        (e.frame_count.count(), e.position(owner))
    };

    assert_eq!(run(), run());
}

#[test]
fn staged_input_applies_exactly_once() {
    let mut e = Engine::new(1);
    let owner = e.world.spawn(Player::new(PlayerId(7)).with_speed(1), Position { x: 0, y: 0, z: 0 });

    // Targets frame 3, two ticks ahead: staged, not written.
    e.input_rollback.accept_input(input(7, 1, 0, 3));

    assert!(e.tick().is_ok()); // frame 1: not yet
    assert_eq!(e.position(owner), Position { x: 0, y: 0, z: 0 });
    assert!(e.tick().is_ok()); // frame 2: not yet
    assert_eq!(e.position(owner), Position { x: 0, y: 0, z: 0 });
    assert!(e.tick().is_ok()); // frame 3: applied now
    assert_eq!(e.position(owner), Position { x: dt(), y: 0, z: 0 });
    assert!(e.tick().is_ok()); // frame 4: not twice
    assert_eq!(e.position(owner), Position { x: dt(), y: 0, z: 0 });
}

#[test]
fn snapshot_overwrite_keeps_the_last_arrival() {
    let mut req = GameSyncRequest::default();
    req.request(GameSync {
        frame: 10,
        unix_time_micros: 1,
        transforms: KeyedMap::new(),
        players: KeyedMap::new(),
    });
    req.request(GameSync {
        frame: 20,
        unix_time_micros: 2,
        transforms: KeyedMap::new(),
        players: KeyedMap::new(),
    });
    let taken = req.take().unwrap();
    assert_eq!(taken.frame, 20);
    assert_eq!(taken.unix_time_micros, 2);
    assert!(req.take().is_none());
}

#[test]
fn two_late_inputs_coalesce_into_one_deep_rollback() {
    let mut e = Engine::new(1);
    let owner = e.world.spawn(Player::new(PlayerId(7)).with_speed(1), Position { x: 0, y: 0, z: 0 });
    for _ in 0..4 {
        assert!(e.tick().is_ok());
    }
    assert_eq!(e.frame_count.count(), 5);

    // Inputs for frames 2 and 4 arrive in the same tick; the engine rolls
    // back once, to the deeper of the two, and both corrections apply.
    e.input_rollback.accept_input(input(7, 1, 0, 4));
    e.rollback_request.request(4);
    e.input_rollback.accept_input(input(7, 1, 0, 2));
    e.rollback_request.request(2);
    assert_eq!(e.rollback_request.pending, Some(2));

    assert!(e.tick().is_ok());
    assert_eq!(e.position(owner), Position { x: 2 * dt(), y: 0, z: 0 });
}

#[test]
fn snapshot_wins_over_a_rollback_request() {
    let mut e = Engine::new(1);
    let owner = e.world.spawn(Player::new(PlayerId(7)).with_speed(1), Position { x: 0, y: 0, z: 0 });
    let sid = ServerObject(400);
    e.se_map.insert(sid, owner).unwrap();
    assert!(e.tick().is_ok());
    assert!(e.tick().is_ok());

    // Both a late input and an authoritative snapshot arrive this tick.
    e.input_rollback.accept_input(input(7, 1, 0, 2));
    e.rollback_request.request(2);
    let mut transforms = KeyedMap::new();
    transforms.insert(sid.0, Position { x: 100, y: 100, z: 0 });
    let mut players = KeyedMap::new();
    players.insert(sid.0, Player::new(PlayerId(7)).with_speed(1));
    e.game_sync_request.request(GameSync {
        frame: 2,
        unix_time_micros: 0,
        transforms,
        players,
    });

    assert!(e.tick().is_ok());
    // The snapshot replaced frame 2 outright, superseding the late input for
    // that frame, and the rollback register was drained unused.
    assert_eq!(e.position(owner), Position { x: 100, y: 100, z: 0 });
    assert_eq!(e.rollback_request.pending, None);
}

#[test]
fn rollback_requests_coalesce_to_the_deepest() {
    let mut req = RollbackRequest::new();
    req.request(8);
    req.request(12);
    assert_eq!(req.pending, Some(8));
    req.request(5);
    assert_eq!(req.pending, Some(5));
    assert_eq!(req.take(), Some(5));
    assert_eq!(req.take(), None);
}
