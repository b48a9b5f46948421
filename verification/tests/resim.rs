use rollback_core::game::Position;
use rollback_core::input::InputRollback;
use rollback_core::keyed::KeyedMap;
use rollback_core::resim::{resimulate_last_n_frames, rollback};
use rollback_core::sync::RollbackRequest;
use rollback_core::tracker::{RollbackTracker, SyncFrameCount, TransformRollback};
use rollback_core::{
    IdPlayerInput, Player, PlayerId, RawPlayerInput, DEFAULT_ROLLBACK_WINDOW,
    FRAME_DURATION_MICROS,
};

fn origin() -> Position {
    Position { x: 0, y: 0, z: 0 }
}

fn gen_transforms() -> KeyedMap<Position> {
    let mut m = KeyedMap::new();
    m.insert(0, origin());
    m.insert(1, origin());
    m.insert(2, origin());
    m
}

fn gen_players() -> KeyedMap<Player> {
    let speed = 1;
    let mut m = KeyedMap::new();
    m.insert(0, Player::new(PlayerId(0)).with_speed(speed));
    m.insert(1, Player::new(PlayerId(1)).with_speed(speed));
    m.insert(2, Player::new(PlayerId(2)).with_speed(speed));
    m
}

/// Three history frames of all-zero positions for owners 0, 1 and 2.
fn gen_transform_rollback() -> TransformRollback {
    let mut tr: TransformRollback = RollbackTracker::new(0, DEFAULT_ROLLBACK_WINDOW);
    for owner in 0..3u64 {
        tr.set_value_at_frame(owner, origin(), 0);
    }
    for frame in 1..=2u64 {
        tr.init_current_frame(frame);
        for owner in 0..3u64 {
            tr.set_value_at_frame(owner, origin(), frame);
        }
    }
    tr
}

/// Owner 0 pressed right two frames back and down one frame back.
fn gen_input_rollback() -> InputRollback {
    let mut ir = InputRollback::from_frame(1);
    ir.accept_input(IdPlayerInput {
        player_id: PlayerId(0),
        input: RawPlayerInput { x: 1, y: 0 }.at_frame(1),
    });
    ir.next_frame(2);
    ir.accept_input(IdPlayerInput {
        player_id: PlayerId(0),
        input: RawPlayerInput { x: 0, y: -1 }.at_frame(2),
    });
    ir
}

#[test]
fn test_resimulate_last_n_frames_simple() {
    // Create test data
    let last_n_frames = 3;

    let mut current_transforms = gen_transforms();
    let current_players = gen_players();

    let mut transform_rollback = gen_transform_rollback();
    let input_rollback = gen_input_rollback();

    // Call the function
    resimulate_last_n_frames(
        last_n_frames,
        &mut current_transforms,
        &current_players,
        &mut transform_rollback,
        &input_rollback,
    );

    // Assert the results
    let dt = FRAME_DURATION_MICROS as i64;
    assert_eq!(current_transforms.get(0), Some(Position { x: dt, y: -dt, z: 0 }));
    assert_eq!(current_transforms.get(1), Some(origin()));
    assert_eq!(current_transforms.get(2), Some(origin()));
}

#[test]
fn resimulation_is_deterministic() {
    let players = gen_players();
    let input_rollback = gen_input_rollback();

    let mut transforms_a = gen_transforms();
    let mut tracker_a = gen_transform_rollback();
    resimulate_last_n_frames(3, &mut transforms_a, &players, &mut tracker_a, &input_rollback);

    let mut transforms_b = gen_transforms();
    let mut tracker_b = gen_transform_rollback();
    resimulate_last_n_frames(3, &mut transforms_b, &players, &mut tracker_b, &input_rollback);

    for owner in 0..3u64 {
        assert_eq!(transforms_a.get(owner), transforms_b.get(owner));
        assert_eq!(tracker_a.get_latest().get(owner), tracker_b.get_latest().get(owner));
    }
    assert_eq!(tracker_a.get_current_frame(), tracker_b.get_current_frame());
}

#[test]
fn rollback_fn_ignores_requests_from_the_future() {
    let mut request = RollbackRequest::new();
    request.request(9);
    let mut transforms = gen_transforms();
    let players = gen_players();
    let mut tracker = gen_transform_rollback();
    let input_rollback = gen_input_rollback();
    let frame = SyncFrameCount::new(2);

    rollback(&mut request, &mut transforms, &players, &mut tracker, &frame, &input_rollback);

    // The too-new target stays pending; nothing moved.
    assert_eq!(request.pending, Some(9));
    assert_eq!(transforms.get(0), Some(origin()));
    assert_eq!(tracker.get_current_frame(), 2);
}

#[test]
fn rollback_fn_discards_a_request_for_the_current_frame() {
    let mut request = RollbackRequest::new();
    request.request(2);
    let mut transforms = gen_transforms();
    let players = gen_players();
    let mut tracker = gen_transform_rollback();
    let input_rollback = gen_input_rollback();
    let frame = SyncFrameCount::new(2);

    rollback(&mut request, &mut transforms, &players, &mut tracker, &frame, &input_rollback);

    assert_eq!(request.pending, None);
    assert_eq!(transforms.get(0), Some(origin()));
}

#[test]
fn rollback_fn_resimulates_an_older_target() {
    let mut request = RollbackRequest::new();
    request.request(0);
    let mut transforms = gen_transforms();
    let players = gen_players();
    let mut tracker = gen_transform_rollback();
    let input_rollback = gen_input_rollback();
    let frame = SyncFrameCount::new(2);

    rollback(&mut request, &mut transforms, &players, &mut tracker, &frame, &input_rollback);

    let dt = FRAME_DURATION_MICROS as i64;
    assert_eq!(request.pending, None);
    assert_eq!(transforms.get(0), Some(Position { x: dt, y: -dt, z: 0 }));
    assert_eq!(transforms.get(1), Some(origin()));
}

#[test]
fn window_bound_write_to_evicted_frame_is_a_no_op() {
    let mut tr: RollbackTracker<Position> = RollbackTracker::new(0, 3);
    for frame in 1..=5u64 {
        tr.init_current_frame(frame);
        tr.set_value_at_frame(7, Position { x: frame as i64, y: 0, z: 0 }, frame);
    }
    // Window of 3: frames 3, 4 and 5 are retained; 2 and older are gone.
    assert_eq!(tr.depth(), 3);
    assert!(tr.get_at_frame(2).is_none());
    assert!(tr.get_at_frame(3).is_some());

    // Writing to an evicted frame changes nothing anywhere.
    tr.set_value_at_frame(7, Position { x: 999, y: 999, z: 999 }, 2);
    assert_eq!(tr.depth(), 3);
    for frame in 3..=5u64 {
        assert_eq!(
            tr.get_at_frame(frame).unwrap().get(7),
            Some(Position { x: frame as i64, y: 0, z: 0 }),
        );
    }
}

#[test]
fn window_bound_read_of_evicted_frame_is_absent() {
    let mut tr: RollbackTracker<Position> = RollbackTracker::new(10, 4);
    for frame in 11..=20u64 {
        tr.init_current_frame(frame);
    }
    assert!(tr.get_at_frame(20).is_some());
    assert!(tr.get_at_frame(17).is_some());
    assert!(tr.get_at_frame(16).is_none());
    assert!(tr.get_n_frames_ago(3).is_some());
    assert!(tr.get_n_frames_ago(4).is_none());
}

#[test]
fn tracker_truncate_rewinds_the_clock() {
    let mut tr: RollbackTracker<Position> = RollbackTracker::new(5, 10);
    for frame in 6..=9u64 {
        tr.init_current_frame(frame);
        tr.set_value_at_frame(1, Position { x: frame as i64, y: 0, z: 0 }, frame);
    }
    assert_eq!(tr.get_current_frame(), 9);
    assert_eq!(tr.depth(), 5);

    tr.delete_n_frames(3);
    assert_eq!(tr.get_current_frame(), 6);
    assert_eq!(tr.depth(), 2);
    assert_eq!(tr.get_latest().get(1), Some(Position { x: 6, y: 0, z: 0 }));
}

#[test]
fn movement_saturates_at_the_edge_of_space() {
    let mut transforms = KeyedMap::new();
    transforms.insert(0, Position { x: i64::MAX - 1, y: i64::MIN + 1, z: 5 });
    let mut players = KeyedMap::new();
    players.insert(0, Player::new(PlayerId(0)).with_speed(u32::MAX));
    let mut input = KeyedMap::new();
    input.insert(0, RawPlayerInput { x: 1, y: -1 });

    rollback_core::game::move_player(&mut transforms, &players, &input);

    let moved = transforms.get(0).unwrap();
    assert_eq!(moved.x, i64::MAX);
    assert_eq!(moved.y, i64::MIN);
    assert_eq!(moved.z, 5);
}

#[test]
fn movement_formula_is_exact() {
    let mut transforms = KeyedMap::new();
    transforms.insert(3, Position { x: 100, y: -200, z: 7 });
    let mut players = KeyedMap::new();
    players.insert(3, Player::new(PlayerId(9)).with_speed(100));
    let mut input = KeyedMap::new();
    input.insert(9, RawPlayerInput { x: -1, y: 1 });

    rollback_core::game::move_player(&mut transforms, &players, &input);

    // delta = direction * speed * tick duration = 1 * 100 * 16667
    let delta = 100 * FRAME_DURATION_MICROS as i64;
    assert_eq!(
        transforms.get(3),
        Some(Position { x: 100 - delta, y: -200 + delta, z: 7 }),
    );
}

#[test]
fn players_without_input_do_not_move() {
    let mut transforms = gen_transforms();
    let players = gen_players();
    let input: KeyedMap<RawPlayerInput> = KeyedMap::new();

    rollback_core::game::move_player(&mut transforms, &players, &input);

    for owner in 0..3u64 {
        assert_eq!(transforms.get(owner), Some(origin()));
    }
}
