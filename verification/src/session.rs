//! The decision cores of the client and server message pipelines: collecting
//! local input, stamping and accepting remote input, seeding the clock on
//! first join, granting logins, building and applying full snapshots, and
//! tearing a player down on disconnect. The surrounding transport, keyboard
//! and wall-clock reads live outside the library and hand these functions
//! plain values.

use vstd::prelude::*;

use crate::engine::{apply_snapshot_entries, lemma_apply_next_owner_bound, ApplyState, GameWorld};
use crate::game::Position;
use crate::input::InputRollback;
use crate::keyed::{lemma_assoc_contains, KeyedMap};
use crate::sync::{GameSync, RollbackRequest, ServerEntityMap};
use crate::{
    frames_since_unix_time, IdPlayerInput, Player, PlayerData, PlayerId, PlayerLogin,
    RawPlayerInput, ServerObject, UMFromClient, FRAME_DURATION_MICROS,
};

verus! {

/// The input direction one pair of opposing keys gives: they cancel when
/// both are held.
pub open spec fn axis_of(positive: bool, negative: bool) -> i8 {
    if positive && !negative {
        1i8
    } else if negative && !positive {
        -1i8
    } else {
        0i8
    }
}

/// Turns the four direction keys into one frame's raw input; with no key
/// held there is no input to record or broadcast.
pub fn read_inputs(up: bool, down: bool, left: bool, right: bool) -> (r: Option<RawPlayerInput>)
    ensures
        r == if up || down || left || right {
            Some((RawPlayerInput { x: axis_of(right, left), y: axis_of(up, down) }))
        } else {
            None::<RawPlayerInput>
        },
{
    if up || down || left || right {
        let x: i8 = if right && !left {
            1
        } else if left && !right {
            -1
        } else {
            0
        };
        let y: i8 = if up && !down {
            1
        } else if down && !up {
            -1
        } else {
            0
        };
        Some(RawPlayerInput { x, y })
    } else {
        None
    }
}

/// The message that announces the local player's current-frame input to the
/// server, if the player gave any input this frame.
pub fn broadcast_local_input(input_rollback: &InputRollback, local_player: PlayerId) -> (r: Option<
    UMFromClient,
>)
    requires
        input_rollback.wf(),
    ensures
        match r {
            Some(msg) => input_rollback.hist()[0].contains_key(local_player.0) && msg
                == UMFromClient::PlayerInput(
                crate::FramedPlayerInput {
                    raw: input_rollback.hist()[0][local_player.0],
                    frame: input_rollback.frame(),
                },
            ),
            None => !input_rollback.hist()[0].contains_key(local_player.0),
        },
{
    let latest = input_rollback.get_latest();
    match latest.get(local_player.0) {
        Some(raw) => Some(
            UMFromClient::PlayerInput(raw.at_frame(input_rollback.get_current_frame())),
        ),
        None => None,
    }
}

/// Accepts a remote player's input and records the rollback it calls for:
/// the reconciler stages or writes the input, and the correction register
/// coalesces the target frame.
pub fn accept_remote_input(
    input_rollback: &mut InputRollback,
    rollback_request: &mut RollbackRequest,
    id_input: IdPlayerInput,
)
    requires
        old(input_rollback).wf(),
    ensures
        final(input_rollback).wf(),
        final(input_rollback).frame() == old(input_rollback).frame(),
        final(input_rollback).window() == old(input_rollback).window(),
        id_input.input.frame > old(input_rollback).frame() ==> {
            &&& final(input_rollback).staged() == old(input_rollback).staged().push(id_input)
            &&& final(input_rollback).hist() == old(input_rollback).hist()
        },
        id_input.input.frame <= old(input_rollback).frame() ==> {
            &&& final(input_rollback).staged() == old(input_rollback).staged()
            &&& final(input_rollback).hist() == if old(input_rollback).frame()
                - id_input.input.frame < old(input_rollback).hist().len() {
                old(input_rollback).hist().update(
                    old(input_rollback).frame() - id_input.input.frame,
                    old(input_rollback).hist()[old(input_rollback).frame()
                        - id_input.input.frame].insert(id_input.player_id.0, id_input.input.raw),
                )
            } else {
                old(input_rollback).hist()
            }
        },
        final(rollback_request).pending == match old(rollback_request).pending {
            None => Some(id_input.input.frame),
            Some(p) => Some(
                if id_input.input.frame < p {
                    id_input.input.frame
                } else {
                    p
                },
            ),
        },
{
    input_rollback.accept_input(id_input);
    rollback_request.request(id_input.input.frame);
}

/// The frame a joining client starts on: the snapshot's frame plus the
/// elapsed wall-clock time since the snapshot was taken, rounded to whole
/// ticks, compensating for the one-way network delay before the first
/// roll-forward; saturates at the clock's range.
pub fn initial_frame(sync_frame: u64, sync_unix_micros: u64, now_micros: u64) -> (r: u64)
    ensures
        r as int == ({
            let total = sync_frame + rounded_frames_spec(now_micros, sync_unix_micros);
            if total > u64::MAX {
                u64::MAX as int
            } else {
                total
            }
        }),
{
    let delay: u64 = if now_micros >= sync_unix_micros {
        now_micros - sync_unix_micros
    } else {
        0
    };
    let elapsed: u128 = (delay as u128 + (FRAME_DURATION_MICROS / 2) as u128)
        / FRAME_DURATION_MICROS as u128;
    let total: u128 = sync_frame as u128 + elapsed;
    if total > u64::MAX as u128 {
        u64::MAX
    } else {
        total as u64
    }
}

/// Elapsed ticks between two wall-clock instants, rounded to the nearest
/// whole tick; zero when the instants are reversed.
pub open spec fn rounded_frames_spec(now_micros: u64, unix_time_micros: u64) -> int {
    if now_micros >= unix_time_micros {
        (now_micros - unix_time_micros + FRAME_DURATION_MICROS / 2) / (
        FRAME_DURATION_MICROS as int)
    } else {
        0
    }
}

/// One attribute of a full snapshot: every bridged owner's current value,
/// keyed by its stable identifier.
pub open spec fn snapshot_attr<V>(
    bridge_entries: Seq<(u64, u64)>,
    attr: Map<u64, V>,
) -> Map<u64, V>
    decreases bridge_entries.len(),
{
    if bridge_entries.len() == 0 {
        Map::empty()
    } else {
        let prev = snapshot_attr(bridge_entries.drop_last(), attr);
        let sid = bridge_entries.last().0;
        let owner = bridge_entries.last().1;
        if attr.contains_key(owner) {
            prev.insert(sid, attr[owner])
        } else {
            prev
        }
    }
}

fn collect_snapshot_attr<V: Copy>(se_map: &ServerEntityMap, attr: &KeyedMap<V>) -> (r: KeyedMap<V>)
    requires
        se_map.wf(),
        attr.wf(),
    ensures
        r.wf(),
        r@ == snapshot_attr(se_map.map.entries_view(), attr@),
{
    let n = se_map.map.num_entries();
    let mut out: KeyedMap<V> = KeyedMap::new();
    let mut i: usize = 0;
    while i < n
        invariant
            n == se_map.map.entries_view().len(),
            i <= n,
            se_map.wf(),
            attr.wf(),
            out.wf(),
            out@ == snapshot_attr(se_map.map.entries_view().take(i as int), attr@),
        decreases n - i,
    {
        proof {
            assert(se_map.map.entries_view().take(i + 1).drop_last() =~= se_map.map.entries_view()
                .take(i as int));
            assert(se_map.map.entries_view().take(i + 1).last() == se_map.map.entries_view()[
                i as int
            ]);
        }
        let (sid, owner) = se_map.map.entry_at(i);
        match attr.get(owner) {
            Some(v) => {
                out.insert(sid, v);
            },
            None => {},
        }
        i += 1;
    }
    proof {
        assert(se_map.map.entries_view().take(n as int) =~= se_map.map.entries_view());
    }
    out
}

/// A full authoritative snapshot of the live world at the given frame: every
/// bridged owner's transform and player attributes, keyed by stable
/// identifier.
pub fn make_game_sync(
    world: &GameWorld,
    se_map: &ServerEntityMap,
    frame: u64,
    unix_time_micros: u64,
) -> (gs: GameSync)
    requires
        world.wf(),
        se_map.wf(),
    ensures
        gs.wf(),
        gs.frame == frame,
        gs.unix_time_micros == unix_time_micros,
        gs.transforms@ == snapshot_attr(se_map.map.entries_view(), world.transforms@),
        gs.players@ == snapshot_attr(se_map.map.entries_view(), world.players@),
{
    GameSync {
        frame,
        unix_time_micros,
        transforms: collect_snapshot_attr(se_map, &world.transforms),
        players: collect_snapshot_attr(se_map, &world.players),
    }
}

/// Applies a full snapshot straight to the live world, players first and
/// transforms second, materializing owners the bridge does not know. The
/// engine-integrated path in `handle_rollback` supersedes this for states
/// that must also correct history.
pub fn apply_game_sync(world: &mut GameWorld, sync: &GameSync, se_map: &mut ServerEntityMap)
    requires
        old(world).wf(),
        sync.wf(),
        old(se_map).wf(),
        old(world).next_owner + sync.players.entries_view().len()
            + sync.transforms.entries_view().len() <= u64::MAX,
    ensures
        final(world).wf(),
        final(se_map).wf(),
        ({
            let st_p = apply_snapshot_entries(
                ApplyState {
                    bridge: old(se_map).map@,
                    next_owner: old(world).next_owner as int,
                    attr: old(world).players@,
                },
                sync.players.entries_view(),
            );
            let st_t = apply_snapshot_entries(
                ApplyState {
                    bridge: st_p.bridge,
                    next_owner: st_p.next_owner,
                    attr: old(world).transforms@,
                },
                sync.transforms.entries_view(),
            );
            &&& final(world).players@ == st_p.attr
            &&& final(world).transforms@ == st_t.attr
            &&& final(world).next_owner == st_t.next_owner
            &&& final(se_map).map@ == st_t.bridge
        }),
{
    let mut next_owner = world.next_owner;
    let merged_p = crate::engine::apply_snapshot_attr(
        &sync.players,
        &world.players,
        se_map,
        &mut next_owner,
    );
    proof {
        lemma_apply_next_owner_bound(
            ApplyState {
                bridge: old(se_map).map@,
                next_owner: old(world).next_owner as int,
                attr: old(world).players@,
            },
            sync.players.entries_view(),
        );
    }
    let merged_t = crate::engine::apply_snapshot_attr(
        &sync.transforms,
        &world.transforms,
        se_map,
        &mut next_owner,
    );
    world.players = merged_p;
    world.transforms = merged_t;
    world.next_owner = next_owner;
}

/// What the server decides for one login request.
pub enum LoginResult {
    /// The client already has a player; the request is ignored.
    AlreadyLoggedIn,
    /// The randomly drawn stable identifier collided with an existing one: a
    /// duplicate-spawn would corrupt the identity bridge, so the login is
    /// refused as a logic error.
    DuplicateServerObject,
    /// The player spawned; the grant carries what the server must send.
    Granted(LoginGrant),
}

/// Everything the server hands out for a granted login: the new player's
/// stable identifier and spawn data (to broadcast), and a full snapshot of
/// the world as of the previous frame (to send to the joining client).
pub struct LoginGrant {
    pub server_object: ServerObject,
    pub player_data: PlayerData,
    pub game_sync: GameSync,
}

/// Handles one login request on the server: ignores a client that is already
/// logged in, otherwise spawns a player for it under a freshly drawn stable
/// identifier and snapshots the resulting world for the joining client.
pub fn process_login(
    clients: &mut KeyedMap<u64>,
    client_id: u64,
    login: PlayerLogin,
    world: &mut GameWorld,
    se_map: &mut ServerEntityMap,
    frame: u64,
    unix_time_micros: u64,
) -> (r: LoginResult)
    requires
        old(clients).wf(),
        old(world).wf(),
        old(se_map).wf(),
        old(world).next_owner < u64::MAX,
        frame >= 1,
    ensures
        final(clients).wf(),
        final(world).wf(),
        final(se_map).wf(),
        match r {
            LoginResult::AlreadyLoggedIn => {
                &&& old(clients)@.contains_key(client_id)
                &&& *final(clients) == *old(clients)
                &&& *final(world) == *old(world)
                &&& *final(se_map) == *old(se_map)
            },
            LoginResult::DuplicateServerObject => {
                &&& !old(clients)@.contains_key(client_id)
                &&& *final(clients) == *old(clients)
                &&& *final(world) == *old(world)
                &&& *final(se_map) == *old(se_map)
            },
            LoginResult::Granted(grant) => {
                &&& !old(clients)@.contains_key(client_id)
                &&& !old(se_map).map@.contains_key(grant.server_object.0)
                &&& final(clients)@ == old(clients)@.insert(client_id, login.id.0)
                &&& grant.player_data == (PlayerData {
                    player: Player { id: login.id, speed: crate::DEFAULT_PLAYER_SPEED },
                    transform: Position { x: 0, y: 0, z: 0 },
                })
                &&& final(world).players@ == old(world).players@.insert(
                    old(world).next_owner,
                    grant.player_data.player,
                )
                &&& final(world).transforms@ == old(world).transforms@.insert(
                    old(world).next_owner,
                    grant.player_data.transform,
                )
                &&& final(world).next_owner == old(world).next_owner + 1
                &&& final(se_map).map@ == old(se_map).map@.insert(
                    grant.server_object.0,
                    old(world).next_owner,
                )
                &&& grant.game_sync.wf()
                &&& grant.game_sync.frame == frame - 1
                &&& grant.game_sync.unix_time_micros == unix_time_micros
                &&& grant.game_sync.transforms@ == snapshot_attr(
                    final(se_map).map.entries_view(),
                    final(world).transforms@,
                )
                &&& grant.game_sync.players@ == snapshot_attr(
                    final(se_map).map.entries_view(),
                    final(world).players@,
                )
            },
        },
{
    if clients.contains_key(client_id) {
        return LoginResult::AlreadyLoggedIn;
    }
    let server_object = ServerObject::random_id();
    if se_map.get(&server_object).is_some() {
        return LoginResult::DuplicateServerObject;
    }
    let player = Player::new(login.id);
    let transform = Position { x: 0, y: 0, z: 0 };
    let owner = world.spawn(player, transform);
    let insert_result = se_map.insert(server_object, owner);
    proof {
        assert(insert_result == Ok::<(), ()>(()));
    }
    clients.insert(client_id, login.id.0);
    let game_sync = make_game_sync(world, se_map, frame - 1, unix_time_micros);
    LoginResult::Granted(
        LoginGrant {
            server_object,
            player_data: PlayerData { player, transform },
            game_sync,
        },
    )
}

/// Materializes a remotely connected player on a client: spawns it into the
/// world and bridges its stable identifier. A stable identifier that is
/// already bridged is a duplicate spawn, refused as a logic error. The local
/// player's own announcement changes nothing.
pub fn process_player_connected(
    world: &mut GameWorld,
    se_map: &mut ServerEntityMap,
    player_data: PlayerData,
    server_object: ServerObject,
    local_player: PlayerId,
) -> (r: Result<(), ()>)
    requires
        old(world).wf(),
        old(se_map).wf(),
        old(world).next_owner < u64::MAX,
    ensures
        final(world).wf(),
        final(se_map).wf(),
        player_data.player.id == local_player ==> r == Ok::<(), ()>(()) && *final(world) == *old(
            world,
        ) && *final(se_map) == *old(se_map),
        player_data.player.id != local_player ==> match r {
            Ok(()) => {
                &&& !old(se_map).map@.contains_key(server_object.0)
                &&& final(world).players@ == old(world).players@.insert(
                    old(world).next_owner,
                    player_data.player,
                )
                &&& final(world).transforms@ == old(world).transforms@.insert(
                    old(world).next_owner,
                    player_data.transform,
                )
                &&& final(world).next_owner == old(world).next_owner + 1
                &&& final(se_map).map@ == old(se_map).map@.insert(
                    server_object.0,
                    old(world).next_owner,
                )
            },
            Err(()) => {
                &&& old(se_map).map@.contains_key(server_object.0)
                &&& *final(world) == *old(world)
                &&& *final(se_map) == *old(se_map)
            },
        },
{
    if player_data.player.id.0 == local_player.0 {
        return Ok(());
    }
    if se_map.get(&server_object).is_some() {
        return Err(());
    }
    let owner = world.spawn(player_data.player, player_data.transform);
    let insert_result = se_map.insert(server_object, owner);
    proof {
        assert(insert_result == Ok::<(), ()>(()));
    }
    Ok(())
}


/// The player attributes after every player with the given id has left.
pub open spec fn players_without(players: Map<u64, Player>, pid: PlayerId) -> Map<u64, Player> {
    Map::new(
        |o: u64| players.contains_key(o) && players[o].id != pid,
        |o: u64| players[o],
    )
}

/// The transforms after every owner whose player carries the given id has
/// left.
pub open spec fn transforms_without(
    transforms: Map<u64, Position>,
    players: Map<u64, Player>,
    pid: PlayerId,
) -> Map<u64, Position> {
    Map::new(
        |o: u64| transforms.contains_key(o) && !(players.contains_key(o) && players[o].id == pid),
        |o: u64| transforms[o],
    )
}

/// The identity bridge after every owner whose player carries the given id
/// has been unbridged.
pub open spec fn bridge_without(
    bridge: Map<u64, u64>,
    players: Map<u64, Player>,
    pid: PlayerId,
) -> Map<u64, u64> {
    Map::new(
        |sid: u64| bridge.contains_key(sid) && !(players.contains_key(bridge[sid])
            && players[bridge[sid]].id == pid),
        |sid: u64| bridge[sid],
    )
}

/// Removes every owner whose player carries the given id from the live world
/// and unbridges its stable identifiers. Owner allocation is not rewound:
/// identifiers are never reused.
pub fn despawn_player(world: &mut GameWorld, se_map: &mut ServerEntityMap, player_id: PlayerId)
    requires
        old(world).wf(),
        old(se_map).wf(),
    ensures
        final(world).wf(),
        final(se_map).wf(),
        final(world).next_owner == old(world).next_owner,
        final(world).players@ == players_without(old(world).players@, player_id),
        final(world).transforms@ == transforms_without(
            old(world).transforms@,
            old(world).players@,
            player_id,
        ),
        final(se_map).map@ == bridge_without(
            old(se_map).map@,
            old(world).players@,
            player_id,
        ),
{
    let ghost target_t = transforms_without(world.transforms@, world.players@, player_id);
    let nt = world.transforms.num_entries();
    let mut out_t: KeyedMap<Position> = KeyedMap::new();
    let mut i: usize = 0;
    while i < nt
        invariant
            nt == world.transforms.entries_view().len(),
            i <= nt,
            world.wf(),
            *world == *old(world),
            out_t.wf(),
            target_t == transforms_without(world.transforms@, world.players@, player_id),
            forall|j: int|
                0 <= j < i && target_t.contains_key(
                    (#[trigger] world.transforms.entries_view()[j]).0,
                ) ==> out_t@.contains_key(world.transforms.entries_view()[j].0),
            forall|k: u64|
                #[trigger] out_t@.contains_key(k) ==> target_t.contains_key(k) && out_t@[k]
                    == target_t[k],
        decreases nt - i,
    {
        let (o, tr) = world.transforms.entry_at(i);
        let keep = match world.players.get(o) {
            Some(pl) => pl.id.0 != player_id.0,
            None => true,
        };
        let ghost out0 = out_t@;
        if keep {
            proof {
                assert(target_t.contains_key(o) && target_t[o] == tr);
            }
            out_t.insert(o, tr);
            proof {
                assert forall|k: u64| out_t@.contains_key(k) implies target_t.contains_key(k)
                    && out_t@[k] == target_t[k] by {
                    if k != o {
                        assert(out0.contains_key(k));
                    }
                }
            }
        } else {
            proof {
                assert(!target_t.contains_key(o));
            }
        }
        i += 1;
    }
    proof {
        vstd::map::assert_maps_equal!(out_t@, target_t, k => {
            lemma_assoc_contains(world.transforms.entries_view(), k);
            if target_t.dom().contains(k) {
                let j = choose|j: int|
                    0 <= j < world.transforms.entries_view().len()
                        && world.transforms.entries_view()[j].0 == k;
                assert(world.transforms.entries_view()[j].0 == k);
            }
        });
    }
    let ghost target_b = bridge_without(se_map.map@, world.players@, player_id);
    let nb = se_map.map.num_entries();
    let mut out_b: KeyedMap<u64> = KeyedMap::new();
    let mut ib: usize = 0;
    while ib < nb
        invariant
            nb == se_map.map.entries_view().len(),
            ib <= nb,
            world.wf(),
            *world == *old(world),
            se_map.wf(),
            *se_map == *old(se_map),
            out_b.wf(),
            target_b == bridge_without(se_map.map@, world.players@, player_id),
            forall|j: int|
                0 <= j < ib && target_b.contains_key(
                    (#[trigger] se_map.map.entries_view()[j]).0,
                ) ==> out_b@.contains_key(se_map.map.entries_view()[j].0),
            forall|k: u64|
                #[trigger] out_b@.contains_key(k) ==> target_b.contains_key(k) && out_b@[k]
                    == target_b[k],
        decreases nb - ib,
    {
        let (sid, owner) = se_map.map.entry_at(ib);
        let keep = match world.players.get(owner) {
            Some(pl) => pl.id.0 != player_id.0,
            None => true,
        };
        let ghost out0 = out_b@;
        if keep {
            proof {
                assert(target_b.contains_key(sid) && target_b[sid] == owner);
            }
            out_b.insert(sid, owner);
            proof {
                assert forall|k: u64| out_b@.contains_key(k) implies target_b.contains_key(k)
                    && out_b@[k] == target_b[k] by {
                    if k != sid {
                        assert(out0.contains_key(k));
                    }
                }
            }
        } else {
            proof {
                assert(!target_b.contains_key(sid));
            }
        }
        ib += 1;
    }
    proof {
        vstd::map::assert_maps_equal!(out_b@, target_b, k => {
            lemma_assoc_contains(se_map.map.entries_view(), k);
            if target_b.dom().contains(k) {
                let j = choose|j: int|
                    0 <= j < se_map.map.entries_view().len()
                        && se_map.map.entries_view()[j].0 == k;
                assert(se_map.map.entries_view()[j].0 == k);
            }
        });
    }
    let ghost target_p = players_without(world.players@, player_id);
    let np = world.players.num_entries();
    let mut out_p: KeyedMap<Player> = KeyedMap::new();
    let mut ip: usize = 0;
    while ip < np
        invariant
            np == world.players.entries_view().len(),
            ip <= np,
            world.wf(),
            *world == *old(world),
            out_p.wf(),
            target_p == players_without(world.players@, player_id),
            forall|j: int|
                0 <= j < ip && target_p.contains_key(
                    (#[trigger] world.players.entries_view()[j]).0,
                ) ==> out_p@.contains_key(world.players.entries_view()[j].0),
            forall|k: u64|
                #[trigger] out_p@.contains_key(k) ==> target_p.contains_key(k) && out_p@[k]
                    == target_p[k],
        decreases np - ip,
    {
        let (o, pl) = world.players.entry_at(ip);
        let ghost out0 = out_p@;
        if pl.id.0 != player_id.0 {
            proof {
                assert(target_p.contains_key(o) && target_p[o] == pl);
            }
            out_p.insert(o, pl);
            proof {
                assert forall|k: u64| out_p@.contains_key(k) implies target_p.contains_key(k)
                    && out_p@[k] == target_p[k] by {
                    if k != o {
                        assert(out0.contains_key(k));
                    }
                }
            }
        } else {
            proof {
                assert(!target_p.contains_key(o));
            }
        }
        ip += 1;
    }
    proof {
        vstd::map::assert_maps_equal!(out_p@, target_p, k => {
            lemma_assoc_contains(world.players.entries_view(), k);
            if target_p.dom().contains(k) {
                let j = choose|j: int|
                    0 <= j < world.players.entries_view().len()
                        && world.players.entries_view()[j].0 == k;
                assert(world.players.entries_view()[j].0 == k);
            }
        });
    }
    world.transforms = out_t;
    world.players = out_p;
    se_map.map = out_b;
}

/// Handles one client disconnect on the server: forgets the client, despawns
/// its player everywhere, and says which player left so it can be announced;
/// a client that never logged in changes nothing.
pub fn process_disconnect(
    clients: &mut KeyedMap<u64>,
    client_id: u64,
    world: &mut GameWorld,
    se_map: &mut ServerEntityMap,
) -> (r: Option<PlayerId>)
    requires
        old(clients).wf(),
        old(world).wf(),
        old(se_map).wf(),
    ensures
        final(clients).wf(),
        final(world).wf(),
        final(se_map).wf(),
        match r {
            None => {
                &&& !old(clients)@.contains_key(client_id)
                &&& final(clients)@ == old(clients)@
                &&& *final(world) == *old(world)
                &&& *final(se_map) == *old(se_map)
            },
            Some(pid) => {
                &&& old(clients)@.contains_key(client_id)
                &&& pid.0 == old(clients)@[client_id]
                &&& final(clients)@ == old(clients)@.remove(client_id)
                &&& final(world).next_owner == old(world).next_owner
                &&& final(world).players@ == players_without(old(world).players@, pid)
                &&& final(world).transforms@ == transforms_without(
                    old(world).transforms@,
                    old(world).players@,
                    pid,
                )
                &&& final(se_map).map@ == bridge_without(
                    old(se_map).map@,
                    old(world).players@,
                    pid,
                )
            },
        },
{
    match clients.remove(client_id) {
        None => {
            proof {
                assert(clients@ =~= old(clients)@);
            }
            None
        },
        Some(pid_raw) => {
            let pid = PlayerId(pid_raw);
            despawn_player(world, se_map, pid);
            Some(pid)
        },
    }
}

} // verus!
