//! The reconciliation orchestrator: one pass per tick that decides whether to
//! roll forward to a newer snapshot, roll back and resimulate to a snapshot
//! or to a local target frame, or simulate the current frame plainly; then
//! the frame clock advances by exactly one.
//!
//! The whole tick is modelled by `tick_model`, a specification-level function
//! of the engine state and the drained correction registers; `handle_rollback`
//! is proved to realize it exactly.

use vstd::prelude::*;

use crate::game::{moved_positions, move_player, Position};
use crate::input::{apply_staged, keep_staged, InputRollback};
use crate::keyed::KeyedMap;
use crate::sync::{GameSync, GameSyncRequest, RollbackRequest, ServerEntityMap};
use crate::tracker::{advanced_hist, ComponentRollbacks, SyncFrameCount};
use crate::{Player, RawPlayerInput};

verus! {

/// The live simulation state: current attribute values per owner, plus the
/// counter from which fresh owner identifiers are allocated. The world holds
/// only the *current* value of each attribute; for any other frame the
/// trackers are the source of truth.
#[derive(Debug)]
pub struct GameWorld {
    pub transforms: KeyedMap<Position>,
    pub players: KeyedMap<Player>,
    pub next_owner: u64,
}

impl GameWorld {
    pub open spec fn wf(&self) -> bool {
        &&& self.transforms.wf()
        &&& self.players.wf()
    }

    pub fn new() -> (r: Self)
        ensures
            r.wf(),
            r.transforms@ =~= Map::<u64, Position>::empty(),
            r.players@ =~= Map::<u64, Player>::empty(),
            r.next_owner == 0,
    {
        GameWorld { transforms: KeyedMap::new(), players: KeyedMap::new(), next_owner: 0 }
    }

    /// Materializes a new owner with the given attributes, under a fresh
    /// owner identifier.
    pub fn spawn(&mut self, player: Player, transform: Position) -> (owner: u64)
        requires
            old(self).wf(),
            old(self).next_owner < u64::MAX,
        ensures
            final(self).wf(),
            owner == old(self).next_owner,
            final(self).next_owner == old(self).next_owner + 1,
            final(self).players@ == old(self).players@.insert(owner, player),
            final(self).transforms@ == old(self).transforms@.insert(owner, transform),
    {
        let owner = self.next_owner;
        self.next_owner = self.next_owner + 1;
        self.players.insert(owner, player);
        self.transforms.insert(owner, transform);
        owner
    }

    /// Removes an owner's attributes from the live world.
    pub fn despawn(&mut self, owner: u64)
        requires
            old(self).wf(),
        ensures
            final(self).wf(),
            final(self).next_owner == old(self).next_owner,
            final(self).players@ == old(self).players@.remove(owner),
            final(self).transforms@ == old(self).transforms@.remove(owner),
    {
        let _ = self.players.remove(owner);
        let _ = self.transforms.remove(owner);
    }
}

/// Everything the reconciliation procedure reads and writes, at the
/// specification level. Frame numbers are mathematical integers; executable
/// state keeps them in `u64`.
pub ghost struct EngineModel {
    /// The frame clock.
    pub frame: int,
    pub world_transforms: Map<u64, Position>,
    pub world_players: Map<u64, Player>,
    pub next_owner: int,
    /// Attribute tracker histories, newest slot first, and their frame.
    pub t_hist: Seq<Map<u64, Position>>,
    pub p_hist: Seq<Map<u64, Player>>,
    pub t_frame: int,
    pub t_window: nat,
    /// Input tracker history, its frame, its window, and the staging list.
    pub in_hist: Seq<Map<u64, RawPlayerInput>>,
    pub in_frame: int,
    pub in_window: nat,
    pub staged: Seq<crate::IdPlayerInput>,
    /// The identity bridge: stable object identifier to local owner.
    pub bridge: Map<u64, u64>,
}

/// The engine state as one model value.
pub open spec fn engine_model(
    world: &GameWorld,
    rollbacks: &ComponentRollbacks,
    input_rollback: &InputRollback,
    frame_count: &SyncFrameCount,
    se_map: &ServerEntityMap,
) -> EngineModel {
    EngineModel {
        frame: frame_count.count as int,
        world_transforms: world.transforms@,
        world_players: world.players@,
        next_owner: world.next_owner as int,
        t_hist: rollbacks.transforms.hist(),
        p_hist: rollbacks.players.hist(),
        t_frame: rollbacks.transforms.frame() as int,
        t_window: rollbacks.transforms.window(),
        in_hist: input_rollback.hist(),
        in_frame: input_rollback.frame() as int,
        in_window: input_rollback.window(),
        staged: input_rollback.staged(),
        bridge: se_map.map@,
    }
}

/// Well-formedness of the pieces, and their frame alignment at the start of
/// a tick: the input tracker sits at the clock's frame, the attribute
/// trackers one frame behind (they capture a frame only once it has been
/// simulated).
pub open spec fn engine_wf(
    world: &GameWorld,
    rollbacks: &ComponentRollbacks,
    input_rollback: &InputRollback,
    frame_count: &SyncFrameCount,
    se_map: &ServerEntityMap,
) -> bool {
    &&& world.wf()
    &&& rollbacks.wf()
    &&& input_rollback.wf()
    &&& se_map.wf()
    &&& frame_count.count >= 1
    &&& input_rollback.frame() == frame_count.count
    &&& rollbacks.transforms.frame() == frame_count.count - 1
    &&& rollbacks.players.frame() == frame_count.count - 1
    &&& rollbacks.transforms.window() == rollbacks.players.window()
    &&& rollbacks.transforms.hist().len() == rollbacks.players.hist().len()
}

/// The input the step function reads for frame `f`: the tracker's slot when
/// that frame is retained, and no input at all otherwise.
pub open spec fn input_for_frame(
    in_hist: Seq<Map<u64, RawPlayerInput>>,
    in_frame: int,
    f: int,
) -> Map<u64, RawPlayerInput> {
    if f <= in_frame && in_frame - f < in_hist.len() {
        in_hist[in_frame - f]
    } else {
        Map::empty()
    }
}

/// Simulating frame `f`: the step function moves every player by the input
/// the reconciler holds for `f`, and both attribute trackers capture the
/// resulting state as their slot for `f`.
pub open spec fn sim_frame(m: EngineModel, f: int) -> EngineModel {
    let inp = input_for_frame(m.in_hist, m.in_frame, f);
    let tfs = moved_positions(m.world_transforms, m.world_players, inp);
    EngineModel {
        world_transforms: tfs,
        t_hist: advanced_hist(m.t_hist, tfs, m.t_window),
        p_hist: advanced_hist(m.p_hist, m.world_players, m.t_window),
        t_frame: f,
        ..m
    }
}

/// Simulating `count` consecutive frames starting at `from`.
pub open spec fn sim_frames(m: EngineModel, from: int, count: nat) -> EngineModel
    decreases count,
{
    if count == 0 {
        m
    } else {
        sim_frames(sim_frame(m, from), from + 1, (count - 1) as nat)
    }
}

/// Peeling the last frame off a simulation run.
pub proof fn lemma_sim_frames_snoc(m: EngineModel, from: int, count: nat)
    requires
        count > 0,
    ensures
        sim_frames(m, from, count) == sim_frame(
            sim_frames(m, from, (count - 1) as nat),
            from + count - 1,
        ),
    decreases count,
{
    if count == 1 {
        assert(sim_frames(m, from, 1) == sim_frames(sim_frame(m, from), from + 1, 0));
        assert(sim_frames(m, from, 0nat) == m);
    } else {
        lemma_sim_frames_snoc(sim_frame(m, from), from + 1, (count - 1) as nat);
        assert(sim_frames(m, from, count) == sim_frames(
            sim_frame(m, from),
            from + 1,
            (count - 1) as nat,
        ));
        assert(sim_frames(m, from, (count - 1) as nat) == sim_frames(
            sim_frame(m, from),
            from + 1,
            (count - 2) as nat,
        ));
    }
}

/// Runs the deterministic step function for `frame` on the live world using
/// the reconciler's input for that frame, then records the outcome in both
/// attribute trackers. Executable counterpart of `sim_frame`.
pub fn simulate_and_capture(
    world: &mut GameWorld,
    rollbacks: &mut ComponentRollbacks,
    input_rollback: &InputRollback,
    frame: u64,
)
    requires
        old(world).wf(),
        old(rollbacks).wf(),
        input_rollback.wf(),
        frame == old(rollbacks).transforms.frame() + 1,
        old(rollbacks).players.frame() == old(rollbacks).transforms.frame(),
        frame <= input_rollback.frame(),
    ensures
        final(world).wf(),
        final(rollbacks).wf(),
        final(world).players == old(world).players,
        final(world).next_owner == old(world).next_owner,
        final(world).transforms@ == moved_positions(
            old(world).transforms@,
            old(world).players@,
            input_for_frame(
                input_rollback.hist(),
                input_rollback.frame() as int,
                frame as int,
            ),
        ),
        final(rollbacks).transforms.frame() == frame,
        final(rollbacks).players.frame() == frame,
        final(rollbacks).transforms.window() == old(rollbacks).transforms.window(),
        final(rollbacks).players.window() == old(rollbacks).players.window(),
        final(rollbacks).transforms.hist() == advanced_hist(
            old(rollbacks).transforms.hist(),
            final(world).transforms@,
            old(rollbacks).transforms.window(),
        ),
        final(rollbacks).players.hist() == advanced_hist(
            old(rollbacks).players.hist(),
            old(world).players@,
            old(rollbacks).players.window(),
        ),
{
    let input_frame = match input_rollback.get_at_frame(frame) {
        Some(m) => m.copy_of(),
        None => KeyedMap::new(),
    };
    move_player(&mut world.transforms, &world.players, &input_frame);
    rollbacks.transforms.new_frame_from_values(frame, &world.transforms);
    rollbacks.players.new_frame_from_values(frame, &world.players);
}

/// A correction the tick refuses as a logic error in the surrounding
/// pipeline; the engine state is left untouched.
#[derive(Clone, Copy, Debug, PartialEq, Eq, Structural)]
pub enum TickError {
    /// A rollback was requested to a frame whose input map is empty: nothing
    /// changed at that frame, so there is nothing to resimulate for.
    RollbackWithoutInput(u64),
}

/// Running state of applying one attribute's snapshot entries: the identity
/// bridge, the owner allocator and the attribute map being overwritten.
pub ghost struct ApplyState<V> {
    pub bridge: Map<u64, u64>,
    pub next_owner: int,
    pub attr: Map<u64, V>,
}

/// Folds one attribute's snapshot entries, in order, into an attribute map:
/// each stable identifier resolves through the bridge, or materializes a
/// fresh owner, and its value overwrites the owner's.
pub open spec fn apply_snapshot_entries<V>(
    st: ApplyState<V>,
    entries: Seq<(u64, V)>,
) -> ApplyState<V>
    decreases entries.len(),
{
    if entries.len() == 0 {
        st
    } else {
        let prev = apply_snapshot_entries(st, entries.drop_last());
        let sid = entries.last().0;
        let v = entries.last().1;
        if prev.bridge.contains_key(sid) {
            ApplyState { attr: prev.attr.insert(prev.bridge[sid], v), ..prev }
        } else {
            ApplyState {
                bridge: prev.bridge.insert(sid, prev.next_owner as u64),
                next_owner: prev.next_owner + 1,
                attr: prev.attr.insert(prev.next_owner as u64, v),
            }
        }
    }
}

/// Applying a snapshot allocates at most one owner per entry.
pub proof fn lemma_apply_next_owner_bound<V>(st: ApplyState<V>, entries: Seq<(u64, V)>)
    ensures
        st.next_owner <= apply_snapshot_entries(st, entries).next_owner <= st.next_owner
            + entries.len(),
    decreases entries.len(),
{
    if entries.len() > 0 {
        lemma_apply_next_owner_bound(st, entries.drop_last());
    }
}

/// A snapshot's content at the specification level: its frame and the entry
/// lists of its attribute maps (entry order decides the order in which new
/// owners materialize).
pub ghost struct GameSyncModel {
    pub frame: int,
    pub transforms: Seq<(u64, Position)>,
    pub players: Seq<(u64, Player)>,
}

pub open spec fn sync_model(gs: GameSync) -> GameSyncModel {
    GameSyncModel {
        frame: gs.frame as int,
        transforms: gs.transforms.entries_view(),
        players: gs.players.entries_view(),
    }
}

/// Overwrites one attribute map with a snapshot's entries, materializing
/// owners the bridge does not know yet. Executable counterpart of
/// `apply_snapshot_entries`.
pub(crate) fn apply_snapshot_attr<V: Copy>(
    snapshot: &KeyedMap<V>,
    base: &KeyedMap<V>,
    se_map: &mut ServerEntityMap,
    next_owner: &mut u64,
) -> (merged: KeyedMap<V>)
    requires
        snapshot.wf(),
        base.wf(),
        old(se_map).wf(),
        *old(next_owner) + snapshot.entries_view().len() <= u64::MAX,
    ensures
        merged.wf(),
        final(se_map).wf(),
        ({
            let st = apply_snapshot_entries(
                ApplyState {
                    bridge: old(se_map).map@,
                    next_owner: *old(next_owner) as int,
                    attr: base@,
                },
                snapshot.entries_view(),
            );
            &&& merged@ == st.attr
            &&& final(se_map).map@ == st.bridge
            &&& *final(next_owner) == st.next_owner
        }),
{
    let ghost st0 = ApplyState {
        bridge: se_map.map@,
        next_owner: *next_owner as int,
        attr: base@,
    };
    let mut merged = base.copy_of();
    let n = snapshot.num_entries();
    let mut i: usize = 0;
    while i < n
        invariant
            n == snapshot.entries_view().len(),
            i <= n,
            snapshot.wf(),
            merged.wf(),
            se_map.wf(),
            st0.next_owner + n <= u64::MAX,
            ({
                let st = apply_snapshot_entries(st0, snapshot.entries_view().take(i as int));
                &&& merged@ == st.attr
                &&& se_map.map@ == st.bridge
                &&& *next_owner as int == st.next_owner
                &&& st.next_owner <= st0.next_owner + i
            }),
        decreases n - i,
    {
        proof {
            assert(snapshot.entries_view().take(i + 1).drop_last() =~= snapshot.entries_view()
                .take(i as int));
            assert(snapshot.entries_view().take(i + 1).last() == snapshot.entries_view()[i as int]);
        }
        let (sid, v) = snapshot.entry_at(i);
        let owner = match se_map.get(&crate::ServerObject(sid)) {
            Some(o) => o,
            None => {
                let o = *next_owner;
                *next_owner = o + 1;
                let res = se_map.insert(crate::ServerObject(sid), o);
                proof {
                    assert(res == Ok::<(), ()>(()));
                }
                o
            },
        };
        merged.insert(owner, v);
        i += 1;
    }
    proof {
        assert(snapshot.entries_view().take(n as int) =~= snapshot.entries_view());
    }
    merged
}

/// Merging an authoritative snapshot for a frame at or before the clock:
/// attribute trackers rewind to the snapshot's frame, keeping local values as
/// the base, and the snapshot's entries overwrite them; the world takes the
/// merged state. A snapshot for the clock's own frame starts a fresh slot
/// from the live world instead (that frame has not been simulated yet).
/// Transforms are applied before players; new owners materialize in that
/// order.
pub open spec fn merge_snapshot(m: EngineModel, s: GameSyncModel) -> EngineModel {
    let d = m.t_frame - s.frame;
    let base_t = if s.frame == m.frame {
        m.world_transforms
    } else {
        m.t_hist[d]
    };
    let base_p = if s.frame == m.frame {
        m.world_players
    } else {
        m.p_hist[d]
    };
    let st_t = apply_snapshot_entries(
        ApplyState { bridge: m.bridge, next_owner: m.next_owner, attr: base_t },
        s.transforms,
    );
    let st_p = apply_snapshot_entries(
        ApplyState { bridge: st_t.bridge, next_owner: st_t.next_owner, attr: base_p },
        s.players,
    );
    EngineModel {
        world_transforms: st_t.attr,
        world_players: st_p.attr,
        next_owner: st_p.next_owner,
        bridge: st_p.bridge,
        t_hist: if s.frame == m.frame {
            advanced_hist(m.t_hist, st_t.attr, m.t_window)
        } else {
            m.t_hist.skip(d).update(0, st_t.attr)
        },
        p_hist: if s.frame == m.frame {
            advanced_hist(m.p_hist, st_p.attr, m.t_window)
        } else {
            m.p_hist.skip(d).update(0, st_p.attr)
        },
        t_frame: s.frame,
        ..m
    }
}

/// One advance of the input reconciler: staged inputs whose target is the
/// new frame flush into the new slot.
pub open spec fn advance_input_once(m: EngineModel) -> EngineModel {
    let f = m.in_frame + 1;
    EngineModel {
        in_hist: advanced_hist(m.in_hist, apply_staged(m.staged, f as u64), m.in_window),
        in_frame: f,
        staged: keep_staged(m.staged, f as u64),
        ..m
    }
}

pub open spec fn advance_inputs(m: EngineModel, count: nat) -> EngineModel
    decreases count,
{
    if count == 0 {
        m
    } else {
        advance_inputs(advance_input_once(m), (count - 1) as nat)
    }
}

pub proof fn lemma_advance_inputs_snoc(m: EngineModel, count: nat)
    requires
        count > 0,
    ensures
        advance_inputs(m, count) == advance_input_once(advance_inputs(m, (count - 1) as nat)),
    decreases count,
{
    if count == 1 {
        assert(advance_inputs(m, 1) == advance_inputs(advance_input_once(m), 0));
        assert(advance_inputs(m, 0nat) == m);
    } else {
        lemma_advance_inputs_snoc(advance_input_once(m), (count - 1) as nat);
        assert(advance_inputs(m, count) == advance_inputs(
            advance_input_once(m),
            (count - 1) as nat,
        ));
        assert(advance_inputs(m, (count - 1) as nat) == advance_inputs(
            advance_input_once(m),
            (count - 2) as nat,
        ));
    }
}

/// One advance of the attribute trackers over a frame that was never
/// simulated locally (a roll-forward): the new slot stays empty.
pub open spec fn advance_attrs_once(m: EngineModel) -> EngineModel {
    EngineModel {
        t_hist: advanced_hist(m.t_hist, Map::empty(), m.t_window),
        p_hist: advanced_hist(m.p_hist, Map::empty(), m.t_window),
        t_frame: m.t_frame + 1,
        ..m
    }
}

pub open spec fn advance_attrs_empty(m: EngineModel, count: nat) -> EngineModel
    decreases count,
{
    if count == 0 {
        m
    } else {
        advance_attrs_empty(advance_attrs_once(m), (count - 1) as nat)
    }
}

pub proof fn lemma_advance_attrs_snoc(m: EngineModel, count: nat)
    requires
        count > 0,
    ensures
        advance_attrs_empty(m, count) == advance_attrs_once(
            advance_attrs_empty(m, (count - 1) as nat),
        ),
    decreases count,
{
    if count == 1 {
        assert(advance_attrs_empty(m, 1) == advance_attrs_empty(advance_attrs_once(m), 0));
        assert(advance_attrs_empty(m, 0nat) == m);
    } else {
        lemma_advance_attrs_snoc(advance_attrs_once(m), (count - 1) as nat);
        assert(advance_attrs_empty(m, count) == advance_attrs_empty(
            advance_attrs_once(m),
            (count - 1) as nat,
        ));
        assert(advance_attrs_empty(m, (count - 1) as nat) == advance_attrs_empty(
            advance_attrs_once(m),
            (count - 2) as nat,
        ));
    }
}

/// The local clock is behind network time: advance the input reconciler to
/// one past the snapshot's frame (staged inputs flush along the way), skip
/// the attribute trackers over the gap with empty slots (there was no local
/// state to simulate), overwrite the world from the snapshot, set the clock
/// to the snapshot's frame, and simulate exactly one step to resume cadence.
pub open spec fn roll_forward(m: EngineModel, s: GameSyncModel) -> EngineModel {
    let m1 = advance_inputs(m, (s.frame - m.frame + 1) as nat);
    let m2 = advance_attrs_empty(m1, (s.frame - m.frame) as nat);
    let m3 = merge_snapshot(EngineModel { frame: s.frame, ..m2 }, s);
    EngineModel { frame: s.frame + 1, ..sim_frames(m3, s.frame + 1, 1) }
}

/// A late peer input arrived for `f`: rewind the attribute trackers to the
/// frame before it, restore the world from their now-current slots, and
/// resimulate from `f` through the current frame with the corrected input
/// history.
pub open spec fn local_rollback(m: EngineModel, f: int) -> EngineModel {
    let d = m.frame - f;
    let m1 = EngineModel {
        world_transforms: m.t_hist[d],
        world_players: m.p_hist[d],
        t_hist: m.t_hist.skip(d),
        p_hist: m.p_hist.skip(d),
        t_frame: f - 1,
        ..m
    };
    sim_frames(m1, f, (d + 1) as nat)
}

/// The tick's decision when no snapshot applies: an in-window rollback
/// target with a non-empty input map at that frame resimulates; one with an
/// empty input map is a logic error; anything else (future target, target
/// older than the window) is dropped and the current frame simulates plainly.
pub open spec fn tick_no_sync(m: EngineModel, rollback: Option<int>) -> (EngineModel, Option<
    TickError,
>) {
    match rollback {
        Some(f) => {
            if 0 <= m.frame - f && m.frame - f < m.t_hist.len() && m.frame - f < m.in_hist.len() {
                if m.in_hist[m.frame - f] =~= Map::<u64, RawPlayerInput>::empty() {
                    (m, Some(TickError::RollbackWithoutInput(f as u64)))
                } else {
                    (local_rollback(m, f), None)
                }
            } else {
                (sim_frames(m, m.frame, 1), None)
            }
        },
        None => (sim_frames(m, m.frame, 1), None),
    }
}

/// The whole tick as a function of the engine state and the drained
/// correction registers. A pending snapshot wins over a pending rollback
/// target; a snapshot from after the clock rolls the engine forward, one
/// from the retained window rolls back and resynchronizes, and a stale one
/// is dropped.
pub open spec fn tick_model(
    m: EngineModel,
    sync: Option<GameSyncModel>,
    rollback: Option<int>,
) -> (EngineModel, Option<TickError>) {
    match sync {
        Some(s) => {
            if s.frame > m.frame {
                (roll_forward(m, s), None)
            } else if s.frame == m.frame || m.t_frame - s.frame < m.t_hist.len() {
                (
                    sim_frames(
                        merge_snapshot(m, s),
                        s.frame + 1,
                        (m.frame - s.frame) as nat,
                    ),
                    None,
                )
            } else {
                tick_no_sync(m, rollback)
            }
        },
        None => tick_no_sync(m, rollback),
    }
}

/// The tick's work when no snapshot applies: executable counterpart of
/// `tick_no_sync`. The frame clock and the identity bridge are not touched
/// on this path.
fn tick_without_sync(
    world: &mut GameWorld,
    rollbacks: &mut ComponentRollbacks,
    input_rollback: &InputRollback,
    frame_count: &SyncFrameCount,
    rollback_frame: Option<u64>,
    se_map: &ServerEntityMap,
) -> (r: Result<(), TickError>)
    requires
        old(world).wf(),
        old(rollbacks).wf(),
        input_rollback.wf(),
        se_map.wf(),
        frame_count.count >= 1,
        input_rollback.frame() == frame_count.count,
        old(rollbacks).transforms.frame() == frame_count.count - 1,
        old(rollbacks).players.frame() == frame_count.count - 1,
        old(rollbacks).transforms.window() == old(rollbacks).players.window(),
        old(rollbacks).transforms.hist().len() == old(rollbacks).players.hist().len(),
    ensures
        final(world).wf(),
        final(rollbacks).wf(),
        final(rollbacks).transforms.window() == old(rollbacks).transforms.window(),
        final(rollbacks).players.window() == old(rollbacks).players.window(),
        r is Ok ==> final(rollbacks).transforms.frame() == frame_count.count
            && final(rollbacks).players.frame() == frame_count.count,
        r is Err ==> final(rollbacks).transforms.frame() == frame_count.count - 1
            && final(rollbacks).players.frame() == frame_count.count - 1,
        final(rollbacks).transforms.hist().len() == final(rollbacks).players.hist().len(),
        ({
            let m0 = engine_model(old(world), old(rollbacks), input_rollback, frame_count, se_map);
            let rb = match rollback_frame {
                Some(f) => Some(f as int),
                None => None::<int>,
            };
            let (m1, err) = tick_no_sync(m0, rb);
            &&& engine_model(final(world), final(rollbacks), input_rollback, frame_count, se_map)
                == m1
            &&& match r {
                Ok(()) => err == None::<TickError>,
                Err(e) => err == Some(e),
            }
        }),
{
    let ghost m0 = engine_model(world, rollbacks, input_rollback, frame_count, se_map);
    let frame = frame_count.count();
    let mut validated: Option<u64> = None;
    if let Some(f) = rollback_frame {
        if f <= frame {
            let d = frame - f;
            if d < rollbacks.transforms.depth() as u64 {
                match input_rollback.get_at_frame(f) {
                    Some(inp) => {
                        if inp.is_empty() {
                            return Err(TickError::RollbackWithoutInput(f));
                        }
                        validated = Some(f);
                    },
                    None => {},
                }
            }
        }
    }
    match validated {
        Some(f) => {
            let d = frame - f;
            rollbacks.transforms.delete_n_frames(d);
            rollbacks.players.delete_n_frames(d);
            world.transforms = rollbacks.transforms.get_latest().copy_of();
            world.players = rollbacks.players.get_latest().copy_of();
            let ghost m1 = EngineModel {
                world_transforms: m0.t_hist[d as int],
                world_players: m0.p_hist[d as int],
                t_hist: m0.t_hist.skip(d as int),
                p_hist: m0.p_hist.skip(d as int),
                t_frame: f - 1,
                ..m0
            };
            proof {
                assert(engine_model(world, rollbacks, input_rollback, frame_count, se_map) == m1);
                assert(d + 1 <= frame);
            }
            let count = d + 1;
            let mut j: u64 = 0;
            while j < count
                invariant
                    j <= count,
                    count == d + 1,
                    d == frame - f,
                    f >= 1,
                    f + d == frame,
                    world.wf(),
                    rollbacks.wf(),
                    input_rollback.wf(),
                    input_rollback.frame() == frame,
                    frame == frame_count.count,
                    rollbacks.transforms.frame() == f - 1 + j,
                    rollbacks.players.frame() == f - 1 + j,
                    rollbacks.transforms.window() == old(rollbacks).transforms.window(),
                    rollbacks.players.window() == old(rollbacks).players.window(),
                    rollbacks.transforms.window() == rollbacks.players.window(),
                    rollbacks.transforms.hist().len() == rollbacks.players.hist().len(),
                    engine_model(world, rollbacks, input_rollback, frame_count, se_map)
                        == sim_frames(m1, f as int, j as nat),
                decreases count - j,
            {
                let ghost prev = engine_model(world, rollbacks, input_rollback, frame_count, se_map);
                simulate_and_capture(world, rollbacks, input_rollback, f + j);
                proof {
                    lemma_sim_frames_snoc(m1, f as int, (j + 1) as nat);
                    let next = sim_frame(prev, (f + j) as int);
                    assert(world.transforms@ == next.world_transforms);
                    assert(rollbacks.transforms.hist() == next.t_hist);
                    assert(rollbacks.players.hist() == next.p_hist);
                    assert(engine_model(world, rollbacks, input_rollback, frame_count, se_map)
                        == sim_frames(m1, f as int, (j + 1) as nat));
                }
                j += 1;
            }
            proof {
                assert(tick_no_sync(m0, Some(f as int)).0 == sim_frames(
                    m1,
                    f as int,
                    (d + 1) as nat,
                ));
            }
            Ok(())
        },
        None => {
            simulate_and_capture(world, rollbacks, input_rollback, frame);
            proof {
                assert(sim_frames(m0, frame as int, 1) == sim_frames(
                    sim_frame(m0, frame as int),
                    frame as int + 1,
                    0,
                ));
                assert(engine_model(world, rollbacks, input_rollback, frame_count, se_map)
                    == sim_frames(m0, frame as int, 1));
            }
            Ok(())
        },
    }
}

/// One reconciliation pass: drains both correction registers, then either
/// rolls the engine forward to a snapshot from after the local clock, rolls
/// back and resynchronizes to a snapshot from the retained window, rolls back
/// and resimulates to a local rollback target, or simulates the current frame
/// plainly. Exactly realizes `tick_model`; on an error nothing but the
/// registers has changed.
pub fn handle_rollback(
    world: &mut GameWorld,
    rollbacks: &mut ComponentRollbacks,
    input_rollback: &mut InputRollback,
    frame_count: &mut SyncFrameCount,
    rollback_request: &mut RollbackRequest,
    game_sync_request: &mut GameSyncRequest,
    se_map: &mut ServerEntityMap,
) -> (r: Result<(), TickError>)
    requires
        engine_wf(
            old(world),
            old(rollbacks),
            old(input_rollback),
            old(frame_count),
            old(se_map),
        ),
        old(frame_count).count < u64::MAX,
        match old(game_sync_request).pending {
            Some(gs) => gs.wf() && gs.frame < u64::MAX - 1 && old(world).next_owner
                + gs.transforms.entries_view().len() + gs.players.entries_view().len()
                <= u64::MAX,
            None => true,
        },
    ensures
        final(world).wf(),
        final(rollbacks).wf(),
        final(input_rollback).wf(),
        final(se_map).wf(),
        final(rollback_request).pending == None::<u64>,
        final(game_sync_request).pending == None::<GameSync>,
        final(frame_count).count >= old(frame_count).count,
        final(frame_count).count < u64::MAX,
        final(input_rollback).frame() == final(frame_count).count,
        final(input_rollback).window() == old(input_rollback).window(),
        final(rollbacks).transforms.window() == old(rollbacks).transforms.window(),
        final(rollbacks).players.window() == old(rollbacks).players.window(),
        final(rollbacks).transforms.hist().len() == final(rollbacks).players.hist().len(),
        r is Ok ==> final(rollbacks).transforms.frame() == final(frame_count).count
            && final(rollbacks).players.frame() == final(frame_count).count,
        r is Err ==> final(rollbacks).transforms.frame() == final(frame_count).count - 1
            && final(rollbacks).players.frame() == final(frame_count).count - 1,
        ({
            let m0 = engine_model(
                old(world),
                old(rollbacks),
                old(input_rollback),
                old(frame_count),
                old(se_map),
            );
            let sync0 = match old(game_sync_request).pending {
                Some(gs) => Some(sync_model(gs)),
                None => None::<GameSyncModel>,
            };
            let rb0 = match old(rollback_request).pending {
                Some(f) => Some(f as int),
                None => None::<int>,
            };
            let (m1, err) = tick_model(m0, sync0, rb0);
            &&& engine_model(
                final(world),
                final(rollbacks),
                final(input_rollback),
                final(frame_count),
                final(se_map),
            ) == m1
            &&& match r {
                Ok(()) => err == None::<TickError>,
                Err(e) => err == Some(e),
            }
        }),
{
    let ghost m0 = engine_model(world, rollbacks, input_rollback, frame_count, se_map);
    let game_sync = game_sync_request.take();
    let rollback_frame = rollback_request.take();
    let frame = frame_count.count();

    match game_sync {
        Some(gs) => {
            let ghost s = sync_model(gs);
            if gs.frame > frame {
                // The local clock is behind network time: roll forward.
                let target = gs.frame + 1;
                let mut cur = frame;
                while cur < target
                    invariant
                        frame <= cur <= target,
                        target == gs.frame + 1,
                        gs.frame < u64::MAX,
                        input_rollback.wf(),
                        input_rollback.frame() == cur,
                        input_rollback.window() == old(input_rollback).window(),
                        engine_model(world, rollbacks, input_rollback, frame_count, se_map)
                            == advance_inputs(m0, (cur - frame) as nat),
                    decreases target - cur,
                {
                    let ghost prev = engine_model(
                        world,
                        rollbacks,
                        input_rollback,
                        frame_count,
                        se_map,
                    );
                    input_rollback.next_frame(cur + 1);
                    proof {
                        lemma_advance_inputs_snoc(m0, (cur + 1 - frame) as nat);
                        assert(engine_model(world, rollbacks, input_rollback, frame_count, se_map)
                            == advance_input_once(prev));
                    }
                    cur += 1;
                }
                let ghost m_a = advance_inputs(m0, (gs.frame + 1 - frame) as nat);
                let attr_target = gs.frame - 1;
                let mut curt = frame - 1;
                while curt < attr_target
                    invariant
                        frame - 1 <= curt <= attr_target,
                        attr_target == gs.frame - 1,
                        gs.frame < u64::MAX,
                        rollbacks.wf(),
                        rollbacks.transforms.frame() == curt,
                        rollbacks.players.frame() == curt,
                        rollbacks.transforms.window() == old(rollbacks).transforms.window(),
                        rollbacks.players.window() == old(rollbacks).players.window(),
                        rollbacks.transforms.window() == rollbacks.players.window(),
                        rollbacks.transforms.hist().len() == rollbacks.players.hist().len(),
                        engine_model(world, rollbacks, input_rollback, frame_count, se_map)
                            == advance_attrs_empty(m_a, (curt - (frame - 1)) as nat),
                    decreases attr_target - curt,
                {
                    let ghost prev = engine_model(
                        world,
                        rollbacks,
                        input_rollback,
                        frame_count,
                        se_map,
                    );
                    rollbacks.transforms.init_current_frame(curt + 1);
                    rollbacks.players.init_current_frame(curt + 1);
                    proof {
                        lemma_advance_attrs_snoc(m_a, (curt + 1 - (frame - 1)) as nat);
                        assert(engine_model(world, rollbacks, input_rollback, frame_count, se_map)
                            == advance_attrs_once(prev));
                    }
                    curt += 1;
                }
                let ghost m_b = advance_attrs_empty(m_a, (gs.frame - frame) as nat);
                frame_count.count = gs.frame;
                let ghost m_c = EngineModel { frame: gs.frame as int, ..m_b };
                proof {
                    assert(engine_model(world, rollbacks, input_rollback, frame_count, se_map)
                        == m_c);
                }
                let mut next_owner = world.next_owner;
                let merged_t = apply_snapshot_attr(
                    &gs.transforms,
                    &world.transforms,
                    se_map,
                    &mut next_owner,
                );
                proof {
                    lemma_apply_next_owner_bound(
                        ApplyState {
                            bridge: m_c.bridge,
                            next_owner: m_c.next_owner,
                            attr: m_c.world_transforms,
                        },
                        s.transforms,
                    );
                }
                let merged_p = apply_snapshot_attr(
                    &gs.players,
                    &world.players,
                    se_map,
                    &mut next_owner,
                );
                world.transforms = merged_t;
                world.players = merged_p;
                world.next_owner = next_owner;
                rollbacks.transforms.new_frame_from_values(gs.frame, &world.transforms);
                rollbacks.players.new_frame_from_values(gs.frame, &world.players);
                let ghost m_d = merge_snapshot(m_c, s);
                proof {
                    assert(engine_model(world, rollbacks, input_rollback, frame_count, se_map)
                        == m_d);
                }
                simulate_and_capture(world, rollbacks, input_rollback, gs.frame + 1);
                frame_count.count = gs.frame + 1;
                proof {
                    assert(sim_frames(m_d, gs.frame + 1, 1) == sim_frames(
                        sim_frame(m_d, gs.frame + 1),
                        gs.frame + 2,
                        0,
                    ));
                    assert(engine_model(world, rollbacks, input_rollback, frame_count, se_map)
                        == roll_forward(m0, s));
                }
                Ok(())
            } else {
                let in_window = if gs.frame == frame {
                    true
                } else {
                    (frame - 1) - gs.frame < rollbacks.transforms.depth() as u64
                };
                if in_window {
                    // Roll back to the snapshot's frame and resynchronize.
                    let mut next_owner = world.next_owner;
                    if gs.frame == frame {
                        let merged_t = apply_snapshot_attr(
                            &gs.transforms,
                            &world.transforms,
                            se_map,
                            &mut next_owner,
                        );
                        proof {
                            lemma_apply_next_owner_bound(
                                ApplyState {
                                    bridge: m0.bridge,
                                    next_owner: m0.next_owner,
                                    attr: m0.world_transforms,
                                },
                                s.transforms,
                            );
                        }
                        let merged_p = apply_snapshot_attr(
                            &gs.players,
                            &world.players,
                            se_map,
                            &mut next_owner,
                        );
                        world.transforms = merged_t;
                        world.players = merged_p;
                        world.next_owner = next_owner;
                        rollbacks.transforms.new_frame_from_values(gs.frame, &world.transforms);
                        rollbacks.players.new_frame_from_values(gs.frame, &world.players);
                    } else {
                        let d = (frame - 1) - gs.frame;
                        rollbacks.transforms.delete_n_frames(d);
                        rollbacks.players.delete_n_frames(d);
                        let merged_t = apply_snapshot_attr(
                            &gs.transforms,
                            rollbacks.transforms.get_latest(),
                            se_map,
                            &mut next_owner,
                        );
                        rollbacks.transforms.set_latest_values(&merged_t);
                        proof {
                            lemma_apply_next_owner_bound(
                                ApplyState {
                                    bridge: m0.bridge,
                                    next_owner: m0.next_owner,
                                    attr: m0.t_hist[d as int],
                                },
                                s.transforms,
                            );
                        }
                        let merged_p = apply_snapshot_attr(
                            &gs.players,
                            rollbacks.players.get_latest(),
                            se_map,
                            &mut next_owner,
                        );
                        rollbacks.players.set_latest_values(&merged_p);
                        world.transforms = merged_t;
                        world.players = merged_p;
                        world.next_owner = next_owner;
                    }
                    let ghost m_m = merge_snapshot(m0, s);
                    proof {
                        assert(engine_model(world, rollbacks, input_rollback, frame_count, se_map)
                            == m_m);
                    }
                    let count = frame - gs.frame;
                    let mut j: u64 = 0;
                    while j < count
                        invariant
                            j <= count,
                            count == frame - gs.frame,
                            gs.frame + count == frame,
                            world.wf(),
                            rollbacks.wf(),
                            input_rollback.wf(),
                            input_rollback.frame() == frame,
                            frame == frame_count.count,
                            rollbacks.transforms.frame() == gs.frame + j,
                            rollbacks.players.frame() == gs.frame + j,
                            rollbacks.transforms.window() == old(rollbacks).transforms.window(),
                            rollbacks.players.window() == old(rollbacks).players.window(),
                            rollbacks.transforms.window() == rollbacks.players.window(),
                            rollbacks.transforms.hist().len() == rollbacks.players.hist().len(),
                            engine_model(world, rollbacks, input_rollback, frame_count, se_map)
                                == sim_frames(m_m, gs.frame + 1, j as nat),
                        decreases count - j,
                    {
                        let ghost prev = engine_model(
                            world,
                            rollbacks,
                            input_rollback,
                            frame_count,
                            se_map,
                        );
                        simulate_and_capture(world, rollbacks, input_rollback, gs.frame + 1 + j);
                        proof {
                            lemma_sim_frames_snoc(m_m, gs.frame + 1, (j + 1) as nat);
                            assert(engine_model(
                                world,
                                rollbacks,
                                input_rollback,
                                frame_count,
                                se_map,
                            ) == sim_frame(prev, gs.frame + 1 + j));
                        }
                        j += 1;
                    }
                    Ok(())
                } else {
                    // The snapshot's frame left the window before it arrived:
                    // dropped, the correction is unrecoverable.
                    tick_without_sync(
                        world,
                        rollbacks,
                        input_rollback,
                        frame_count,
                        rollback_frame,
                        se_map,
                    )
                }
            }
        },
        None => tick_without_sync(
            world,
            rollbacks,
            input_rollback,
            frame_count,
            rollback_frame,
            se_map,
        ),
    }
}

/// Advances the frame clock by one tick and flushes any input staged for the
/// frame it now stands on. This runs after `handle_rollback`, completing the
/// tick.
pub fn frame_update(frame_count: &mut SyncFrameCount, input_rollback: &mut InputRollback)
    requires
        old(frame_count).count < u64::MAX,
        old(input_rollback).wf(),
        old(input_rollback).frame() == old(frame_count).count,
    ensures
        final(frame_count).count == old(frame_count).count + 1,
        final(input_rollback).wf(),
        final(input_rollback).frame() == final(frame_count).count,
        final(input_rollback).window() == old(input_rollback).window(),
        final(input_rollback).staged() == keep_staged(
            old(input_rollback).staged(),
            final(frame_count).count,
        ),
        final(input_rollback).hist() == advanced_hist(
            old(input_rollback).hist(),
            apply_staged(old(input_rollback).staged(), final(frame_count).count),
            old(input_rollback).window(),
        ),
{
    frame_count.count = frame_count.count + 1;
    input_rollback.next_frame(frame_count.count());
}

} // verus!
