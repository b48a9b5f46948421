//! Engine-wide laws, each proved from the specifications the executable
//! functions are verified against: determinism of the tick, idempotence of a
//! redundant rollback, the hard bound of the history window, exactly-once
//! delivery of staged input, and the equivalence of a snapshot merge with
//! having known the authoritative state all along.

use vstd::prelude::*;

use crate::engine::{
    input_for_frame, local_rollback, merge_snapshot, sim_frame, sim_frames, tick_model,
    tick_no_sync, lemma_sim_frames_snoc, EngineModel, GameSyncModel, TickError,
};
use crate::game::{moved_positions, Position};
use crate::input::{
    apply_staged, keep_staged, lemma_apply_staged_contains, lemma_keep_staged_partition,
};
use crate::tracker::RollbackTracker;
use crate::{IdPlayerInput, Player, RawPlayerInput};

verus! {

/// Determinism: a tick is a function of the engine state and the drained
/// corrections alone. Two engines in the same state, handed the same
/// corrections, end the tick in the same state with the same outcome — there
/// is no hidden input.
pub proof fn lemma_tick_deterministic(
    m1: EngineModel,
    m2: EngineModel,
    sync1: Option<GameSyncModel>,
    sync2: Option<GameSyncModel>,
    rollback1: Option<int>,
    rollback2: Option<int>,
)
    requires
        m1 == m2,
        sync1 == sync2,
        rollback1 == rollback2,
    ensures
        tick_model(m1, sync1, rollback1) == tick_model(m2, sync2, rollback2),
{
}

/// Determinism of resimulation: replaying any range of frames twice from the
/// same starting state, with the same recorded inputs, yields identical
/// states.
pub proof fn lemma_resimulation_deterministic(
    m1: EngineModel,
    m2: EngineModel,
    from: int,
    count: nat,
)
    requires
        m1 == m2,
    ensures
        sim_frames(m1, from, count) == sim_frames(m2, from, count),
{
}

/// Window bound: a frame older than `current_frame - window + 1` lies outside
/// every possible history, so by the contracts of `set_value_at_frame` and
/// `get_at_frame` a write to it changes nothing and a read of it is absent.
pub proof fn lemma_window_bound<V: Copy>(t: RollbackTracker<V>, frame: u64)
    requires
        t.wf(),
        frame <= t.frame(),
        t.frame() - frame >= t.window(),
    ensures
        t.frame() - frame >= t.hist().len(),
{
}

/// Staging exactly-once: an input staged for a target frame is flushed into
/// the tracker at the advance that reaches that frame and at no other — an
/// advance to any other frame keeps it staged untouched, and the flush that
/// delivers it also removes it from the staging list, so it cannot be
/// delivered twice.
pub proof fn lemma_staging_exactly_once(staged: Seq<IdPlayerInput>, target: u64, other: u64)
    requires
        other != target,
    ensures
        forall|i: int|
            0 <= i < staged.len() && (#[trigger] staged[i]).input.frame == target
                ==> apply_staged(staged, target).contains_key(staged[i].player_id.0),
        forall|i: int|
            0 <= i < staged.len() && (#[trigger] staged[i]).input.frame == target ==> keep_staged(
                staged,
                other,
            ).contains(staged[i]),
        forall|j: int|
            0 <= j < keep_staged(staged, target).len() ==> (#[trigger] keep_staged(
                staged,
                target,
            )[j]).input.frame != target,
{
    assert forall|i: int|
        0 <= i < staged.len() && (#[trigger] staged[i]).input.frame == target implies apply_staged(
        staged,
        target,
    ).contains_key(staged[i].player_id.0) by {
        lemma_apply_staged_contains(staged, target, staged[i].player_id.0);
    }
    lemma_keep_staged_partition(staged, other);
    assert forall|i: int|
        0 <= i < staged.len() && (#[trigger] staged[i]).input.frame == target implies keep_staged(
        staged,
        other,
    ).contains(staged[i]) by {
        assert(staged.contains(staged[i]));
    }
    lemma_keep_staged_partition(staged, target);
}

/// The attribute histories are the captures of an unbroken simulation: each
/// retained slot arose from the one before it by one application of the step
/// function with that frame's recorded input, the players never changed, and
/// the live world matches the newest slot.
pub open spec fn history_consistent(m: EngineModel) -> bool {
    &&& forall|i: int|
        0 <= i < m.t_hist.len() - 1 ==> #[trigger] m.t_hist[i] == moved_positions(
            m.t_hist[i + 1],
            m.world_players,
            input_for_frame(m.in_hist, m.in_frame, m.t_frame - i),
        )
    &&& forall|i: int| 0 <= i < m.p_hist.len() ==> #[trigger] m.p_hist[i] == m.world_players
    &&& m.world_transforms == m.t_hist[0]
}

/// The engine state alignment at the start of a tick, at the model level.
pub open spec fn model_aligned(m: EngineModel) -> bool {
    &&& m.t_frame == m.frame - 1
    &&& m.in_frame == m.frame
    &&& 1 <= m.t_hist.len() <= m.t_window
    &&& m.t_hist.len() == m.p_hist.len()
}

/// The state a rollback restores before resimulating: the world rewound to
/// the slot just before the target frame.
pub open spec fn rolled_back(m: EngineModel, f: int) -> EngineModel {
    let d = m.frame - f;
    EngineModel {
        world_transforms: m.t_hist[d],
        world_players: m.p_hist[d],
        t_hist: m.t_hist.skip(d),
        p_hist: m.p_hist.skip(d),
        t_frame: f - 1,
        ..m
    }
}

/// Resimulating `j` frames from the rolled-back state regenerates, slot for
/// slot, the prefix of the history that the rollback had discarded.
proof fn lemma_resim_reproduces(m: EngineModel, f: int, j: nat)
    requires
        history_consistent(m),
        model_aligned(m),
        0 <= m.frame - f < m.t_hist.len(),
        j <= m.frame - f,
    ensures
        sim_frames(rolled_back(m, f), f, j) == (EngineModel {
            world_transforms: m.t_hist[m.frame - f - j],
            world_players: m.world_players,
            t_hist: m.t_hist.skip(m.frame - f - j),
            p_hist: m.p_hist.skip(m.frame - f - j),
            t_frame: f - 1 + j,
            ..m
        }),
    decreases j,
{
    let d = m.frame - f;
    if j == 0 {
        assert(sim_frames(rolled_back(m, f), f, 0) == rolled_back(m, f));
        assert(m.p_hist[d] == m.world_players);
    } else {
        lemma_resim_reproduces(m, f, (j - 1) as nat);
        lemma_sim_frames_snoc(rolled_back(m, f), f, j);
        let state = EngineModel {
            world_transforms: m.t_hist[d - (j - 1)],
            world_players: m.world_players,
            t_hist: m.t_hist.skip(d - (j - 1)),
            p_hist: m.p_hist.skip(d - (j - 1)),
            t_frame: f - 1 + (j - 1),
            ..m
        };
        let stepped = sim_frame(state, f - 1 + j);
        let i = d - j;
        assert(m.t_hist[i] == moved_positions(
            m.t_hist[i + 1],
            m.world_players,
            input_for_frame(m.in_hist, m.in_frame, m.t_frame - i),
        ));
        assert(m.t_frame - i == f - 1 + j);
        assert(stepped.world_transforms == m.t_hist[i]);
        assert(stepped.t_hist =~= m.t_hist.skip(i));
        assert(m.p_hist[i] == m.world_players);
        assert(stepped.p_hist =~= m.p_hist.skip(i));
    }
}

/// Rollback idempotence: with the input history unchanged, rolling back to
/// any retained frame and resimulating forward lands the tick in exactly the
/// state a plain simulation of the current frame would have produced — the
/// correction machinery alone alters nothing.
pub proof fn lemma_rollback_idempotent(m: EngineModel, f: int)
    requires
        history_consistent(m),
        model_aligned(m),
        0 <= m.frame - f < m.t_hist.len(),
    ensures
        local_rollback(m, f) == sim_frames(m, m.frame, 1),
{
    let d = m.frame - f;
    lemma_resim_reproduces(m, f, d as nat);
    let restored = EngineModel {
        world_transforms: m.t_hist[0],
        world_players: m.world_players,
        t_hist: m.t_hist.skip(0),
        p_hist: m.p_hist.skip(0),
        t_frame: f - 1 + d,
        ..m
    };
    assert(m.t_hist.skip(0) =~= m.t_hist);
    assert(m.p_hist.skip(0) =~= m.p_hist);
    assert(restored == m);
    lemma_sim_frames_snoc(rolled_back(m, f), f, (d + 1) as nat);
    assert(local_rollback(m, f) == sim_frame(m, m.frame));
    assert(sim_frames(m, m.frame, 1) == sim_frames(sim_frame(m, m.frame), m.frame + 1, 0));
}

/// Rollback idempotence at the tick level: a tick that honors a redundant
/// rollback request ends in exactly the state of a tick that received no
/// correction at all.
pub proof fn lemma_redundant_rollback_changes_nothing(m: EngineModel, f: int)
    requires
        history_consistent(m),
        model_aligned(m),
        0 <= m.frame - f < m.t_hist.len(),
        m.frame - f < m.in_hist.len(),
        !(m.in_hist[m.frame - f] =~= Map::<u64, RawPlayerInput>::empty()),
    ensures
        tick_no_sync(m, Some(f)) == tick_no_sync(m, None),
{
    lemma_rollback_idempotent(m, f);
}

/// Plain forward simulation of the live positions, with no history involved.
pub open spec fn forward_positions(
    tfs: Map<u64, Position>,
    players: Map<u64, Player>,
    in_hist: Seq<Map<u64, RawPlayerInput>>,
    in_frame: int,
    from: int,
    count: nat,
) -> Map<u64, Position>
    decreases count,
{
    if count == 0 {
        tfs
    } else {
        forward_positions(
            moved_positions(tfs, players, input_for_frame(in_hist, in_frame, from)),
            players,
            in_hist,
            in_frame,
            from + 1,
            (count - 1) as nat,
        )
    }
}

/// The live world after a simulation run depends only on the starting world
/// and the recorded inputs, never on the histories being captured alongside.
pub proof fn lemma_sim_frames_world(m: EngineModel, from: int, count: nat)
    ensures
        sim_frames(m, from, count).world_transforms == forward_positions(
            m.world_transforms,
            m.world_players,
            m.in_hist,
            m.in_frame,
            from,
            count,
        ),
        sim_frames(m, from, count).world_players == m.world_players,
    decreases count,
{
    if count > 0 {
        lemma_sim_frames_world(sim_frame(m, from), from + 1, (count - 1) as nat);
    }
}

/// Snapshot-merge equivalence: merging an authoritative snapshot for a past
/// frame and resimulating up to the present yields exactly the state that
/// plain forward simulation from the merged state produces — as if the
/// corrected values had been known from the snapshot's frame onward.
pub proof fn lemma_snapshot_merge_equivalence(m: EngineModel, s: GameSyncModel)
    requires
        s.frame <= m.frame,
    ensures
        ({
            let merged = merge_snapshot(m, s);
            let ticked = sim_frames(merged, s.frame + 1, (m.frame - s.frame) as nat);
            &&& ticked.world_transforms == forward_positions(
                merged.world_transforms,
                merged.world_players,
                m.in_hist,
                m.in_frame,
                s.frame + 1,
                (m.frame - s.frame) as nat,
            )
            &&& ticked.world_players == merged.world_players
        }),
{
    let merged = merge_snapshot(m, s);
    assert(merged.in_hist == m.in_hist);
    assert(merged.in_frame == m.in_frame);
    lemma_sim_frames_world(merged, s.frame + 1, (m.frame - s.frame) as nat);
}

/// The same equivalence at the tick level: when an in-window snapshot is
/// pending, the tick leaves the world exactly where forward simulation from
/// the merged authoritative state leaves it, whatever rollback target was
/// pending beside it.
pub proof fn lemma_tick_realizes_merged_forward_sim(
    m: EngineModel,
    s: GameSyncModel,
    rollback: Option<int>,
)
    requires
        s.frame == m.frame || (s.frame < m.frame && m.t_frame - s.frame < m.t_hist.len()),
    ensures
        ({
            let merged = merge_snapshot(m, s);
            let (ticked, err) = tick_model(m, Some(s), rollback);
            &&& err == None::<TickError>
            &&& ticked.world_transforms == forward_positions(
                merged.world_transforms,
                merged.world_players,
                m.in_hist,
                m.in_frame,
                s.frame + 1,
                (m.frame - s.frame) as nat,
            )
            &&& ticked.world_players == merged.world_players
        }),
{
    lemma_snapshot_merge_equivalence(m, s);
}

} // verus!
