//! Direct resimulation over a window of recent frames: rewinds the transform
//! history, then replays the deterministic step function with the input
//! recorded for each frame, and writes the corrected positions back into the
//! live world. Frames whose input is no longer retained replay with no input.

use vstd::prelude::*;

use crate::game::{moved_positions, move_player, Position};
use crate::input::InputRollback;
use crate::keyed::{lemma_assoc_contains, KeyedMap};
use crate::sync::RollbackRequest;
use crate::tracker::{SyncFrameCount, TransformRollback};
use crate::{Player, RawPlayerInput};

verus! {

/// Applies one recorded input map per step, in sequence order, to a base
/// position map.
pub open spec fn apply_inputs_seq(
    base: Map<u64, Position>,
    players: Map<u64, Player>,
    inputs: Seq<Map<u64, RawPlayerInput>>,
) -> Map<u64, Position>
    decreases inputs.len(),
{
    if inputs.len() == 0 {
        base
    } else {
        moved_positions(apply_inputs_seq(base, players, inputs.drop_last()), players, inputs.last())
    }
}

/// The input map recorded `d` frames ago, or no input once evicted.
pub open spec fn input_n_ago(
    in_hist: Seq<Map<u64, RawPlayerInput>>,
    d: int,
) -> Map<u64, RawPlayerInput> {
    if 0 <= d < in_hist.len() {
        in_hist[d]
    } else {
        Map::empty()
    }
}

/// The inputs a resimulation of the last `n` frames replays, oldest first:
/// distances `n` down to `0`.
pub open spec fn resim_inputs(
    in_hist: Seq<Map<u64, RawPlayerInput>>,
    n: nat,
) -> Seq<Map<u64, RawPlayerInput>> {
    Seq::new(n + 1, |i: int| input_n_ago(in_hist, n - i))
}

/// Positions after rewinding `n` frames to `base` and replaying the recorded
/// inputs forward.
pub open spec fn resim_positions(
    base: Map<u64, Position>,
    players: Map<u64, Player>,
    in_hist: Seq<Map<u64, RawPlayerInput>>,
    n: nat,
) -> Map<u64, Position> {
    apply_inputs_seq(base, players, resim_inputs(in_hist, n))
}

/// Rewinds the transform history by up to `last_n_frames` (always keeping at
/// least one slot), replays the step function over the recorded inputs, and
/// overwrites every still-live owner's position with the corrected one.
/// Owners absent from the rewound history keep their current position.
pub fn resimulate_last_n_frames(
    last_n_frames: u64,
    current_transforms: &mut KeyedMap<Position>,
    current_players: &KeyedMap<Player>,
    transform_rollback: &mut TransformRollback,
    input_rollback: &InputRollback,
)
    requires
        old(current_transforms).wf(),
        current_players.wf(),
        old(transform_rollback).wf(),
        input_rollback.wf(),
        last_n_frames < u64::MAX,
    ensures
        final(current_transforms).wf(),
        final(transform_rollback).wf(),
        ({
            let back = if last_n_frames < old(transform_rollback).hist().len() {
                last_n_frames as int
            } else {
                old(transform_rollback).hist().len() - 1
            };
            let resim = resim_positions(
                old(transform_rollback).hist()[back],
                current_players@,
                input_rollback.hist(),
                last_n_frames as nat,
            );
            &&& final(transform_rollback).hist() == old(transform_rollback).hist().skip(back)
            &&& final(transform_rollback).frame() == old(transform_rollback).frame() - back
            &&& final(transform_rollback).window() == old(transform_rollback).window()
            &&& final(current_transforms)@ == Map::new(
                |k: u64| old(current_transforms)@.contains_key(k),
                |k: u64|
                    if resim.contains_key(k) {
                        resim[k]
                    } else {
                        old(current_transforms)@[k]
                    },
            )
        }),
{
    let depth = transform_rollback.depth() as u64;
    let back = if last_n_frames < depth {
        last_n_frames
    } else {
        depth - 1
    };
    transform_rollback.delete_n_frames(back);
    let mut sim = transform_rollback.get_latest().copy_of();
    let ghost base = sim@;
    let ghost inputs = resim_inputs(input_rollback.hist(), last_n_frames as nat);
    let n = last_n_frames;
    let mut i: u64 = 0;
    while i <= n
        invariant
            i <= n + 1,
            n < u64::MAX,
            inputs == resim_inputs(input_rollback.hist(), n as nat),
            current_players.wf(),
            input_rollback.wf(),
            sim.wf(),
            sim@ == apply_inputs_seq(base, current_players@, inputs.take(i as int)),
        decreases n + 1 - i,
    {
        let d = n - i;
        let frame_input = match input_rollback.get_n_frames_ago(d) {
            Some(m) => m.copy_of(),
            None => KeyedMap::new(),
        };
        proof {
            assert(frame_input@ =~= input_n_ago(input_rollback.hist(), d as int));
            assert(inputs.take(i + 1).drop_last() =~= inputs.take(i as int));
            assert(inputs.take(i + 1).last() == inputs[i as int]);
        }
        move_player(&mut sim, current_players, &frame_input);
        i += 1;
    }
    proof {
        assert(inputs.take(n + 1) =~= inputs);
    }
    let ghost resim = sim@;
    let ghost target = Map::new(
        |k: u64| old(current_transforms)@.contains_key(k),
        |k: u64|
            if resim.contains_key(k) {
                resim[k]
            } else {
                old(current_transforms)@[k]
            },
    );
    let m = current_transforms.num_entries();
    let mut out: KeyedMap<Position> = KeyedMap::new();
    let mut j: usize = 0;
    while j < m
        invariant
            m == current_transforms.entries_view().len(),
            j <= m,
            current_transforms.wf(),
            current_transforms == old(current_transforms),
            sim.wf(),
            sim@ == resim,
            out.wf(),
            target == Map::new(
                |k: u64| old(current_transforms)@.contains_key(k),
                |k: u64|
                    if resim.contains_key(k) {
                        resim[k]
                    } else {
                        old(current_transforms)@[k]
                    },
            ),
            forall|p: int|
                0 <= p < j ==> out@.contains_key(
                    #[trigger] current_transforms.entries_view()[p].0,
                ) && out@[current_transforms.entries_view()[p].0] == target[current_transforms
                    .entries_view()[p].0],
            forall|k: u64|
                out@.contains_key(k) ==> exists|p: int|
                    0 <= p < j && current_transforms.entries_view()[p].0 == k,
        decreases m - j,
    {
        let (k, v) = current_transforms.entry_at(j);
        let nv = match sim.get(k) {
            Some(corrected) => corrected,
            None => v,
        };
        proof {
            assert(target.contains_key(k));
            assert(nv == target[k]);
        }
        out.insert(k, nv);
        j += 1;
    }
    proof {
        vstd::map::assert_maps_equal!(out@, target, k => {
            lemma_assoc_contains(current_transforms.entries_view(), k);
            if target.dom().contains(k) {
                let p = choose|p: int|
                    0 <= p < current_transforms.entries_view().len()
                        && current_transforms.entries_view()[p].0 == k;
                assert(out@.contains_key(current_transforms.entries_view()[p].0));
            }
            if out@.dom().contains(k) {
                let p = choose|p: int| 0 <= p < j && current_transforms.entries_view()[p].0 == k;
                assert(current_transforms.entries_view()[p].0 == k);
                assert(current_transforms@.contains_key(k));
            }
        });
    }
    *current_transforms = out;
}

/// Handles a drained rollback request against the live world: a target after
/// the current frame stays pending and nothing changes; a target at the
/// current frame is redundant and is discarded; an older target rewinds and
/// resimulates the missing frames, then the request is cleared.
pub fn rollback(
    request: &mut RollbackRequest,
    current_transforms: &mut KeyedMap<Position>,
    current_players: &KeyedMap<Player>,
    transform_rollback: &mut TransformRollback,
    frame: &SyncFrameCount,
    input_rollback: &InputRollback,
)
    requires
        old(request).pending matches Some(f) ==> f <= frame.count ==> frame.count - f
            < u64::MAX,
        old(current_transforms).wf(),
        current_players.wf(),
        old(transform_rollback).wf(),
        input_rollback.wf(),
    ensures
        final(current_transforms).wf(),
        final(transform_rollback).wf(),
        match old(request).pending {
            None => {
                &&& final(request).pending == None::<u64>
                &&& *final(current_transforms) == *old(current_transforms)
                &&& *final(transform_rollback) == *old(transform_rollback)
            },
            Some(f) => {
                if f > frame.count {
                    &&& final(request).pending == Some(f)
                    &&& *final(current_transforms) == *old(current_transforms)
                    &&& *final(transform_rollback) == *old(transform_rollback)
                } else if f == frame.count {
                    &&& final(request).pending == None::<u64>
                    &&& *final(current_transforms) == *old(current_transforms)
                    &&& *final(transform_rollback) == *old(transform_rollback)
                } else {
                    let n = frame.count - f;
                    let back = if n < old(transform_rollback).hist().len() {
                        n as int
                    } else {
                        old(transform_rollback).hist().len() - 1
                    };
                    let resim = resim_positions(
                        old(transform_rollback).hist()[back],
                        current_players@,
                        input_rollback.hist(),
                        n as nat,
                    );
                    &&& final(request).pending == None::<u64>
                    &&& final(transform_rollback).hist() == old(transform_rollback).hist().skip(
                        back,
                    )
                    &&& final(transform_rollback).frame() == old(transform_rollback).frame() - back
                    &&& final(current_transforms)@ == Map::new(
                        |k: u64| old(current_transforms)@.contains_key(k),
                        |k: u64|
                            if resim.contains_key(k) {
                                resim[k]
                            } else {
                                old(current_transforms)@[k]
                            },
                    )
                }
            },
        },
{
    let pending = match request.pending {
        Some(f) => f,
        None => {
            return;
        },
    };
    if pending > frame.count() {
        return;
    }
    let frames = frame.count() - pending;
    if frames == 0 {
        let _ = request.take();
        return;
    }
    resimulate_last_n_frames(
        frames,
        current_transforms,
        current_players,
        transform_rollback,
        input_rollback,
    );
    let _ = request.take();
}

} // verus!
