//! The deterministic per-frame step: moving every player by its input. This
//! is the pluggable simulation the reconciliation engine replays; it is a
//! pure function of the prior positions, the players and one frame of input.

use vstd::map::*;
use vstd::prelude::*;

use crate::keyed::{lemma_assoc_contains, KeyedMap};
use crate::{Player, RawPlayerInput, FRAME_DURATION_MICROS};

verus! {

/// A point in space, measured in millionths of a world unit.
#[derive(Clone, Copy, Debug, PartialEq, Eq, Structural)]
pub struct Position {
    pub x: i64,
    pub y: i64,
    pub z: i64,
}

impl Default for Position {
    fn default() -> (r: Self)
        ensures
            r == (Position { x: 0, y: 0, z: 0 }),
    {
        Position { x: 0, y: 0, z: 0 }
    }
}

/// Clamps a mathematical integer into the range of `i64`.
pub open spec fn clamp_i64(v: int) -> int {
    if v > i64::MAX {
        i64::MAX as int
    } else if v < i64::MIN {
        i64::MIN as int
    } else {
        v
    }
}

/// Displacement along one axis during one tick: input direction times speed
/// (world units per second) times the tick duration (microseconds), giving
/// millionths of a world unit.
pub open spec fn axis_delta(axis: i8, speed: u32) -> int {
    axis * speed * FRAME_DURATION_MICROS
}

/// Where a player standing at `p` with movement speed `speed` ends up after
/// one tick of input `inp`; coordinates saturate at the range of `i64`.
pub open spec fn moved_position(p: Position, inp: RawPlayerInput, speed: u32) -> Position {
    Position {
        x: clamp_i64(p.x + axis_delta(inp.x, speed)) as i64,
        y: clamp_i64(p.y + axis_delta(inp.y, speed)) as i64,
        z: p.z,
    }
}

/// The positions after one tick: every owner that has a player whose id got
/// an input this frame moves by it; every other position is unchanged.
pub open spec fn moved_positions(
    tfs: Map<u64, Position>,
    players: Map<u64, Player>,
    inputs: Map<u64, RawPlayerInput>,
) -> Map<u64, Position> {
    Map::new(
        |o: u64| tfs.contains_key(o),
        |o: u64|
            if players.contains_key(o) && inputs.contains_key(players[o].id.0) {
                moved_position(tfs[o], inputs[players[o].id.0], players[o].speed)
            } else {
                tfs[o]
            },
    )
}

/// One coordinate of the movement step, saturating at the range of `i64`.
fn move_axis(pos: i64, axis: i8, speed: u32) -> (r: i64)
    ensures
        r as int == clamp_i64(pos + axis_delta(axis, speed)),
{
    let a: i128 = axis as i128;
    let s: i128 = speed as i128;
    let d: i128 = FRAME_DURATION_MICROS as i128;
    proof {
        assert(-10000000000000000 <= a * s * d <= 10000000000000000) by (nonlinear_arith)
            requires
                -128 <= a <= 127,
                0 <= s <= 0xffff_ffff,
                d == 16667,
        ;
    }
    let delta: i128 = a * s * d;
    let sum: i128 = (pos as i128) + delta;
    if sum > i64::MAX as i128 {
        i64::MAX
    } else if sum < i64::MIN as i128 {
        i64::MIN
    } else {
        sum as i64
    }
}

/// Moves every player by this frame's input: the deterministic step function.
/// `transforms` maps owners to positions, `players` maps owners to player
/// attributes, and `input_frame` maps player ids to the frame's raw input.
pub fn move_player(
    transforms: &mut KeyedMap<Position>,
    players: &KeyedMap<Player>,
    input_frame: &KeyedMap<RawPlayerInput>,
)
    requires
        old(transforms).wf(),
        players.wf(),
        input_frame.wf(),
    ensures
        final(transforms).wf(),
        final(transforms)@ =~= moved_positions(old(transforms)@, players@, input_frame@),
{
    let ghost target = moved_positions(transforms@, players@, input_frame@);
    let n = transforms.num_entries();
    let mut out: KeyedMap<Position> = KeyedMap::new();
    let mut i: usize = 0;
    while i < n
        invariant
            n == transforms.entries_view().len(),
            i <= n,
            transforms.wf(),
            players.wf(),
            input_frame.wf(),
            out.wf(),
            target == moved_positions(transforms@, players@, input_frame@),
            forall|j: int|
                0 <= j < i ==> out@.contains_key(#[trigger] transforms.entries_view()[j].0)
                    && out@[transforms.entries_view()[j].0]
                        == target[transforms.entries_view()[j].0],
            forall|k: u64|
                out@.contains_key(k) ==> exists|j: int|
                    0 <= j < i && transforms.entries_view()[j].0 == k,
        decreases n - i,
    {
        let (o, pos) = transforms.entry_at(i);
        let new_pos = match players.get(o) {
            Some(pl) => match input_frame.get(pl.id.0) {
                Some(inp) => Position {
                    x: move_axis(pos.x, inp.x, pl.speed),
                    y: move_axis(pos.y, inp.y, pl.speed),
                    z: pos.z,
                },
                None => pos,
            },
            None => pos,
        };
        proof {
            assert(target.contains_key(o));
            assert(new_pos == target[o]);
        }
        out.insert(o, new_pos);
        i += 1;
    }
    proof {
        assert_maps_equal!(out@, target, k => {
            lemma_assoc_contains(transforms.entries_view(), k);
            if target.dom().contains(k) {
                let j = choose|j: int|
                    0 <= j < transforms.entries_view().len()
                        && transforms.entries_view()[j].0 == k;
                assert(out@.contains_key(transforms.entries_view()[j].0));
            }
            if out@.dom().contains(k) {
                let j = choose|j: int| 0 <= j < i && transforms.entries_view()[j].0 == k;
                assert(transforms.entries_view()[j].0 == k);
                assert(transforms@.contains_key(k));
            }
        });
    }
    *transforms = out;
}

} // verus!
