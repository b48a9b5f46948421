//! The input reconciler: a history tracker of per-player raw input plus a
//! staging list for inputs that target a frame not yet reached. On every
//! frame advance, staged inputs whose target equals the new current frame are
//! flushed into the tracker; inputs further out remain staged. An input is
//! applied exactly once: at the tick where the clock reaches its target
//! frame, not before and never twice.

use vstd::prelude::*;

use crate::keyed::KeyedMap;
use crate::tracker::{advanced_hist, RollbackTracker, SyncFrameCount};
use crate::{IdPlayerInput, RawPlayerInput, DEFAULT_ROLLBACK_WINDOW};

verus! {

/// The input map that flushing the staging list into an empty slot for
/// `frame` produces: inserts of every entry targeting `frame`, in staging
/// order (a later entry for the same player wins).
pub open spec fn apply_staged(staged: Seq<IdPlayerInput>, frame: u64) -> Map<u64, RawPlayerInput>
    decreases staged.len(),
{
    if staged.len() == 0 {
        Map::empty()
    } else {
        let prev = apply_staged(staged.drop_last(), frame);
        if staged.last().input.frame == frame {
            prev.insert(staged.last().player_id.0, staged.last().input.raw)
        } else {
            prev
        }
    }
}

/// The staging list after flushing for `frame`: entries targeting `frame`
/// leave, every other entry stays, in order.
pub open spec fn keep_staged(staged: Seq<IdPlayerInput>, frame: u64) -> Seq<IdPlayerInput>
    decreases staged.len(),
{
    if staged.len() == 0 {
        Seq::empty()
    } else {
        let prev = keep_staged(staged.drop_last(), frame);
        if staged.last().input.frame == frame {
            prev
        } else {
            prev.push(staged.last())
        }
    }
}

/// A staged input is flushed exactly at its own target frame: the flush for
/// `frame` delivers precisely the players that staged an input for `frame`.
pub proof fn lemma_apply_staged_contains(staged: Seq<IdPlayerInput>, frame: u64, k: u64)
    ensures
        apply_staged(staged, frame).contains_key(k) <==> exists|i: int|
            0 <= i < staged.len() && staged[i].input.frame == frame && staged[i].player_id.0 == k,
    decreases staged.len(),
{
    if staged.len() > 0 {
        lemma_apply_staged_contains(staged.drop_last(), frame, k);
        let last = staged.last();
        if last.input.frame == frame && last.player_id.0 == k {
            assert(staged[staged.len() - 1].input.frame == frame);
        } else if apply_staged(staged, frame).contains_key(k) {
            let i = choose|i: int|
                0 <= i < staged.drop_last().len() && staged.drop_last()[i].input.frame == frame
                    && staged.drop_last()[i].player_id.0 == k;
            assert(staged[i].input.frame == frame && staged[i].player_id.0 == k);
        } else if exists|i: int|
            0 <= i < staged.len() && staged[i].input.frame == frame && staged[i].player_id.0
                == k {
            let i = choose|i: int|
                0 <= i < staged.len() && staged[i].input.frame == frame && staged[i].player_id.0
                    == k;
            assert(staged.drop_last()[i].input.frame == frame);
        }
    }
}

/// Nothing that leaves the staging list at a flush targets a later flush:
/// after flushing for `frame`, no staged entry for `frame` remains, and every
/// entry for another frame is still staged.
pub proof fn lemma_keep_staged_partition(staged: Seq<IdPlayerInput>, frame: u64)
    ensures
        forall|j: int|
            0 <= j < keep_staged(staged, frame).len()
                ==> (#[trigger] keep_staged(staged, frame)[j]).input.frame != frame,
        forall|e: IdPlayerInput|
            staged.contains(e) && e.input.frame != frame ==> keep_staged(staged, frame).contains(
                e,
            ),
        forall|e: IdPlayerInput| keep_staged(staged, frame).contains(e) ==> staged.contains(e),
    decreases staged.len(),
{
    if staged.len() > 0 {
        lemma_keep_staged_partition(staged.drop_last(), frame);
        assert forall|e: IdPlayerInput| staged.contains(e) && e.input.frame != frame implies
            keep_staged(staged, frame).contains(e) by {
            let i = choose|i: int| 0 <= i < staged.len() && staged[i] == e;
            if i < staged.len() - 1 {
                assert(staged.drop_last()[i] == e);
                assert(staged.drop_last().contains(e));
                let j = choose|j: int|
                    0 <= j < keep_staged(staged.drop_last(), frame).len() && keep_staged(
                        staged.drop_last(),
                        frame,
                    )[j] == e;
                assert(keep_staged(staged, frame)[j] == e);
            } else {
                let kl = keep_staged(staged, frame);
                assert(kl[kl.len() - 1] == e);
            }
        }
        assert forall|e: IdPlayerInput| keep_staged(staged, frame).contains(e) implies
            staged.contains(e) by {
            let kl = keep_staged(staged, frame);
            let j = choose|j: int| 0 <= j < kl.len() && kl[j] == e;
            let prev = keep_staged(staged.drop_last(), frame);
            if j < prev.len() {
                assert(prev[j] == e);
                assert(prev.contains(e));
                assert(staged.drop_last().contains(e));
                let i = choose|i: int|
                    0 <= i < staged.drop_last().len() && staged.drop_last()[i] == e;
                assert(staged.drop_last()[i] == staged[i]);
                assert(staged[i] == e);
            } else {
                assert(e == staged.last());
                assert(staged[staged.len() - 1] == e);
            }
        }
    }
}

/// The input reconciler: per-player input history plus the staging list for
/// inputs from the future.
#[derive(Debug)]
pub struct InputRollback {
    pub tracker: RollbackTracker<RawPlayerInput>,
    pub future_frames: Vec<IdPlayerInput>,
}

impl InputRollback {
    pub open spec fn hist(&self) -> Seq<Map<u64, RawPlayerInput>> {
        self.tracker.hist()
    }

    pub open spec fn frame(&self) -> u64 {
        self.tracker.frame()
    }

    pub open spec fn window(&self) -> nat {
        self.tracker.window()
    }

    pub open spec fn staged(&self) -> Seq<IdPlayerInput> {
        self.future_frames@
    }

    pub open spec fn wf(&self) -> bool {
        &&& self.tracker.wf()
        &&& forall|i: int|
            0 <= i < self.future_frames@.len()
                ==> (#[trigger] self.future_frames@[i]).input.frame > self.tracker.frame()
    }

    /// A fresh reconciler at `frame` with the default window, empty history
    /// and nothing staged.
    pub fn from_frame(frame: u64) -> (r: Self)
        ensures
            r.wf(),
            r.frame() == frame,
            r.window() == DEFAULT_ROLLBACK_WINDOW,
            r.hist() == seq![Map::<u64, RawPlayerInput>::empty()],
            r.staged() == Seq::<IdPlayerInput>::empty(),
    {
        InputRollback {
            tracker: RollbackTracker::new(frame, DEFAULT_ROLLBACK_WINDOW),
            future_frames: Vec::new(),
        }
    }

    /// Accepts one identified input. An input targeting a future frame is
    /// staged, never written; one targeting the current frame or earlier is
    /// written into its slot, and dropped when that slot has been evicted.
    pub fn accept_input(&mut self, input: IdPlayerInput)
        requires
            old(self).wf(),
        ensures
            final(self).wf(),
            final(self).frame() == old(self).frame(),
            final(self).window() == old(self).window(),
            input.input.frame > old(self).frame() ==> {
                &&& final(self).staged() == old(self).staged().push(input)
                &&& final(self).hist() == old(self).hist()
            },
            input.input.frame <= old(self).frame() ==> {
                &&& final(self).staged() == old(self).staged()
                &&& final(self).hist() == if old(self).frame() - input.input.frame < old(
                    self,
                ).hist().len() {
                    old(self).hist().update(
                        old(self).frame() - input.input.frame,
                        old(self).hist()[old(self).frame() - input.input.frame].insert(
                            input.player_id.0,
                            input.input.raw,
                        ),
                    )
                } else {
                    old(self).hist()
                }
            },
    {
        if input.input.frame > self.tracker.get_current_frame() {
            self.future_frames.push(input);
        } else {
            self.tracker.set_value_at_frame(input.player_id.0, input.input.raw, input.input.frame);
        }
    }

    /// Advances the reconciler to the next frame (which must be exactly one
    /// ahead): pushes a new slot holding precisely the staged inputs whose
    /// target is the new frame, and unstages them.
    pub fn next_frame(&mut self, next: u64)
        requires
            old(self).wf(),
            next == old(self).frame() + 1,
        ensures
            final(self).wf(),
            final(self).frame() == next,
            final(self).window() == old(self).window(),
            final(self).staged() == keep_staged(old(self).staged(), next),
            final(self).hist() == advanced_hist(
                old(self).hist(),
                apply_staged(old(self).staged(), next),
                old(self).window(),
            ),
    {
        self.tracker.init_current_frame(next);
        let ghost base = self.tracker.hist();
        let ghost staged0 = self.future_frames@;
        let n = self.future_frames.len();
        let mut kept: Vec<IdPlayerInput> = Vec::new();
        let mut i: usize = 0;
        while i < n
            invariant
                n == self.future_frames@.len(),
                i <= n,
                self.future_frames@ == staged0,
                self.tracker.wf(),
                self.tracker.frame() == next,
                self.tracker.window() == old(self).window(),
                base == advanced_hist(
                    old(self).hist(),
                    Map::<u64, RawPlayerInput>::empty(),
                    old(self).window(),
                ),
                base.len() == self.tracker.hist().len(),
                self.tracker.hist() =~= base.update(
                    0,
                    apply_staged(staged0.take(i as int), next),
                ),
                kept@ == keep_staged(staged0.take(i as int), next),
            decreases n - i,
        {
            let entry = self.future_frames[i];
            proof {
                assert(staged0.take(i + 1).drop_last() =~= staged0.take(i as int));
                assert(staged0.take(i + 1).last() == entry);
            }
            if entry.input.frame == next {
                let ghost h0 = self.tracker.hist();
                self.tracker.set_value_at_frame(entry.player_id.0, entry.input.raw, next);
                proof {
                    assert(self.tracker.hist() =~= base.update(
                        0,
                        apply_staged(staged0.take(i + 1), next),
                    ));
                }
            } else {
                kept.push(entry);
            }
            i += 1;
        }
        proof {
            assert(staged0.take(n as int) =~= staged0);
        }
        self.future_frames = kept;
        proof {
            assert(self.hist() =~= advanced_hist(
                old(self).hist(),
                apply_staged(staged0, next),
                old(self).window(),
            ));
            lemma_keep_staged_partition(staged0, next);
            assert forall|j: int| 0 <= j < self.future_frames@.len() implies (#[trigger]
            self.future_frames@[j]).input.frame > self.tracker.frame() by {
                let e = self.future_frames@[j];
                assert(keep_staged(staged0, next).contains(e));
                assert(staged0.contains(e));
                let i = choose|i: int| 0 <= i < staged0.len() && staged0[i] == e;
                assert(old(self).future_frames@[i] == e);
                assert(e.input.frame > old(self).frame());
                assert(e.input.frame != next);
            }
        }
    }

    /// The input map at an absolute frame, or absent once evicted; asking
    /// for a frame after the current one is a programming error.
    pub fn get_at_frame(&self, frame: u64) -> (r: Option<&KeyedMap<RawPlayerInput>>)
        requires
            self.wf(),
            frame <= self.frame(),
        ensures
            match r {
                Some(m) => {
                    &&& self.frame() - frame < self.hist().len()
                    &&& m@ == self.hist()[self.frame() - frame]
                    &&& m.wf()
                },
                None => self.frame() - frame >= self.hist().len(),
            },
    {
        self.tracker.get_at_frame(frame)
    }

    /// The current frame's input map.
    pub fn get_latest(&self) -> (r: &KeyedMap<RawPlayerInput>)
        requires
            self.wf(),
        ensures
            r@ == self.hist()[0],
            r.wf(),
    {
        self.tracker.get_latest()
    }

    /// The input map `n_frames` before the current one, or absent.
    pub fn get_n_frames_ago(&self, n_frames: u64) -> (r: Option<&KeyedMap<RawPlayerInput>>)
        requires
            self.wf(),
        ensures
            match r {
                Some(m) => {
                    &&& n_frames < self.hist().len()
                    &&& m@ == self.hist()[n_frames as int]
                    &&& m.wf()
                },
                None => n_frames >= self.hist().len(),
            },
    {
        self.tracker.get_n_frames_ago(n_frames)
    }

    pub fn get_current_frame(&self) -> (r: u64)
        ensures
            r == self.frame(),
    {
        self.tracker.get_current_frame()
    }
}

/// Advances the input reconciler to the frame the clock just reached.
pub fn next_input_frame(input_rollback: &mut InputRollback, frame: &SyncFrameCount)
    requires
        old(input_rollback).wf(),
        frame.count == old(input_rollback).frame() + 1,
    ensures
        final(input_rollback).wf(),
        final(input_rollback).frame() == frame.count,
        final(input_rollback).window() == old(input_rollback).window(),
        final(input_rollback).staged() == keep_staged(old(input_rollback).staged(), frame.count),
        final(input_rollback).hist() == advanced_hist(
            old(input_rollback).hist(),
            apply_staged(old(input_rollback).staged(), frame.count),
            old(input_rollback).window(),
        ),
{
    input_rollback.next_frame(frame.count());
}

} // verus!
