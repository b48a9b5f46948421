//! The keyed history tracker: a bounded ring of frame-indexed snapshots of
//! one attribute, newest slot first. The tracker owns every historical value
//! for its attribute; the live world holds only the current value.

use vstd::prelude::*;

use crate::keyed::KeyedMap;
use crate::DEFAULT_ROLLBACK_WINDOW;

verus! {

/// The monotonically increasing tick counter: the sole timebase of the
/// engine. It advances by exactly one per orchestration cycle.
#[derive(Clone, Copy, Debug, PartialEq, Eq, Structural)]
pub struct SyncFrameCount {
    pub count: u64,
}

impl SyncFrameCount {
    pub fn new(count: u64) -> (r: Self)
        ensures
            r.count == count,
    {
        SyncFrameCount { count }
    }

    pub fn count(&self) -> (r: u64)
        ensures
            r == self.count,
    {
        self.count
    }
}

/// Advances the frame clock by exactly one tick.
pub fn increment_sync_frame_count(frame_count: &mut SyncFrameCount)
    requires
        old(frame_count).count < u64::MAX,
    ensures
        final(frame_count).count == old(frame_count).count + 1,
{
    frame_count.count = frame_count.count + 1;
}

/// The history after pushing `front` as the new newest slot, evicting the
/// oldest slot once the window is full.
pub open spec fn advanced_hist<V>(
    h: Seq<Map<u64, V>>,
    front: Map<u64, V>,
    w: nat,
) -> Seq<Map<u64, V>> {
    (seq![front] + h).take(if h.len() + 1 <= w { (h.len() + 1) as int } else { w as int })
}

/// A bounded history of `owner -> value` snapshots for one attribute.
/// Slot 0 is the current frame; slot `n` is the state `n` frames ago.
#[derive(Debug)]
pub struct RollbackTracker<V> {
    pub history: Vec<KeyedMap<V>>,
    pub current_frame: u64,
    pub rollback_window: usize,
}

impl<V: Copy> RollbackTracker<V> {
    /// The history as a sequence of maps, newest first.
    pub open spec fn hist(&self) -> Seq<Map<u64, V>> {
        self.history@.map_values(|m: KeyedMap<V>| m@)
    }

    /// Frame number of slot 0.
    pub open spec fn frame(&self) -> u64 {
        self.current_frame
    }

    /// Maximum number of slots retained.
    pub open spec fn window(&self) -> nat {
        self.rollback_window as nat
    }

    pub open spec fn wf(&self) -> bool {
        &&& 1 <= self.history@.len()
        &&& self.history@.len() <= self.rollback_window
        &&& self.history@.len() <= self.current_frame + 1
        &&& forall|i: int| 0 <= i < self.history@.len() ==> (#[trigger] self.history@[i]).wf()
    }

    /// A fresh tracker whose single slot, at `current_frame`, is empty.
    pub fn new(current_frame: u64, rollback_window: usize) -> (r: Self)
        requires
            rollback_window >= 1,
        ensures
            r.wf(),
            r.frame() == current_frame,
            r.window() == rollback_window,
            r.hist() == seq![Map::<u64, V>::empty()],
    {
        let mut history: Vec<KeyedMap<V>> = Vec::new();
        history.push(KeyedMap::new());
        let r = RollbackTracker { history, current_frame, rollback_window };
        proof {
            assert(r.hist() =~= seq![Map::<u64, V>::empty()]);
        }
        r
    }

    /// Begins the next frame with an empty newest slot; the frame clock must
    /// advance by exactly one, anything else is a programming error.
    pub fn init_current_frame(&mut self, current_frame: u64)
        requires
            old(self).wf(),
            current_frame == old(self).frame() + 1,
        ensures
            final(self).wf(),
            final(self).frame() == current_frame,
            final(self).window() == old(self).window(),
            final(self).hist() == advanced_hist(
                old(self).hist(),
                Map::<u64, V>::empty(),
                old(self).window(),
            ),
    {
        let front = KeyedMap::new();
        self.push_front_with_cap(front);
        self.current_frame = current_frame;
    }

    /// Begins the next frame with the given owner values as the newest slot.
    pub fn new_frame_from_values(&mut self, current_frame: u64, values: &KeyedMap<V>)
        requires
            old(self).wf(),
            values.wf(),
            current_frame == old(self).frame() + 1,
        ensures
            final(self).wf(),
            final(self).frame() == current_frame,
            final(self).window() == old(self).window(),
            final(self).hist() == advanced_hist(old(self).hist(), values@, old(self).window()),
    {
        let front = values.copy_of();
        self.push_front_with_cap(front);
        self.current_frame = current_frame;
    }

    fn push_front_with_cap(&mut self, front: KeyedMap<V>)
        requires
            old(self).wf(),
            front.wf(),
            old(self).frame() < u64::MAX,
        ensures
            final(self).wf() || final(self).history@.len() > final(self).current_frame + 1,
            final(self).frame() == old(self).frame(),
            final(self).window() == old(self).window(),
            1 <= final(self).history@.len() <= final(self).rollback_window,
            final(self).history@.len() <= old(self).history@.len() + 1,
            forall|i: int|
                0 <= i < final(self).history@.len() ==> (#[trigger] final(self).history@[i]).wf(),
            final(self).hist() == advanced_hist(old(self).hist(), front@, old(self).window()),
    {
        let ghost h0 = self.history@;
        self.history.insert(0, front);
        if self.history.len() > self.rollback_window {
            let _ = self.history.pop();
            proof {
                assert(self.history@ =~= (seq![front] + h0).take(self.rollback_window as int));
            }
        } else {
            proof {
                assert(self.history@ =~= seq![front] + h0);
            }
        }
        proof {
            assert(self.hist() =~= advanced_hist(
                h0.map_values(|m: KeyedMap<V>| m@),
                front@,
                self.rollback_window as nat,
            ));
        }
    }

    /// The slot `n_frames` before the current one, or absent when that frame
    /// is no longer (or not yet) retained.
    pub fn get_n_frames_ago(&self, n_frames: u64) -> (r: Option<&KeyedMap<V>>)
        requires
            self.wf(),
        ensures
            match r {
                Some(m) => {
                    &&& n_frames < self.hist().len()
                    &&& m@ == self.hist()[n_frames as int]
                    &&& m.wf()
                },
                None => n_frames >= self.hist().len(),
            },
    {
        if n_frames < self.history.len() as u64 {
            Some(&self.history[n_frames as usize])
        } else {
            None
        }
    }

    /// The slot for an absolute frame number; asking for a frame after the
    /// current one is a programming error.
    pub fn get_at_frame(&self, frame: u64) -> (r: Option<&KeyedMap<V>>)
        requires
            self.wf(),
            frame <= self.frame(),
        ensures
            match r {
                Some(m) => {
                    &&& self.frame() - frame < self.hist().len()
                    &&& m@ == self.hist()[self.frame() - frame]
                    &&& m.wf()
                },
                None => self.frame() - frame >= self.hist().len(),
            },
    {
        self.get_n_frames_ago(self.current_frame - frame)
    }

    /// The current frame's slot.
    pub fn get_latest(&self) -> (r: &KeyedMap<V>)
        requires
            self.wf(),
        ensures
            r@ == self.hist()[0],
            r.wf(),
    {
        &self.history[0]
    }

    pub fn get_rollback_window(&self) -> (r: usize)
        ensures
            r == self.window(),
    {
        self.rollback_window
    }

    /// Number of frames currently retained.
    pub fn depth(&self) -> (r: usize)
        ensures
            r == self.hist().len(),
    {
        self.history.len()
    }

    pub fn get_current_frame(&self) -> (r: u64)
        ensures
            r == self.frame(),
    {
        self.current_frame
    }

    /// Replaces the current frame's slot wholesale with the given owner
    /// values, leaving the frame clock and the older slots alone.
    pub fn set_latest_values(&mut self, values: &KeyedMap<V>)
        requires
            old(self).wf(),
            values.wf(),
        ensures
            final(self).wf(),
            final(self).frame() == old(self).frame(),
            final(self).window() == old(self).window(),
            final(self).hist() == old(self).hist().update(0, values@),
    {
        let front = values.copy_of();
        let _ = self.history.remove(0);
        self.history.insert(0, front);
        proof {
            assert(self.history@ =~= old(self).history@.update(0, self.history@[0]));
            assert(self.hist() =~= old(self).hist().update(0, values@));
        }
    }

    /// Discards the `frames` newest slots and rewinds the frame clock by as
    /// much; at least one slot must remain.
    pub fn delete_n_frames(&mut self, frames: u64)
        requires
            old(self).wf(),
            frames < old(self).hist().len(),
        ensures
            final(self).wf(),
            final(self).frame() == old(self).frame() - frames,
            final(self).window() == old(self).window(),
            final(self).hist() == old(self).hist().skip(frames as int),
    {
        let mut j: u64 = 0;
        while j < frames
            invariant
                j <= frames,
                frames < old(self).history@.len(),
                self.history@ =~= old(self).history@.skip(j as int),
                self.current_frame == old(self).current_frame,
                self.rollback_window == old(self).rollback_window,
                old(self).wf(),
            decreases frames - j,
        {
            let ghost h0 = self.history@;
            let _ = self.history.remove(0);
            proof {
                assert(self.history@ =~= h0.skip(1));
                assert(self.history@ =~= old(self).history@.skip(j + 1));
            }
            j += 1;
        }
        self.current_frame = self.current_frame - frames;
        proof {
            assert(self.hist() =~= old(self).hist().skip(frames as int));
        }
    }

    /// Writes `key -> value` into the slot for `frame`. Writing to a frame
    /// older than the retained window is a no-op (the correction is simply
    /// unrecoverable); writing to a future frame is a programming error.
    pub fn set_value_at_frame(&mut self, key: u64, value: V, frame: u64)
        requires
            old(self).wf(),
            frame <= old(self).frame(),
        ensures
            final(self).wf(),
            final(self).frame() == old(self).frame(),
            final(self).window() == old(self).window(),
            final(self).hist() == if old(self).frame() - frame < old(self).hist().len() {
                old(self).hist().update(
                    old(self).frame() - frame,
                    old(self).hist()[old(self).frame() - frame].insert(key, value),
                )
            } else {
                old(self).hist()
            },
    {
        let d = self.current_frame - frame;
        if d < self.history.len() as u64 {
            let i = d as usize;
            let mut slot = self.history.remove(i);
            slot.insert(key, value);
            self.history.insert(i, slot);
            proof {
                assert(self.history@ =~= old(self).history@.update(
                    d as int,
                    self.history@[d as int],
                ));
                assert(self.hist() =~= old(self).hist().update(
                    d as int,
                    old(self).hist()[d as int].insert(key, value),
                ));
            }
        } else {
            proof {
                assert(self.hist() =~= old(self).hist());
            }
        }
    }
}

/// History tracker for player positions, keyed by owner.
pub type TransformRollback = RollbackTracker<crate::game::Position>;

/// History tracker for player attributes, keyed by owner.
pub type PlayerRollback = RollbackTracker<crate::Player>;

/// The closed set of attribute trackers the engine rolls back together.
#[derive(Debug)]
pub struct ComponentRollbacks {
    pub transforms: TransformRollback,
    pub players: PlayerRollback,
}

impl ComponentRollbacks {
    pub open spec fn wf(&self) -> bool {
        &&& self.transforms.wf()
        &&& self.players.wf()
    }

    /// Both trackers aligned on the same frame.
    pub open spec fn aligned(&self, frame: u64) -> bool {
        &&& self.transforms.frame() == frame
        &&& self.players.frame() == frame
    }

    /// Fresh trackers whose single empty slot sits at `frame`, with the
    /// default rollback window.
    pub fn from_frame(frame: u64) -> (r: Self)
        ensures
            r.wf(),
            r.aligned(frame),
            r.transforms.window() == DEFAULT_ROLLBACK_WINDOW,
            r.players.window() == DEFAULT_ROLLBACK_WINDOW,
            r.transforms.hist() == seq![Map::<u64, crate::game::Position>::empty()],
            r.players.hist() == seq![Map::<u64, crate::Player>::empty()],
    {
        ComponentRollbacks {
            transforms: RollbackTracker::new(frame, DEFAULT_ROLLBACK_WINDOW),
            players: RollbackTracker::new(frame, DEFAULT_ROLLBACK_WINDOW),
        }
    }
}

/// Captures the world's current transforms as the tracker's next frame.
pub fn track_rollbacks_components(
    transform_rollback: &mut TransformRollback,
    transforms: &KeyedMap<crate::game::Position>,
    frame: u64,
)
    requires
        old(transform_rollback).wf(),
        transforms.wf(),
        frame == old(transform_rollback).frame() + 1,
    ensures
        final(transform_rollback).wf(),
        final(transform_rollback).frame() == frame,
        final(transform_rollback).window() == old(transform_rollback).window(),
        final(transform_rollback).hist() == advanced_hist(
            old(transform_rollback).hist(),
            transforms@,
            old(transform_rollback).window(),
        ),
{
    transform_rollback.new_frame_from_values(frame, transforms);
}

} // verus!
