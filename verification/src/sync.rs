//! Correction inputs to the reconciliation engine: the authoritative
//! snapshot, the two single-slot pending-correction registers, and the
//! identity bridge from network-stable object identifiers to local owners.
//!
//! Multiple corrections arriving within one tick coalesce into one effective
//! request: rollback targets keep the minimum (worst-case-first, the deepest
//! correction wins), snapshots keep the last arrival (overwrite).

use vstd::prelude::*;

use crate::game::Position;
use crate::keyed::KeyedMap;
use crate::{Player, ServerObject};

verus! {

/// A server-issued, immutable, point-in-time record of attribute values for
/// one frame, keyed by stable object identifier. `unix_time_micros` is the
/// wall-clock time the snapshot was generated, used only to estimate how far
/// a joining client must skip forward.
#[derive(Debug)]
pub struct GameSync {
    pub frame: u64,
    pub unix_time_micros: u64,
    pub transforms: KeyedMap<Position>,
    pub players: KeyedMap<Player>,
}

/// The closed set of attributes a snapshot carries.
#[derive(Clone, Copy, Debug, PartialEq, Eq, Structural)]
pub enum TrackedAttribute {
    Transforms,
    Players,
}

/// A reference to one of a snapshot's attribute maps.
#[derive(Debug)]
pub enum AttributeMap<'a> {
    Transforms(&'a KeyedMap<Position>),
    Players(&'a KeyedMap<Player>),
}

impl GameSync {
    pub open spec fn wf(&self) -> bool {
        &&& self.transforms.wf()
        &&& self.players.wf()
    }

    /// The attribute map of the requested kind.
    pub fn get<'a>(&'a self, attribute: TrackedAttribute) -> (r: AttributeMap<'a>)
        ensures
            r == match attribute {
                TrackedAttribute::Transforms => AttributeMap::Transforms(&self.transforms),
                TrackedAttribute::Players => AttributeMap::Players(&self.players),
            },
    {
        match attribute {
            TrackedAttribute::Transforms => AttributeMap::Transforms(&self.transforms),
            TrackedAttribute::Players => AttributeMap::Players(&self.players),
        }
    }
}

/// At most one pending local rollback target; coalesces by minimum.
#[derive(Debug)]
pub struct RollbackRequest {
    pub pending: Option<u64>,
}

impl Default for RollbackRequest {
    fn default() -> (r: Self)
        ensures
            r.pending == None::<u64>,
    {
        RollbackRequest { pending: None }
    }
}

impl RollbackRequest {
    pub fn new() -> (r: Self)
        ensures
            r.pending == None::<u64>,
    {
        RollbackRequest { pending: None }
    }

    /// Records a rollback target; with one already pending, the older (deeper)
    /// of the two wins.
    pub fn request(&mut self, rollback_to_frame: u64)
        ensures
            final(self).pending == match old(self).pending {
                None => Some(rollback_to_frame),
                Some(p) => Some(if rollback_to_frame < p {
                    rollback_to_frame
                } else {
                    p
                }),
            },
    {
        match self.pending {
            Some(current) => {
                if rollback_to_frame < current {
                    self.pending = Some(rollback_to_frame);
                }
            },
            None => {
                self.pending = Some(rollback_to_frame);
            },
        }
    }

    /// Drains the register for one tick's exclusive use.
    pub fn take(&mut self) -> (r: Option<u64>)
        ensures
            r == old(self).pending,
            final(self).pending == None::<u64>,
    {
        self.pending.take()
    }
}

/// At most one pending authoritative snapshot; a new arrival overwrites the
/// old one (last-write-wins).
#[derive(Debug)]
pub struct GameSyncRequest {
    pub pending: Option<GameSync>,
}

impl Default for GameSyncRequest {
    fn default() -> (r: Self)
        ensures
            r.pending == None::<GameSync>,
    {
        GameSyncRequest { pending: None }
    }
}

impl GameSyncRequest {
    pub fn new(game_sync: GameSync) -> (r: Self)
        ensures
            r.pending == Some(game_sync),
    {
        GameSyncRequest { pending: Some(game_sync) }
    }

    /// Records a snapshot, replacing any snapshot already pending.
    pub fn request(&mut self, game_sync: GameSync)
        ensures
            final(self).pending == Some(game_sync),
    {
        self.pending = Some(game_sync);
    }

    /// Drains the register for one tick's exclusive use.
    pub fn take(&mut self) -> (r: Option<GameSync>)
        ensures
            r == old(self).pending,
            final(self).pending == None::<GameSync>,
    {
        self.pending.take()
    }
}

/// Bijective mapping from stable object identifier to local owner, mutated
/// only when materializing an owner a snapshot references; inserting an
/// identifier that is already mapped fails (duplicate-spawn guard).
#[derive(Debug)]
pub struct ServerEntityMap {
    pub map: KeyedMap<u64>,
}

impl ServerEntityMap {
    pub open spec fn wf(&self) -> bool {
        self.map.wf()
    }

    pub fn new() -> (r: Self)
        ensures
            r.wf(),
            r.map@ =~= Map::<u64, u64>::empty(),
    {
        ServerEntityMap { map: KeyedMap::new() }
    }

    /// Maps a stable identifier to a local owner; fails, changing nothing,
    /// exactly when the identifier is already mapped.
    pub fn insert(&mut self, server_object: ServerObject, owner: u64) -> (r: Result<(), ()>)
        requires
            old(self).wf(),
        ensures
            final(self).wf(),
            !old(self).map@.contains_key(server_object.0) ==> r == Ok::<(), ()>(())
                && final(self).map@ == old(self).map@.insert(server_object.0, owner),
            old(self).map@.contains_key(server_object.0) ==> r == Err::<(), ()>(())
                && final(self).map@ == old(self).map@,
    {
        if self.map.contains_key(server_object.0) {
            Err(())
        } else {
            self.map.insert(server_object.0, owner);
            Ok(())
        }
    }

    /// The local owner mapped to a stable identifier, if any.
    pub fn get(&self, server_object: &ServerObject) -> (r: Option<u64>)
        requires
            self.wf(),
        ensures
            match r {
                Some(owner) => self.map@.contains_key(server_object.0) && self.map@[server_object.0]
                    == owner,
                None => !self.map@.contains_key(server_object.0),
            },
    {
        self.map.get(server_object.0)
    }

    /// Unmaps a stable identifier, returning the owner it was mapped to.
    pub fn remove(&mut self, server_object: &ServerObject) -> (r: Option<u64>)
        requires
            old(self).wf(),
        ensures
            final(self).wf(),
            final(self).map@ == old(self).map@.remove(server_object.0),
            match r {
                Some(owner) => old(self).map@.contains_key(server_object.0)
                    && old(self).map@[server_object.0] == owner,
                None => !old(self).map@.contains_key(server_object.0),
            },
    {
        self.map.remove(server_object.0)
    }
}

} // verus!
