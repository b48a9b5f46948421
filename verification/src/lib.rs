//! Core of a fixed-tick, client-side-prediction multiplayer simulation with
//! server-authoritative reconciliation (rollback netcode).
//!
//! Clients simulate every tick locally and correct their own history when
//! authoritative information (remote inputs, full world snapshots) arrives
//! late. The library owns the frame clock, the bounded per-attribute history
//! trackers, input buffering and staging, the correction registers, and the
//! per-tick reconciliation procedure. Rendering, physics resolution and the
//! network transport are outside collaborators: they hand the library plain
//! values and take plain values back.

use vstd::prelude::*;

pub mod engine;
pub mod game;
pub mod input;
pub mod keyed;
pub mod laws;
pub mod resim;
pub mod session;
pub mod sync;
pub mod tracker;

verus! {

/// Number of past frames a tracker retains by default: the bound on how far
/// back a correction may reach.
pub const DEFAULT_ROLLBACK_WINDOW: usize = 10;

/// Duration of one simulation tick in microseconds (60 ticks per second).
/// Positions are measured in millionths of a world unit, so a player with
/// speed 1 moves exactly `FRAME_DURATION_MICROS` position units per tick.
pub const FRAME_DURATION_MICROS: u64 = 16667;

/// Movement speed, in world units per second, that a freshly spawned player
/// starts with.
pub const DEFAULT_PLAYER_SPEED: u32 = 100;

/// Identifier a player chooses at login; stable across the session.
#[derive(Clone, Copy, Debug, PartialEq, Eq, Hash, Structural)]
pub struct PlayerId(pub u64);

/// One player's attributes that the simulation reads.
#[derive(Clone, Copy, Debug, PartialEq, Eq, Structural)]
pub struct Player {
    pub id: PlayerId,
    /// Movement speed in world units per second.
    pub speed: u32,
}

impl Default for Player {
    fn default() -> (r: Self)
        ensures
            r == (Player { id: PlayerId(0), speed: DEFAULT_PLAYER_SPEED }),
    {
        Player { id: PlayerId(0), speed: DEFAULT_PLAYER_SPEED }
    }
}

impl Player {
    pub fn new(id: PlayerId) -> (r: Self)
        ensures
            r == (Player { id, speed: DEFAULT_PLAYER_SPEED }),
    {
        Player { id, speed: DEFAULT_PLAYER_SPEED }
    }

    pub fn with_speed(self, speed: u32) -> (r: Self)
        ensures
            r == (Player { id: self.id, speed }),
    {
        Player { speed, ..self }
    }
}

/// Raw directional input for one frame; each axis is -1, 0 or 1 under normal
/// use, though the simulation is defined for any value.
#[derive(Clone, Copy, Debug, PartialEq, Eq, Structural)]
pub struct RawPlayerInput {
    pub x: i8,
    pub y: i8,
}

impl Default for RawPlayerInput {
    fn default() -> (r: Self)
        ensures
            r == (RawPlayerInput { x: 0, y: 0 }),
    {
        RawPlayerInput { x: 0, y: 0 }
    }
}

impl RawPlayerInput {
    /// Stamps this input with the frame it targets.
    pub fn at_frame(&self, frame: u64) -> (r: FramedPlayerInput)
        ensures
            r == (FramedPlayerInput { raw: *self, frame }),
    {
        FramedPlayerInput { raw: *self, frame }
    }
}

/// An input together with the frame it targets.
#[derive(Clone, Copy, Debug, PartialEq, Eq, Structural)]
pub struct FramedPlayerInput {
    pub raw: RawPlayerInput,
    pub frame: u64,
}

/// A framed input together with the player it belongs to.
#[derive(Clone, Copy, Debug, PartialEq, Eq, Structural)]
pub struct IdPlayerInput {
    pub player_id: PlayerId,
    pub input: FramedPlayerInput,
}

/// Network-stable object identifier, independent of any local owner handle.
#[derive(Clone, Copy, Debug, PartialEq, Eq, Hash, Structural)]
pub struct ServerObject(pub u64);

/// Relies on rand::random: draws an arbitrary value of the requested type;
/// nothing is promised of the result.
pub assume_specification<T>[ rand::random::<T> ]() -> (r: T)
    where
        rand::distributions::Standard: rand::distributions::Distribution<T>,
;

impl ServerObject {
    /// A fresh identifier drawn at random; two calls may collide, so whoever
    /// registers the identifier must handle a duplicate.
    pub fn random_id() -> Self {
        ServerObject(rand::random::<u64>())
    }
}

/// Login request a client sends once on connect.
#[derive(Clone, Copy, Debug, PartialEq, Eq, Structural)]
pub struct PlayerLogin {
    pub id: PlayerId,
}

/// Everything the server hands out when a player spawns.
#[derive(Clone, Copy, Debug, PartialEq, Eq, Structural)]
pub struct PlayerData {
    pub player: Player,
    pub transform: game::Position,
}

/// Reliable ordered message from server to client.
#[derive(Debug)]
pub enum ROMFromServer {
    PlayerConnected { player_data: PlayerData, server_object: ServerObject },
    PlayerDisconnected(PlayerId),
    GameSync(sync::GameSync),
}

/// Reliable ordered message from client to server.
#[derive(Clone, Copy, Debug, PartialEq, Eq, Structural)]
pub enum ROMFromClient {
    PlayerLogin(PlayerLogin),
}

/// Unreliable message from server to client.
#[derive(Debug)]
pub enum UMFromServer {
    IdPlayerInput(IdPlayerInput),
    GameSync(sync::GameSync),
}

/// Unreliable message from client to server.
#[derive(Clone, Copy, Debug, PartialEq, Eq, Structural)]
pub enum UMFromClient {
    PlayerInput(FramedPlayerInput),
}

/// One frame's per-player raw input, keyed by player id.
pub type InputBuffer = keyed::KeyedMap<RawPlayerInput>;

/// The input handed to the step function for the frame being simulated.
pub type InputFrame = keyed::KeyedMap<RawPlayerInput>;

/// Number of whole ticks that elapsed between `unix_time_micros` and
/// `now_micros`; zero when the timestamp lies in the future.
pub fn frames_since_unix_time(now_micros: u64, unix_time_micros: u64) -> (r: u64)
    ensures
        r == if now_micros >= unix_time_micros {
            ((now_micros - unix_time_micros) as u64 / FRAME_DURATION_MICROS) as u64
        } else {
            0u64
        },
{
    if now_micros >= unix_time_micros {
        (now_micros - unix_time_micros) / FRAME_DURATION_MICROS
    } else {
        0
    }
}

} // verus!
