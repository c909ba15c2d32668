//! Wire-level message shapes exchanged with clients.
//!
//! These are the plain data carried as tagged variants over the datagram
//! session layer. Encoding to and from bytes happens outside the verified
//! library; here the types only hold values the simulation produces or
//! consumes.

use vstd::prelude::*;
use crate::movement::Vec3Milli;

verus! {

/// One roster line of a room-state broadcast.
#[derive(Debug, Clone)]
pub struct PlayerSummary {
    pub id: u64,
    pub name: String,
    pub ready: bool,
    pub is_host: bool,
}

/// One participant's worth of a snapshot broadcast. Positions, velocities
/// and stamina are fixed-point milliunit values.
#[derive(Debug, Clone, Copy)]
pub struct EntitySnapshot {
    pub id: u64,
    pub position: Vec3Milli,
    pub velocity: Vec3Milli,
    pub stamina: i64,
    pub region: RegionId,
}

/// One line of an end-of-race leaderboard.
#[derive(Debug, Clone)]
pub struct LeaderboardEntry {
    pub name: String,
    pub ticks: u32,
}

/// Everything a client may send to the server.
#[derive(Debug, Clone)]
pub enum ClientMessage {
    JoinRoom { name: String, room_code: Option<String> },
    SetReady { ready: bool },
    InputFrame(InputFrame),
    StartRace,
}

/// Everything the server may send to a client.
#[derive(Debug, Clone)]
pub enum ServerMessage {
    RoomState { room_code: String, players: Vec<PlayerSummary>, state: RoomPhase },
    Countdown { millis_left: u32 },
    Snapshot { tick: u32, entities: Vec<EntitySnapshot> },
    RaceFinished { leaderboard: Vec<LeaderboardEntry> },
}

/// A client's control state for one tick. The tick number is supplied by
/// the sender and is informational only: the server never reorders by it.
#[derive(Debug, Clone, Copy)]
pub struct InputFrame {
    pub tick: u32,
    pub up: bool,
    pub down: bool,
    pub left: bool,
    pub right: bool,
    pub boost: bool,
}

impl InputFrame {
    /// True when no field of the frame is set.
    pub open spec fn is_zeroed(self) -> bool {
        self.tick == 0 && !self.up && !self.down && !self.left && !self.right && !self.boost
    }
}

impl Default for InputFrame {
    /// The all-clear frame cached for a participant before any input arrives.
    fn default() -> (r: Self)
        ensures
            r.is_zeroed(),
    {
        InputFrame { tick: 0, up: false, down: false, left: false, right: false, boost: false }
    }
}

/// Lifecycle phase of the room.
#[derive(Debug, Clone, Copy, PartialEq, Eq, Structural)]
pub enum RoomPhase {
    Lobby,
    Countdown,
    Racing,
    Finished,
}

/// The six ordered track regions, first to terminal.
#[derive(Debug, Clone, Copy, PartialEq, Eq, Structural)]
pub enum RegionId {
    Vagina,
    Cervix,
    Uterus,
    Utj,
    Tube,
    Ampulla,
}

} // verus!
