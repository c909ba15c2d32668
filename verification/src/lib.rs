//! Authoritative simulation core for a session-based multiplayer race.
//!
//! Participants steer an avatar along a linear track split into six ordered
//! regions, racing toward the terminal region. This crate holds the verified
//! server-side logic: the room phase state machine, per-tick physics
//! integration from cached inputs, region resolution with soft-wall clamping,
//! race-completion latching, and construction of the broadcast messages.
//!
//! All kinematic quantities are fixed-point integers in milliunits (one unit
//! of track space is 1000 milliunits), so that every step of the simulation
//! is exact and deterministic. The transport layer that carries the encoded
//! messages is an external collaborator and stays outside this crate.

pub mod constants;
pub mod math;
pub mod messages;
pub mod movement;
pub mod region;
pub mod room;
pub mod text;

pub use constants::{
    start_position, BASE_SPEED, BOOST_COST, BOOST_MIN_STAMINA, BOOST_REGEN, BOOST_SPEED,
    COUNTDOWN_MILLIS, COUNTDOWN_TICKS, MARKER_AMPULLA, MARKER_CERVIX, MARKER_TUBE, MARKER_UTERUS,
    MARKER_UTJ, MAX_PLAYERS, MILLI, PLAYER_RADIUS, POS_LIMIT, PROTOCOL_ID, SNAPSHOT_RATE,
    STAMINA_MAX, TICK_RATE, TRACK_LENGTH,
};
pub use messages::{
    ClientMessage, EntitySnapshot, InputFrame, LeaderboardEntry, PlayerSummary, RegionId,
    RoomPhase, ServerMessage,
};
pub use movement::{
    clamp_to_radius, distance_squared, integrate_3d_position, integrate_input, overlaps,
    PlayerKinematics, Vec3Milli,
};
pub use region::{region_for_position, tooltips, tube_radius, RegionTooltip};
pub use room::{PlayerState, Room};
pub use text::{make_guest_name, random_room_code, u64_to_dec};
