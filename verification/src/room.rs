//! The session registry: the single room, its roster, the phase state
//! machine, the per-tick simulation pipeline and the broadcast payload
//! builders.

use vstd::prelude::*;
use crate::constants::{COUNTDOWN_TICKS, MAX_PLAYERS, STAMINA_MAX, TICK_RATE, start_position};
use crate::messages::{
    ClientMessage, EntitySnapshot, InputFrame, PlayerSummary, RegionId, RoomPhase, ServerMessage,
};
use crate::movement::{
    clamp_spec, clamp_to_radius, integrate_input, integrate_spec, off_axis_sq, PlayerKinematics,
    Vec3Milli,
};
use crate::region::{region_for_position, region_for_x, tube_radius, tube_radius_spec};
use crate::text::{guest_name, make_guest_name};

verus! {

/// One connected participant's full server-side state.
#[derive(Debug, Clone)]
pub struct PlayerState {
    pub id: u64,
    pub name: String,
    pub ready: bool,
    pub is_host: bool,
    pub kin: PlayerKinematics,
    pub last_input: InputFrame,
    pub finished_tick: Option<u32>,
}

/// Mathematical image of a participant: the name as a character sequence,
/// everything else as the plain values it already is.
pub struct PlayerModel {
    pub id: u64,
    pub name: Seq<char>,
    pub ready: bool,
    pub is_host: bool,
    pub kin: PlayerKinematics,
    pub last_input: InputFrame,
    pub finished_tick: Option<u32>,
}

impl View for PlayerState {
    type V = PlayerModel;

    open spec fn view(&self) -> PlayerModel {
        PlayerModel {
            id: self.id,
            name: self.name@,
            ready: self.ready,
            is_host: self.is_host,
            kin: self.kin,
            last_input: self.last_input,
            finished_tick: self.finished_tick,
        }
    }
}

/// The single race session: roster, phase, countdown and tick counter.
#[derive(Debug)]
pub struct Room {
    pub code: String,
    pub players: Vec<PlayerState>,
    pub phase: RoomPhase,
    pub countdown_ticks: u32,
    pub tick: u32,
}

/// Mathematical image of the room.
pub struct RoomModel {
    pub code: Seq<char>,
    pub players: Seq<PlayerModel>,
    pub phase: RoomPhase,
    pub countdown_ticks: u32,
    pub tick: u32,
}

impl View for Room {
    type V = RoomModel;

    open spec fn view(&self) -> RoomModel {
        RoomModel {
            code: self.code@,
            players: self.players@.map_values(|p: PlayerState| p@),
            phase: self.phase,
            countdown_ticks: self.countdown_ticks,
            tick: self.tick,
        }
    }
}

impl RoomModel {
    /// Every roster entry carries a distinct identifier.
    pub open spec fn ids_unique(self) -> bool {
        forall|i: int, j: int|
            0 <= i < j < self.players.len() ==> self.players[i].id != self.players[j].id
    }

    /// No two roster entries carry the host flag.
    pub open spec fn at_most_one_host(self) -> bool {
        forall|i: int, j: int|
            0 <= i < j < self.players.len()
                ==> !(self.players[i].is_host && self.players[j].is_host)
    }

    /// The room invariant: distinct identifiers, at most one host, a
    /// bounded roster, well-formed kinematics everywhere, and a countdown
    /// that never exceeds its initial value.
    pub open spec fn wf(self) -> bool {
        &&& self.ids_unique()
        &&& self.at_most_one_host()
        &&& self.players.len() <= MAX_PLAYERS
        &&& forall|i: int| 0 <= i < self.players.len() ==> (#[trigger] self.players[i]).kin.wf()
        &&& self.countdown_ticks <= COUNTDOWN_TICKS
        &&& (self.players.len() == 0 ==> self.phase == RoomPhase::Lobby)
    }

    /// Some roster entry carries this identifier.
    pub open spec fn has_id(self, id: u64) -> bool {
        exists|i: int| 0 <= i < self.players.len() && (#[trigger] self.players[i]).id == id
    }

    /// Every roster entry has its ready flag set.
    pub open spec fn all_ready(self) -> bool {
        forall|i: int| 0 <= i < self.players.len() ==> (#[trigger] self.players[i]).ready
    }

    /// Some roster entry has a completion tick latched.
    pub open spec fn any_finished(self) -> bool {
        exists|i: int|
            0 <= i < self.players.len() && (#[trigger] self.players[i]).finished_tick is Some
    }
}

/// The directed edges of the phase state machine, with their guards: a
/// step either stays put, or follows Lobby to Countdown on a non-empty
/// roster, Countdown to Racing, Racing to Finished once someone finished,
/// or falls back to Lobby when the roster has emptied.
pub open spec fn phase_step_ok(pre: RoomModel, post: RoomModel) -> bool {
    ||| post.phase == pre.phase
    ||| (pre.phase == RoomPhase::Lobby && post.phase == RoomPhase::Countdown
        && post.players.len() > 0)
    ||| (pre.phase == RoomPhase::Countdown && post.phase == RoomPhase::Racing)
    ||| (pre.phase == RoomPhase::Racing && post.phase == RoomPhase::Finished
        && post.any_finished())
    ||| (post.phase == RoomPhase::Lobby && post.players.len() == 0)
}

/// A pointwise roster change that leaves identifiers, host flags and
/// kinematics alone preserves the room invariant.
proof fn lemma_pointwise_update_preserves_wf(pre: RoomModel, post: RoomModel)
    requires
        pre.wf(),
        post.players.len() == pre.players.len(),
        forall|k: int| 0 <= k < post.players.len()
            ==> (#[trigger] post.players[k]).id == pre.players[k].id
                && post.players[k].is_host == pre.players[k].is_host
                && post.players[k].kin == pre.players[k].kin,
        post.countdown_ticks <= COUNTDOWN_TICKS,
        post.players.len() == 0 ==> post.phase == RoomPhase::Lobby,
    ensures
        post.wf(),
{
    assert forall|i: int, j: int| 0 <= i < j < post.players.len()
        implies post.players[i].id != post.players[j].id
            && !(post.players[i].is_host && post.players[j].is_host) by {
        assert(pre.players[i].id != pre.players[j].id);
        assert(!(pre.players[i].is_host && pre.players[j].is_host));
    }
    assert forall|i: int| 0 <= i < post.players.len()
        implies (#[trigger] post.players[i]).kin.wf() by {
        assert(pre.players[i].kin.wf());
    }
}

/// The per-tick step of one participant's kinematics: one integration from
/// the cached input, then region resolution on the new position and the
/// soft-wall clamp against that region's radius.
pub open spec fn tick_kin(kin: PlayerKinematics, input: InputFrame) -> PlayerKinematics {
    let k1 = integrate_spec(kin, input);
    let region = region_for_x(k1.position.x as int);
    PlayerKinematics {
        position: clamp_spec(k1.position, tube_radius_spec(region)),
        ..k1
    }
}

/// The per-tick step of one participant: only the kinematics move.
pub open spec fn tick_player(p: PlayerModel) -> PlayerModel {
    PlayerModel { kin: tick_kin(p.kin, p.last_input), ..p }
}

/// The completion latch for one participant: the first tick that finds the
/// participant in the terminal region is recorded, and never overwritten.
pub open spec fn latch_player(p: PlayerModel, now: u32) -> PlayerModel {
    if region_for_x(p.kin.position.x as int) == RegionId::Ampulla && p.finished_tick is None {
        PlayerModel { finished_tick: Some(now), ..p }
    } else {
        p
    }
}

/// One participant's snapshot entry: identifier, latest kinematics and the
/// region resolved from the latest position.
pub open spec fn snapshot_entity(p: PlayerModel) -> EntitySnapshot {
    EntitySnapshot {
        id: p.id,
        position: p.kin.position,
        velocity: p.kin.velocity,
        stamina: p.kin.stamina,
        region: region_for_x(p.kin.position.x as int),
    }
}

/// The participant state a fresh connection is admitted with.
pub open spec fn spawned_player(id: u64, first: bool) -> PlayerModel {
    PlayerModel {
        id: id,
        name: guest_name(id),
        ready: false,
        is_host: first,
        kin: PlayerKinematics {
            position: Vec3Milli { x: -100_000i64, y: 0i64, z: 0i64 },
            velocity: Vec3Milli { x: 0i64, y: 0i64, z: 0i64 },
            stamina: STAMINA_MAX,
        },
        last_input: InputFrame {
            tick: 0,
            up: false,
            down: false,
            left: false,
            right: false,
            boost: false,
        },
        finished_tick: None,
    }
}

impl Room {
    /// A fresh room in the lobby with an empty roster.
    pub fn new(code: String) -> (r: Room)
        ensures
            r@.code == code@,
            r@.players.len() == 0,
            r@.phase == RoomPhase::Lobby,
            r@.countdown_ticks == COUNTDOWN_TICKS,
            r@.tick == 0,
            r@.wf(),
    {
        Room {
            code,
            players: Vec::new(),
            phase: RoomPhase::Lobby,
            countdown_ticks: COUNTDOWN_TICKS,
            tick: 0,
        }
    }

    /// Milliseconds left of the countdown, derived from the tick count.
    pub fn countdown_millis(&self) -> (r: u32)
        requires
            self@.wf(),
        ensures
            r == self@.countdown_ticks * 1000 / TICK_RATE as int,
    {
        self.countdown_ticks * 1000 / TICK_RATE
    }

    /// Index of the roster entry carrying this identifier, if any.
    fn find_index(&self, id: u64) -> (r: Option<usize>)
        ensures
            match r {
                Some(i) => i < self.players.len() && self@.players[i as int].id == id,
                None => !self@.has_id(id),
            },
    {
        let mut k: usize = 0;
        while k < self.players.len()
            invariant
                k <= self.players.len(),
                forall|i: int| 0 <= i < k ==> (#[trigger] self@.players[i]).id != id,
            decreases self.players.len() - k,
        {
            if self.players[k].id == id {
                return Some(k);
            }
            k = k + 1;
        }
        None
    }

    /// A new connection: admit a participant with a generated guest name,
    /// the host flag exactly when the roster was empty, fresh kinematics at
    /// the start position, cleared input and no completion tick. A roster
    /// already full, or an identifier already present, leaves the room
    /// unchanged (the transport enforces both; this is the authoritative
    /// guard).
    pub fn handle_connect(&mut self, id: u64)
        requires
            old(self)@.wf(),
        ensures
            final(self)@.wf(),
            final(self)@.code == old(self)@.code,
            final(self)@.phase == old(self)@.phase,
            final(self)@.countdown_ticks == old(self)@.countdown_ticks,
            final(self)@.tick == old(self)@.tick,
            phase_step_ok(old(self)@, final(self)@),
            (old(self)@.has_id(id) || old(self)@.players.len() >= MAX_PLAYERS)
                ==> final(self)@.players == old(self)@.players,
            !(old(self)@.has_id(id) || old(self)@.players.len() >= MAX_PLAYERS) ==> {
                &&& final(self)@.players
                    == old(self)@.players.push(
                        spawned_player(id, old(self)@.players.len() == 0),
                    )
            },
    {
        if self.players.len() >= MAX_PLAYERS {
            return;
        }
        if let Some(_i) = self.find_index(id) {
            return;
        }
        let is_host = self.players.len() == 0;
        let name = make_guest_name(id);
        let kin = PlayerKinematics::spawn(start_position());
        let p = PlayerState {
            id,
            name,
            ready: false,
            is_host,
            kin,
            last_input: InputFrame::default(),
            finished_tick: None,
        };
        proof {
            assert(p@ == spawned_player(id, old(self)@.players.len() == 0));
        }
        self.players.push(p);
        proof {
            let pre = old(self)@;
            let post = self@;
            assert(post.players =~= pre.players.push(p@));
            assert forall|i: int, j: int| 0 <= i < j < post.players.len()
                implies post.players[i].id != post.players[j].id by {
                if j < pre.players.len() {
                    assert(pre.players[i].id != pre.players[j].id);
                } else {
                    assert(post.players[i] == pre.players[i]);
                    assert(!(0 <= i < pre.players.len() && pre.players[i].id == id));
                }
            }
            assert forall|i: int, j: int| 0 <= i < j < post.players.len()
                implies !(post.players[i].is_host && post.players[j].is_host) by {
                if j == pre.players.len() {
                    if post.players[j].is_host {
                        assert(pre.players.len() == 0);
                    }
                }
            }
        }
    }

    /// A disconnect: remove that participant immediately and irrevocably;
    /// if the roster is empty afterwards, the phase falls back to Lobby.
    /// An identifier not on the roster changes nothing.
    pub fn handle_disconnect(&mut self, id: u64)
        requires
            old(self)@.wf(),
        ensures
            final(self)@.wf(),
            final(self)@.code == old(self)@.code,
            final(self)@.countdown_ticks == old(self)@.countdown_ticks,
            final(self)@.tick == old(self)@.tick,
            phase_step_ok(old(self)@, final(self)@),
            !final(self)@.has_id(id),
            !old(self)@.has_id(id) ==> final(self)@.players == old(self)@.players
                && final(self)@.phase == old(self)@.phase,
            old(self)@.has_id(id) ==> exists|i: int|
                {
                    &&& 0 <= i < old(self)@.players.len()
                    &&& (#[trigger] old(self)@.players[i]).id == id
                    &&& final(self)@.players == old(self)@.players.remove(i)
                },
            final(self)@.players.len() == 0 ==> final(self)@.phase == RoomPhase::Lobby,
            final(self)@.players.len() > 0 ==> final(self)@.phase == old(self)@.phase,
    {
        let found = self.find_index(id);
        match found {
            None => {},
            Some(i) => {
                let ghost pre = self@;
                let ghost ii = i as int;
                self.players.remove(i);
                proof {
                    assert(self@.players =~= pre.players.remove(ii));
                    let post = self@;
                    assert forall|a: int, b: int| 0 <= a < b < post.players.len()
                        implies post.players[a].id != post.players[b].id
                            && !(post.players[a].is_host && post.players[b].is_host) by {
                        let a0 = if a < ii { a } else { a + 1 };
                        let b0 = if b < ii { b } else { b + 1 };
                        assert(post.players[a] == pre.players[a0]);
                        assert(post.players[b] == pre.players[b0]);
                    }
                    assert forall|k: int| 0 <= k < post.players.len()
                        implies (#[trigger] post.players[k]).id != id by {
                        let k0 = if k < ii { k } else { k + 1 };
                        assert(post.players[k] == pre.players[k0]);
                        if pre.players[k0].id == id {
                            if k0 < ii {
                                assert(pre.players[k0].id != pre.players[ii].id);
                            } else {
                                assert(pre.players[ii].id != pre.players[k0].id);
                            }
                        }
                    }
                }
                if self.players.len() == 0 {
                    self.phase = RoomPhase::Lobby;
                }
            },
        }
    }

    /// Whether every roster entry has its ready flag set.
    fn all_ready_exec(&self) -> (r: bool)
        ensures
            r == self@.all_ready(),
    {
        let mut k: usize = 0;
        while k < self.players.len()
            invariant
                k <= self.players.len(),
                forall|i: int| 0 <= i < k ==> (#[trigger] self@.players[i]).ready,
            decreases self.players.len() - k,
        {
            if !self.players[k].ready {
                proof {
                    assert(!self@.players[k as int].ready);
                }
                return false;
            }
            k = k + 1;
        }
        true
    }

    /// One inbound client request, dispatched by variant. Join sets the
    /// sender's display name; ready-toggling may start the countdown once
    /// everyone is ready; an input frame unconditionally overwrites the
    /// sender's cached input; a start request is honoured only from the
    /// host while in the lobby. Requests from identifiers not on the
    /// roster, and out-of-phase or unauthorized requests, change nothing
    /// and surface no error.
    pub fn handle_message(&mut self, sender: u64, msg: ClientMessage)
        requires
            old(self)@.wf(),
        ensures
            final(self)@.wf(),
            final(self)@.code == old(self)@.code,
            final(self)@.tick == old(self)@.tick,
            final(self)@.players.len() == old(self)@.players.len(),
            phase_step_ok(old(self)@, final(self)@),
            msg matches ClientMessage::JoinRoom { name, room_code } ==> {
                &&& final(self)@.phase == old(self)@.phase
                &&& final(self)@.countdown_ticks == old(self)@.countdown_ticks
                &&& forall|k: int| 0 <= k < old(self)@.players.len()
                    ==> (#[trigger] final(self)@.players[k]) == (
                        if old(self)@.players[k].id == sender {
                            PlayerModel { name: name@, ..old(self)@.players[k] }
                        } else {
                            old(self)@.players[k]
                        })
            },
            msg matches ClientMessage::SetReady { ready } ==> {
                &&& forall|k: int| 0 <= k < old(self)@.players.len()
                    ==> (#[trigger] final(self)@.players[k]) == (
                        if old(self)@.players[k].id == sender {
                            PlayerModel { ready: ready, ..old(self)@.players[k] }
                        } else {
                            old(self)@.players[k]
                        })
                &&& if old(self)@.phase == RoomPhase::Lobby && old(self)@.players.len() > 0
                        && final(self)@.all_ready() {
                    final(self)@.phase == RoomPhase::Countdown
                        && final(self)@.countdown_ticks == COUNTDOWN_TICKS
                } else {
                    final(self)@.phase == old(self)@.phase
                        && final(self)@.countdown_ticks == old(self)@.countdown_ticks
                }
            },
            msg matches ClientMessage::InputFrame(frame) ==> {
                &&& final(self)@.phase == old(self)@.phase
                &&& final(self)@.countdown_ticks == old(self)@.countdown_ticks
                &&& forall|k: int| 0 <= k < old(self)@.players.len()
                    ==> (#[trigger] final(self)@.players[k]) == (
                        if old(self)@.players[k].id == sender {
                            PlayerModel { last_input: frame, ..old(self)@.players[k] }
                        } else {
                            old(self)@.players[k]
                        })
            },
            msg matches ClientMessage::StartRace ==> {
                &&& final(self)@.players == old(self)@.players
                &&& if old(self)@.phase == RoomPhase::Lobby && exists|k: int|
                        0 <= k < old(self)@.players.len()
                            && (#[trigger] old(self)@.players[k]).id == sender
                            && old(self)@.players[k].is_host {
                    final(self)@.phase == RoomPhase::Countdown
                        && final(self)@.countdown_ticks == COUNTDOWN_TICKS
                } else {
                    final(self)@.phase == old(self)@.phase
                        && final(self)@.countdown_ticks == old(self)@.countdown_ticks
                }
            },
    {
        let ghost pre = self@;
        match msg {
            ClientMessage::JoinRoom { name, room_code: _ } => {
                if let Some(i) = self.find_index(sender) {
                    let mut p = self.players.remove(i);
                    p.name = name;
                    self.players.insert(i, p);
                    proof {
                        assert(self@.players =~= pre.players.update(
                            i as int,
                            PlayerModel { name: name@, ..pre.players[i as int] },
                        ));
                        lemma_pointwise_update_preserves_wf(pre, self@);
                    }
                }
            },
            ClientMessage::SetReady { ready } => {
                if let Some(i) = self.find_index(sender) {
                    let mut p = self.players.remove(i);
                    p.ready = ready;
                    self.players.insert(i, p);
                    proof {
                        assert(self@.players =~= pre.players.update(
                            i as int,
                            PlayerModel { ready: ready, ..pre.players[i as int] },
                        ));
                        lemma_pointwise_update_preserves_wf(pre, self@);
                    }
                }
                if self.players.len() > 0 && self.all_ready_exec() {
                    if self.phase == RoomPhase::Lobby {
                        self.phase = RoomPhase::Countdown;
                        self.countdown_ticks = COUNTDOWN_TICKS;
                    }
                }
            },
            ClientMessage::InputFrame(frame) => {
                if let Some(i) = self.find_index(sender) {
                    let mut p = self.players.remove(i);
                    p.last_input = frame;
                    self.players.insert(i, p);
                    proof {
                        assert(self@.players =~= pre.players.update(
                            i as int,
                            PlayerModel { last_input: frame, ..pre.players[i as int] },
                        ));
                        lemma_pointwise_update_preserves_wf(pre, self@);
                    }
                }
            },
            ClientMessage::StartRace => {
                if let Some(i) = self.find_index(sender) {
                    if self.players[i].is_host {
                        if self.phase == RoomPhase::Lobby {
                            self.phase = RoomPhase::Countdown;
                            self.countdown_ticks = COUNTDOWN_TICKS;
                        }
                    } else {
                        proof {
                            let pre = old(self)@;
                            let ii = i as int;
                            assert forall|k: int|
                                0 <= k < pre.players.len() && pre.players[k].id == sender
                                implies !(#[trigger] pre.players[k]).is_host by {
                                if k < ii {
                                    assert(pre.players[k].id != pre.players[ii].id);
                                } else if k > ii {
                                    assert(pre.players[ii].id != pre.players[k].id);
                                }
                            }
                        }
                    }
                }
            },
        }
    }

    /// The integrator phase of the fixed tick: while the room is counting
    /// down or racing, advance every participant one tick from their
    /// cached input, resolve their region and clamp their off-axis
    /// displacement to its radius. In any other phase nothing moves.
    pub fn apply_inputs(&mut self)
        requires
            old(self)@.wf(),
        ensures
            final(self)@.wf(),
            final(self)@.code == old(self)@.code,
            final(self)@.phase == old(self)@.phase,
            final(self)@.countdown_ticks == old(self)@.countdown_ticks,
            final(self)@.tick == old(self)@.tick,
            phase_step_ok(old(self)@, final(self)@),
            (old(self)@.phase == RoomPhase::Countdown || old(self)@.phase == RoomPhase::Racing)
                ==> final(self)@.players
                    == old(self)@.players.map_values(|p: PlayerModel| tick_player(p)),
            !(old(self)@.phase == RoomPhase::Countdown || old(self)@.phase == RoomPhase::Racing)
                ==> final(self)@.players == old(self)@.players,
            (old(self)@.phase == RoomPhase::Countdown || old(self)@.phase == RoomPhase::Racing)
                ==> forall|k: int| 0 <= k < final(self)@.players.len() ==> {
                    let pos = (#[trigger] final(self)@.players[k]).kin.position;
                    off_axis_sq(pos) <= tube_radius_spec(region_for_x(pos.x as int))
                        * tube_radius_spec(region_for_x(pos.x as int))
                },
    {
        if !(self.phase == RoomPhase::Countdown || self.phase == RoomPhase::Racing) {
            return;
        }
        let ghost pre = self@;
        let mut k: usize = 0;
        while k < self.players.len()
            invariant
                pre.wf(),
                k <= self.players.len(),
                self.players.len() == pre.players.len(),
                self@.code == pre.code,
                self@.phase == pre.phase,
                self@.countdown_ticks == pre.countdown_ticks,
                self@.tick == pre.tick,
                forall|i: int| 0 <= i < k
                    ==> (#[trigger] self@.players[i]) == tick_player(pre.players[i]),
                forall|i: int| k <= i < pre.players.len()
                    ==> (#[trigger] self@.players[i]) == pre.players[i],
                forall|i: int| 0 <= i < k ==> (#[trigger] self@.players[i]).kin.wf(),
                forall|i: int| 0 <= i < k ==> {
                    let pos = (#[trigger] self@.players[i]).kin.position;
                    off_axis_sq(pos) <= tube_radius_spec(region_for_x(pos.x as int))
                        * tube_radius_spec(region_for_x(pos.x as int))
                },
            decreases self.players.len() - k,
        {
            let p_kin = self.players[k].kin;
            let p_input = self.players[k].last_input;
            proof {
                assert(self@.players[k as int] == pre.players[k as int]);
                assert(pre.players[k as int].kin.wf());
            }
            let k1 = integrate_input(p_kin, &p_input);
            let region = region_for_position(k1.position);
            let radius = tube_radius(region);
            let clamped = clamp_to_radius(k1.position, radius);
            let ghost before = self@.players;
            let mut p = self.players.remove(k);
            p.kin = PlayerKinematics {
                position: clamped,
                velocity: k1.velocity,
                stamina: k1.stamina,
            };
            let ghost pv = p@;
            self.players.insert(k, p);
            proof {
                assert(pv == tick_player(pre.players[k as int]));
                assert(pv.kin.wf());
                assert(self@.players =~= before.update(k as int, pv));
            }
            k = k + 1;
        }
        proof {
            assert(self@.players =~= pre.players.map_values(|p: PlayerModel| tick_player(p)));
            lemma_pointwise_update_preserves_wf_kin(pre, self@);
        }
    }

    /// Countdown timing, the tick counter and the completion latch. During
    /// the countdown the tick budget shrinks by one and racing begins the
    /// moment it reaches zero. During the race the tick counter advances
    /// and every participant found in the terminal region has their
    /// completion tick latched, once and for all.
    pub fn physics_step(&mut self)
        requires
            old(self)@.wf(),
        ensures
            final(self)@.wf(),
            final(self)@.code == old(self)@.code,
            final(self)@.players.len() == old(self)@.players.len(),
            phase_step_ok(old(self)@, final(self)@),
            old(self)@.phase == RoomPhase::Countdown ==> {
                &&& final(self)@.players == old(self)@.players
                &&& final(self)@.tick == old(self)@.tick
                &&& if old(self)@.countdown_ticks > 0 {
                    final(self)@.countdown_ticks == old(self)@.countdown_ticks - 1
                        && final(self)@.phase == (if old(self)@.countdown_ticks == 1 {
                        RoomPhase::Racing
                    } else {
                        RoomPhase::Countdown
                    })
                } else {
                    final(self)@.countdown_ticks == old(self)@.countdown_ticks
                        && final(self)@.phase == old(self)@.phase
                }
            },
            old(self)@.phase == RoomPhase::Racing ==> {
                &&& final(self)@.phase == RoomPhase::Racing
                &&& final(self)@.countdown_ticks == old(self)@.countdown_ticks
                &&& final(self)@.tick == (if old(self)@.tick == u32::MAX {
                    0u32
                } else {
                    (old(self)@.tick + 1) as u32
                })
                &&& final(self)@.players == old(self)@.players.map_values(
                    |p: PlayerModel| latch_player(p, final(self)@.tick),
                )
            },
            !(old(self)@.phase == RoomPhase::Countdown || old(self)@.phase == RoomPhase::Racing)
                ==> final(self)@ == old(self)@,
            forall|k: int| 0 <= k < old(self)@.players.len()
                && (#[trigger] old(self)@.players[k]).finished_tick is Some
                ==> final(self)@.players[k].finished_tick == old(self)@.players[k].finished_tick,
    {
        if self.phase == RoomPhase::Countdown {
            if self.countdown_ticks > 0 {
                self.countdown_ticks = self.countdown_ticks - 1;
                if self.countdown_ticks == 0 {
                    self.phase = RoomPhase::Racing;
                }
            }
            return;
        }
        if !(self.phase == RoomPhase::Racing) {
            return;
        }
        self.tick = if self.tick == u32::MAX {
            0
        } else {
            self.tick + 1
        };
        let now = self.tick;
        let ghost pre = self@;
        let mut k: usize = 0;
        while k < self.players.len()
            invariant
                pre.wf(),
                k <= self.players.len(),
                self.players.len() == pre.players.len(),
                self@.code == pre.code,
                self@.phase == pre.phase,
                self@.countdown_ticks == pre.countdown_ticks,
                self@.tick == pre.tick,
                now == pre.tick,
                forall|i: int| 0 <= i < k
                    ==> (#[trigger] self@.players[i]) == latch_player(pre.players[i], now),
                forall|i: int| k <= i < pre.players.len()
                    ==> (#[trigger] self@.players[i]) == pre.players[i],
            decreases self.players.len() - k,
        {
            let region = region_for_position(self.players[k].kin.position);
            let already = self.players[k].finished_tick.is_some();
            if region == RegionId::Ampulla && !already {
                let ghost before = self@.players;
                let mut p = self.players.remove(k);
                p.finished_tick = Some(now);
                let ghost pv = p@;
                self.players.insert(k, p);
                proof {
                    assert(pv == latch_player(pre.players[k as int], now));
                    assert(self@.players =~= before.update(k as int, pv));
                }
            } else {
                proof {
                    assert(self@.players[k as int] == latch_player(pre.players[k as int], now));
                }
            }
            k = k + 1;
        }
        proof {
            assert(self@.players =~= pre.players.map_values(
                |p: PlayerModel| latch_player(p, now),
            ));
            lemma_pointwise_update_preserves_wf_kin(pre, self@);
        }
    }

    /// Whether any roster entry has a completion tick latched.
    fn any_finished_exec(&self) -> (r: bool)
        ensures
            r == self@.any_finished(),
    {
        let mut k: usize = 0;
        while k < self.players.len()
            invariant
                k <= self.players.len(),
                forall|i: int| 0 <= i < k
                    ==> (#[trigger] self@.players[i]).finished_tick is None,
            decreases self.players.len() - k,
        {
            if self.players[k].finished_tick.is_some() {
                proof {
                    assert(self@.players[k as int].finished_tick is Some);
                }
                return true;
            }
            k = k + 1;
        }
        false
    }

    /// The phase check after the latch: the instant any participant has a
    /// completion tick while racing, the race is over for everyone.
    pub fn race_state_system(&mut self)
        requires
            old(self)@.wf(),
        ensures
            final(self)@.wf(),
            final(self)@.code == old(self)@.code,
            final(self)@.players == old(self)@.players,
            final(self)@.countdown_ticks == old(self)@.countdown_ticks,
            final(self)@.tick == old(self)@.tick,
            phase_step_ok(old(self)@, final(self)@),
            final(self)@.phase == (if old(self)@.phase == RoomPhase::Racing
                && old(self)@.any_finished() {
                RoomPhase::Finished
            } else {
                old(self)@.phase
            }),
    {
        if self.phase == RoomPhase::Racing && self.any_finished_exec() {
            self.phase = RoomPhase::Finished;
        }
    }

    /// Snapshot payload for the active phases: the tick counter and one
    /// entry per participant with identifier, latest position and velocity,
    /// stamina and resolved region — so the entry count always equals the
    /// roster size and the positions are the latest integrated ones. In
    /// any other phase there is nothing to broadcast.
    pub fn build_snapshot(&self) -> (r: Option<ServerMessage>)
        requires
            self@.wf(),
        ensures
            (r is Some) <==> (self@.phase == RoomPhase::Countdown
                || self@.phase == RoomPhase::Racing),
            r matches Some(m) ==> m matches ServerMessage::Snapshot { tick, entities }
                && tick == self@.tick
                && entities@ == self@.players.map_values(|p: PlayerModel| snapshot_entity(p)),
    {
        if !(self.phase == RoomPhase::Countdown || self.phase == RoomPhase::Racing) {
            return None;
        }
        let mut entities: Vec<EntitySnapshot> = Vec::new();
        let mut k: usize = 0;
        while k < self.players.len()
            invariant
                k <= self.players.len(),
                entities@.len() == k,
                forall|i: int| 0 <= i < k
                    ==> (#[trigger] entities@[i]) == snapshot_entity(self@.players[i]),
            decreases self.players.len() - k,
        {
            let region = region_for_position(self.players[k].kin.position);
            entities.push(EntitySnapshot {
                id: self.players[k].id,
                position: self.players[k].kin.position,
                velocity: self.players[k].kin.velocity,
                stamina: self.players[k].kin.stamina,
                region,
            });
            k = k + 1;
        }
        proof {
            assert(entities@ =~= self@.players.map_values(|p: PlayerModel| snapshot_entity(p)));
        }
        Some(ServerMessage::Snapshot { tick: self.tick, entities })
    }

    /// Room-state payload, sent on the frame cadence regardless of phase:
    /// the room code, one summary per roster entry, and the current phase.
    pub fn build_room_state(&self) -> (r: ServerMessage)
        requires
            self@.wf(),
        ensures
            r matches ServerMessage::RoomState { room_code, players, state }
                && room_code@ == self@.code
                && state == self@.phase
                && players@.len() == self@.players.len()
                && forall|k: int| 0 <= k < self@.players.len()
                    ==> (#[trigger] players@[k]).id == self@.players[k].id
                        && players@[k].name@ == self@.players[k].name
                        && players@[k].ready == self@.players[k].ready
                        && players@[k].is_host == self@.players[k].is_host,
    {
        let mut summaries: Vec<PlayerSummary> = Vec::new();
        let mut k: usize = 0;
        while k < self.players.len()
            invariant
                k <= self.players.len(),
                summaries@.len() == k,
                forall|i: int| 0 <= i < k
                    ==> (#[trigger] summaries@[i]).id == self@.players[i].id
                        && summaries@[i].name@ == self@.players[i].name
                        && summaries@[i].ready == self@.players[i].ready
                        && summaries@[i].is_host == self@.players[i].is_host,
            decreases self.players.len() - k,
        {
            summaries.push(PlayerSummary {
                id: self.players[k].id,
                name: self.players[k].name.clone(),
                ready: self.players[k].ready,
                is_host: self.players[k].is_host,
            });
            k = k + 1;
        }
        ServerMessage::RoomState {
            room_code: self.code.clone(),
            players: summaries,
            state: self.phase,
        }
    }

    /// One whole fixed simulation tick in pipeline order: integrate every
    /// participant's cached input, advance countdown or tick counter and
    /// latch completions, resolve the phase, and build the snapshot payload
    /// for the active phases. Roster membership, names, ready and host
    /// flags never change here, and a latched completion tick never moves.
    pub fn advance_tick(&mut self) -> (snap: Option<ServerMessage>)
        requires
            old(self)@.wf(),
        ensures
            final(self)@.wf(),
            final(self)@.code == old(self)@.code,
            final(self)@.players.len() == old(self)@.players.len(),
            forall|k: int| 0 <= k < old(self)@.players.len()
                ==> (#[trigger] final(self)@.players[k]).id == old(self)@.players[k].id
                    && final(self)@.players[k].name == old(self)@.players[k].name
                    && final(self)@.players[k].ready == old(self)@.players[k].ready
                    && final(self)@.players[k].is_host == old(self)@.players[k].is_host,
            forall|k: int| 0 <= k < old(self)@.players.len()
                && (#[trigger] old(self)@.players[k]).finished_tick is Some
                ==> final(self)@.players[k].finished_tick == old(self)@.players[k].finished_tick,
            (old(self)@.phase == RoomPhase::Lobby || old(self)@.phase == RoomPhase::Finished)
                ==> final(self)@ == old(self)@ && snap is None,
            (snap is Some) <==> (final(self)@.phase == RoomPhase::Countdown
                || final(self)@.phase == RoomPhase::Racing),
            snap matches Some(m) ==> m matches ServerMessage::Snapshot { tick, entities }
                && tick == final(self)@.tick
                && entities@ == final(self)@.players.map_values(
                    |p: PlayerModel| snapshot_entity(p),
                ),
    {
        self.apply_inputs();
        self.physics_step();
        self.race_state_system();
        self.build_snapshot()
    }
}

/// A pointwise roster change that leaves identifiers and host flags alone
/// and keeps every entry's kinematics well-formed preserves the room
/// invariant.
proof fn lemma_pointwise_update_preserves_wf_kin(pre: RoomModel, post: RoomModel)
    requires
        pre.wf(),
        post.players.len() == pre.players.len(),
        forall|k: int| 0 <= k < post.players.len()
            ==> (#[trigger] post.players[k]).id == pre.players[k].id
                && post.players[k].is_host == pre.players[k].is_host
                && post.players[k].kin.wf(),
        post.countdown_ticks <= COUNTDOWN_TICKS,
        post.players.len() == 0 ==> post.phase == RoomPhase::Lobby,
    ensures
        post.wf(),
{
    assert forall|i: int, j: int| 0 <= i < j < post.players.len()
        implies post.players[i].id != post.players[j].id
            && !(post.players[i].is_host && post.players[j].is_host) by {
        assert(pre.players[i].id != pre.players[j].id);
        assert(!(pre.players[i].is_host && pre.players[j].is_host));
    }
}

} // verus!
