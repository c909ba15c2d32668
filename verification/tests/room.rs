use race_sim::{ClientMessage, InputFrame, RegionId, Room, RoomPhase, ServerMessage};

fn lobby_room() -> Room {
    Room::new(String::from("WXYZ"))
}

fn right_input() -> ClientMessage {
    ClientMessage::InputFrame(InputFrame {
        tick: 0,
        up: false,
        down: false,
        left: false,
        right: true,
        boost: false,
    })
}

#[test]
fn connect_assigns_guest_name_and_host_flag() {
    let mut room = lobby_room();
    room.handle_connect(7);
    room.handle_connect(9);
    assert_eq!(room.players.len(), 2);
    assert_eq!(room.players[0].id, 7);
    assert_eq!(room.players[0].name, "Guest-7");
    assert!(room.players[0].is_host);
    assert!(!room.players[1].is_host);
    assert!(!room.players[0].ready);
    assert_eq!(room.players[0].kin.position.x, -100_000);
    assert_eq!(room.players[0].kin.stamina, 100_000);
    assert!(room.players[0].finished_tick.is_none());
}

#[test]
fn duplicate_or_overflow_connects_are_ignored() {
    let mut room = lobby_room();
    for id in 0..8 {
        room.handle_connect(id);
    }
    assert_eq!(room.players.len(), 8);
    room.handle_connect(3);
    room.handle_connect(99);
    assert_eq!(room.players.len(), 8);
}

#[test]
fn disconnect_removes_and_empty_roster_resets_to_lobby() {
    let mut room = lobby_room();
    room.handle_connect(1);
    room.handle_connect(2);
    room.handle_message(1, ClientMessage::SetReady { ready: true });
    room.handle_message(2, ClientMessage::SetReady { ready: true });
    assert_eq!(room.phase, RoomPhase::Countdown);
    room.handle_disconnect(2);
    assert_eq!(room.players.len(), 1);
    assert_eq!(room.phase, RoomPhase::Countdown);
    room.handle_disconnect(1);
    assert_eq!(room.players.len(), 0);
    assert_eq!(room.phase, RoomPhase::Lobby);
    // Unknown identifiers change nothing.
    room.handle_disconnect(42);
    assert_eq!(room.players.len(), 0);
}

#[test]
fn join_sets_display_name() {
    let mut room = lobby_room();
    room.handle_connect(5);
    room.handle_message(
        5,
        ClientMessage::JoinRoom {
            name: String::from("Swift"),
            room_code: None,
        },
    );
    assert_eq!(room.players[0].name, "Swift");
    // A join from an unknown identifier is dropped silently.
    room.handle_message(
        77,
        ClientMessage::JoinRoom {
            name: String::from("Ghost"),
            room_code: None,
        },
    );
    assert_eq!(room.players.len(), 1);
}

#[test]
fn all_ready_starts_countdown_at_three_seconds() {
    let mut room = lobby_room();
    room.handle_connect(1);
    room.handle_connect(2);
    room.handle_message(1, ClientMessage::SetReady { ready: true });
    assert_eq!(room.phase, RoomPhase::Lobby);
    room.handle_message(2, ClientMessage::SetReady { ready: true });
    assert_eq!(room.phase, RoomPhase::Countdown);
    assert_eq!(room.countdown_millis(), 3_000);
}

#[test]
fn countdown_millis_track_elapsed_ticks_exactly() {
    let mut room = lobby_room();
    room.handle_connect(1);
    room.handle_message(1, ClientMessage::StartRace);
    assert_eq!(room.countdown_millis(), 3_000);
    for _ in 0..60 {
        room.advance_tick();
    }
    assert_eq!(room.countdown_millis(), 2_000);
    for _ in 0..60 {
        room.advance_tick();
    }
    assert_eq!(room.countdown_millis(), 1_000);
}

#[test]
fn countdown_reaches_racing_after_180_ticks() {
    let mut room = lobby_room();
    room.handle_connect(1);
    room.handle_connect(2);
    room.handle_message(1, ClientMessage::SetReady { ready: true });
    room.handle_message(2, ClientMessage::SetReady { ready: true });
    assert_eq!(room.phase, RoomPhase::Countdown);
    for _ in 0..179 {
        room.advance_tick();
    }
    assert_eq!(room.phase, RoomPhase::Countdown);
    room.advance_tick();
    assert_eq!(room.phase, RoomPhase::Racing);
}

#[test]
fn host_start_request_is_honoured_and_others_ignored() {
    let mut room = lobby_room();
    room.handle_connect(1);
    room.handle_connect(2);
    room.handle_message(2, ClientMessage::StartRace);
    assert_eq!(room.phase, RoomPhase::Lobby);
    room.handle_message(1, ClientMessage::StartRace);
    assert_eq!(room.phase, RoomPhase::Countdown);
    // A second start request outside the lobby is a no-op.
    room.handle_message(1, ClientMessage::StartRace);
    assert_eq!(room.phase, RoomPhase::Countdown);
}

#[test]
fn out_of_phase_transition_attempts_are_no_ops() {
    let mut room = lobby_room();
    room.handle_connect(1);
    // Racing cannot be reached from the lobby directly: ticks in the lobby
    // change nothing.
    let snap = room.advance_tick();
    assert!(snap.is_none());
    assert_eq!(room.phase, RoomPhase::Lobby);
    // Ready-toggling outside the lobby does not restart the countdown.
    room.handle_message(1, ClientMessage::StartRace);
    assert_eq!(room.phase, RoomPhase::Countdown);
    for _ in 0..180 {
        room.advance_tick();
    }
    assert_eq!(room.phase, RoomPhase::Racing);
    room.handle_message(1, ClientMessage::SetReady { ready: true });
    assert_eq!(room.phase, RoomPhase::Racing);
}

#[test]
fn input_frames_overwrite_the_cache_unconditionally() {
    let mut room = lobby_room();
    room.handle_connect(1);
    room.handle_message(1, right_input());
    assert!(room.players[0].last_input.right);
    room.handle_message(
        1,
        ClientMessage::InputFrame(InputFrame {
            tick: 42,
            up: true,
            down: false,
            left: false,
            right: false,
            boost: false,
        }),
    );
    // Last write wins: the earlier frame is gone, whatever its tick said.
    assert!(room.players[0].last_input.up);
    assert!(!room.players[0].last_input.right);
    assert_eq!(room.players[0].last_input.tick, 42);
}

#[test]
fn snapshot_matches_roster_and_latest_positions() {
    let mut room = lobby_room();
    room.handle_connect(1);
    room.handle_connect(2);
    room.handle_message(1, right_input());
    room.handle_message(1, ClientMessage::SetReady { ready: true });
    room.handle_message(2, ClientMessage::SetReady { ready: true });
    let snap = room.advance_tick().expect("countdown must broadcast");
    match snap {
        ServerMessage::Snapshot { tick, entities } => {
            assert_eq!(tick, room.tick);
            assert_eq!(entities.len(), room.players.len());
            for (entity, player) in entities.iter().zip(room.players.iter()) {
                assert_eq!(entity.id, player.id);
                assert_eq!(entity.position, player.kin.position);
                assert_eq!(entity.velocity, player.kin.velocity);
                assert_eq!(entity.stamina, player.kin.stamina);
            }
            // The participant holding right has moved laterally already.
            assert_eq!(entities[0].position.z, 4_166);
        }
        other => panic!("expected a snapshot, got {:?}", other),
    }
}

#[test]
fn room_state_reports_roster_and_phase() {
    let mut room = lobby_room();
    room.handle_connect(1);
    room.handle_message(
        1,
        ClientMessage::JoinRoom {
            name: String::from("Dart"),
            room_code: Some(String::from("WXYZ")),
        },
    );
    match room.build_room_state() {
        ServerMessage::RoomState {
            room_code,
            players,
            state,
        } => {
            assert_eq!(room_code, "WXYZ");
            assert_eq!(state, RoomPhase::Lobby);
            assert_eq!(players.len(), 1);
            assert_eq!(players[0].id, 1);
            assert_eq!(players[0].name, "Dart");
            assert!(players[0].is_host);
            assert!(!players[0].ready);
        }
        other => panic!("expected room state, got {:?}", other),
    }
}

#[test]
fn terminal_region_latches_completion_and_finishes_the_race() {
    let mut room = lobby_room();
    room.handle_connect(1);
    room.handle_connect(2);
    room.handle_message(1, ClientMessage::SetReady { ready: true });
    room.handle_message(2, ClientMessage::SetReady { ready: true });
    for _ in 0..180 {
        room.advance_tick();
    }
    assert_eq!(room.phase, RoomPhase::Racing);
    // A primary-axis coordinate past the last marker is the terminal region.
    room.players[0].kin.position.x = 3_601_000;
    assert_eq!(
        region_for_position_of(&room, 0),
        RegionId::Ampulla
    );
    room.physics_step();
    let latched = room.players[0].finished_tick.expect("completion must latch");
    assert_eq!(latched, room.tick);
    assert!(room.players[1].finished_tick.is_none());
    room.race_state_system();
    assert_eq!(room.phase, RoomPhase::Finished);
    // Further ticks never move the latched completion tick.
    let before = room.players[0].finished_tick;
    for _ in 0..5 {
        room.advance_tick();
    }
    assert_eq!(room.players[0].finished_tick, before);
}

fn region_for_position_of(room: &Room, idx: usize) -> RegionId {
    race_sim::region_for_position(room.players[idx].kin.position)
}

#[test]
fn exact_marker_coordinate_resolves_to_fifth_region() {
    let mut room = lobby_room();
    room.handle_connect(1);
    room.players[0].kin.position.x = 2_600_000;
    assert_eq!(region_for_position_of(&room, 0), RegionId::Tube);
}
