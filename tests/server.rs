use fps_netcode::math::Vec3;
use fps_netcode::physics::{Body, ConfigError, MovementConfig, PhysicsConfig};
use fps_netcode::protocol::{BodyState, ClientMessage, PlayerInput, ServerMessage};
use fps_netcode::server::AuthoritativePhysics;

fn forward(sequence: u64) -> PlayerInput {
    PlayerInput { sequence, move_forward: true, ..Default::default() }
}

fn server_with(move_speed: u32, max_speed: u32) -> AuthoritativePhysics {
    let movement = MovementConfig { move_speed, max_speed };
    let mut s = AuthoritativePhysics::with_config(PhysicsConfig::standard(), movement).unwrap();
    assert!(s.connect(1));
    s
}

#[test]
fn stale_and_replayed_sequences_are_rejected() {
    let mut s = AuthoritativePhysics::new();
    assert!(s.connect(1));
    assert!(s.process_input(1, &forward(5)));
    assert!(!s.process_input(1, &forward(5)));
    assert!(!s.process_input(1, &forward(3)));
    assert!(s.process_input(1, &forward(6)));
    assert_eq!(s.players[0].last_sequence, Some(6));
    assert_eq!(s.queued.len(), 2);
}

#[test]
fn first_input_is_accepted_whatever_its_sequence() {
    let mut s = AuthoritativePhysics::new();
    s.connect(1);
    assert!(s.process_input(1, &PlayerInput { sequence: 0, ..Default::default() }));
    assert_eq!(s.players[0].last_sequence, Some(0));
    assert!(!s.process_input(1, &forward(0)));
    assert!(s.process_input(1, &forward(1)));
}

#[test]
fn first_input_still_meets_the_speed_cap() {
    let mut s = server_with(10_010, 10_000);
    assert!(!s.process_input(1, &forward(0)));
    assert_eq!(s.players[0].last_sequence, None);
}

#[test]
fn speed_exactly_at_the_cap_is_accepted() {
    let mut s = server_with(10_000, 10_000);
    assert!(s.process_input(1, &forward(1)));
}

#[test]
fn speed_just_above_the_cap_is_rejected() {
    let mut s = server_with(10_010, 10_000);
    assert!(!s.process_input(1, &forward(1)));
    assert_eq!(s.players[0].last_sequence, None);
    assert!(s.queued.is_empty());
    // Standing still asks for no speed at all.
    assert!(s.process_input(1, &PlayerInput { sequence: 1, ..Default::default() }));
}

#[test]
fn diagonal_movement_counts_both_axes() {
    // 7_071 * sqrt(2) = 9_999.8, 7_072 * sqrt(2) = 10_001.2
    let diagonal = PlayerInput { sequence: 1, move_forward: true, move_left: true, ..Default::default() };
    let mut within = server_with(7_071, 10_000);
    assert!(within.process_input(1, &diagonal));
    let mut above = server_with(7_072, 10_000);
    assert!(!above.process_input(1, &diagonal));
}

#[test]
fn input_from_an_unknown_player_is_rejected() {
    let mut s = AuthoritativePhysics::new();
    assert!(!s.process_input(4, &forward(1)));
}

#[test]
fn connecting_twice_is_refused() {
    let mut s = AuthoritativePhysics::new();
    assert!(s.connect(1));
    assert!(!s.connect(1));
    assert_eq!(s.players.len(), 1);
    assert_eq!(s.world.bodies, vec![Body::spawn(1)]);
}

#[test]
fn disconnect_releases_cursor_body_and_queued_input() {
    let mut s = AuthoritativePhysics::new();
    s.connect(1);
    s.connect(2);
    assert!(s.process_input(1, &forward(1)));
    assert!(s.process_input(2, &forward(1)));
    assert!(s.disconnect(1));
    assert!(!s.disconnect(1));
    assert_eq!(s.players.len(), 1);
    assert_eq!(s.players[0].id, 2);
    assert_eq!(s.world.bodies, vec![Body::spawn(2)]);
    assert_eq!(s.queued.len(), 1);
    assert_eq!(s.queued[0].player_id, 2);
    // The cursor starts over if the player comes back.
    assert!(s.connect(1));
    assert!(s.process_input(1, &forward(1)));
}

#[test]
fn accepted_input_moves_the_body_at_the_next_step() {
    let mut s = AuthoritativePhysics::new();
    s.connect(1);
    assert!(s.process_input(1, &forward(1)));
    // Not applied between steps.
    assert_eq!(s.world.body(1).unwrap(), Body::spawn(1));
    s.step();
    assert_eq!(s.tick(), 1);
    assert!(s.queued.is_empty());
    let b = s.world().body(1).unwrap();
    assert_eq!(b.velocity, Vec3::new(0, -163_503_270, 5_000_000_000));
    assert_eq!(b.position, Vec3::new(0, -2_725_109_001_090, 83_335_000_000_000));
}

#[test]
fn snapshot_carries_tick_bodies_and_cursors() {
    let mut s = AuthoritativePhysics::new();
    s.connect(1);
    s.connect(2);
    s.process_input(2, &forward(9));
    s.step();
    let snap = s.snapshot();
    assert_eq!(snap.tick, 1);
    assert_eq!(snap.bodies.len(), 2);
    assert_eq!(snap.bodies[0], BodyState { body: s.world.bodies[0], last_sequence: None });
    assert_eq!(snap.bodies[1], BodyState { body: s.world.bodies[1], last_sequence: Some(9) });
}

#[test]
fn two_servers_fed_the_same_inputs_agree() {
    let mut a = AuthoritativePhysics::new();
    let mut b = AuthoritativePhysics::new();
    for s in [&mut a, &mut b] {
        s.connect(1);
        s.connect(2);
        for k in 1..=30u64 {
            s.process_input(1, &PlayerInput { sequence: k, move_left: k % 3 == 0, move_forward: true, ..Default::default() });
            s.process_input(2, &PlayerInput { sequence: k, move_backward: k % 2 == 0, look_delta_x: 7, ..Default::default() });
            s.step();
        }
    }
    assert_eq!(a.snapshot(), b.snapshot());
}

#[test]
fn server_rejects_zero_timestep() {
    let config = PhysicsConfig { gravity: Vec3::zero(), time_step: 0 };
    let movement = MovementConfig { move_speed: 1, max_speed: 1 };
    assert!(matches!(
        AuthoritativePhysics::with_config(config, movement),
        Err(ConfigError::InvalidTimestep)
    ));
}

#[test]
fn messages_drive_the_server() {
    let mut s = AuthoritativePhysics::new();
    let connect = ClientMessage::Connect { player_name: "ana".to_string() };
    assert_eq!(s.handle_message(3, &connect), Some(ServerMessage::Welcome { player_id: 3 }));
    assert_eq!(s.handle_message(3, &connect), None);
    assert_eq!(s.handle_message(3, &ClientMessage::Input(forward(1))), None);
    assert_eq!(s.players[0].last_sequence, Some(1));
    assert_eq!(s.handle_message(3, &ClientMessage::Disconnect), None);
    assert!(s.players.is_empty());
    assert!(s.world.bodies.is_empty());
    assert!(s.queued.is_empty());
}
