use fps_netcode::client::{ClientPhysics, ReconcileOutcome};
use fps_netcode::math::Vec3;
use fps_netcode::physics::{Body, MovementConfig, PhysicsConfig};
use fps_netcode::protocol::{
    decode_client_message, decode_server_message, encode_client_message, encode_server_message,
    snapshot_from_update, state_update, BodyState, ClientMessage, PlayerInput, ServerMessage,
    Snapshot,
};
use fps_netcode::server::AuthoritativePhysics;

fn forward(sequence: u64) -> PlayerInput {
    PlayerInput { sequence, move_forward: true, ..Default::default() }
}

fn snapshot_for(id: u32, tick: u64, last_sequence: Option<u64>, position: Vec3) -> Snapshot {
    let body = Body { position, ..Body::spawn(id) };
    Snapshot { tick, bodies: vec![BodyState { body, last_sequence }] }
}

#[test]
fn end_to_end_forward_step_needs_no_correction() {
    let mut server = AuthoritativePhysics::new();

    // The client connects and is welcomed.
    let hello = encode_client_message(&ClientMessage::Connect { player_name: "ana".to_string() });
    assert!(matches!(decode_client_message(&hello), Ok(ClientMessage::Connect { .. })));
    assert!(server.connect(1));
    let welcome = encode_server_message(&ServerMessage::Welcome { player_id: 1 });
    let player_id = match decode_server_message(&welcome).unwrap() {
        ServerMessage::Welcome { player_id } => player_id,
        other => panic!("unexpected {:?}", other),
    };
    let mut client = ClientPhysics::new(player_id);
    assert!(client.predicted().bodies.is_empty());
    client.join();
    assert_eq!(client.predicted().bodies, vec![Body::spawn(1)]);

    // It predicts and sends its first input.
    let input = forward(1);
    assert!(client.step_prediction(&input));
    let sent = encode_client_message(&ClientMessage::Input(input));
    let received = match decode_client_message(&sent).unwrap() {
        ClientMessage::Input(i) => i,
        other => panic!("unexpected {:?}", other),
    };
    assert!(server.process_input(1, &received));

    // The server steps once and broadcasts.
    server.step();
    let update = encode_server_message(&state_update(&server.snapshot()));
    let (tick, data) = match decode_server_message(&update).unwrap() {
        ServerMessage::StateUpdate { tick, data } => (tick, data),
        other => panic!("unexpected {:?}", other),
    };
    assert_eq!(tick, 1);
    let snapshot = snapshot_from_update(tick, &data).unwrap();
    let body = snapshot.bodies[0].body;
    assert_eq!(body.position.z, 83_335_000_000_000);
    assert_eq!(body.velocity.z, 5_000_000_000);

    // The client reconciles without a correction.
    assert_eq!(client.reconcile_with_server(&snapshot), ReconcileOutcome::WithinTolerance);
    assert_eq!(client.predicted().bodies, client.confirmed().bodies);
    assert!(client.pending.is_empty());
}

#[test]
fn packet_loss_uses_the_latest_snapshot() {
    let mut client = ClientPhysics::new(1);
    let at3 = snapshot_for(1, 3, None, Vec3::new(0, 0, 0));
    assert_eq!(client.reconcile_with_server(&at3), ReconcileOutcome::Corrected);
    // Tick 4 is lost; tick 5 arrives.
    let at5 = snapshot_for(1, 5, None, Vec3::new(0, 0, 3));
    assert_eq!(client.reconcile_with_server(&at5), ReconcileOutcome::WithinTolerance);
    assert_eq!(client.last_tick, Some(5));
    assert_eq!(client.confirmed().bodies, vec![at5.bodies[0].body]);
    // Tick 4 turning up late is dropped.
    let at4 = snapshot_for(1, 4, None, Vec3::new(9, 9, 9));
    assert_eq!(client.reconcile_with_server(&at4), ReconcileOutcome::Stale);
    assert_eq!(client.last_tick, Some(5));
    assert_eq!(client.confirmed().bodies, vec![at5.bodies[0].body]);
}

#[test]
fn reconciling_twice_equals_once() {
    let mut client = ClientPhysics::new(1);
    for k in 1..=4 {
        assert!(client.step_prediction(&forward(k)));
    }
    // The server saw input 2 land far from where the client predicted it.
    let snap = snapshot_for(1, 2, Some(2), Vec3::new(5_000_000_000_000_000, 0, 0));
    assert_eq!(client.reconcile_with_server(&snap), ReconcileOutcome::Corrected);
    let once = client.predicted().bodies.clone();
    assert_eq!(client.reconcile_with_server(&snap), ReconcileOutcome::WithinTolerance);
    assert_eq!(client.predicted().bodies, once);
}

#[test]
fn divergence_replays_unacknowledged_inputs() {
    let mut client = ClientPhysics::new(1);
    for k in 1..=3 {
        assert!(client.step_prediction(&forward(k)));
    }
    let far = Vec3::new(0, 0, -1_000_000_000_000_000);
    let snap = snapshot_for(1, 1, Some(1), far);
    assert_eq!(client.reconcile_with_server(&snap), ReconcileOutcome::Corrected);
    // Inputs 2 and 3 remain and were replayed from the server's state.
    assert_eq!(client.pending.len(), 2);
    assert_eq!(client.pending[0].input.sequence, 2);
    let mut expected = client.confirmed().duplicate();
    let movement = MovementConfig { move_speed: 5_000, max_speed: 10_000 };
    for k in 2..=3 {
        expected.apply_input(1, &forward(k), &movement);
        expected.step();
    }
    assert_eq!(client.predicted().bodies, expected.bodies);
    assert_eq!(client.pending[1].body, expected.body(1));
}

#[test]
fn small_drift_is_left_alone() {
    let mut client = ClientPhysics::new(1);
    client.join();
    assert!(client.step_prediction(&forward(1)));
    assert!(client.step_prediction(&forward(2)));
    let predicted_after_1 = client.pending[0].body.unwrap();
    let before = client.predicted().bodies.clone();
    // One micrometre off: well within the default tolerance of one millimetre.
    let nudged = Vec3 { x: predicted_after_1.position.x + 1_000_000_000, ..predicted_after_1.position };
    let snap = Snapshot {
        tick: 1,
        bodies: vec![BodyState { body: Body { position: nudged, ..predicted_after_1 }, last_sequence: Some(1) }],
    };
    assert_eq!(client.reconcile_with_server(&snap), ReconcileOutcome::WithinTolerance);
    assert_eq!(client.predicted().bodies, before);
    assert_eq!(client.pending.len(), 1);
}

#[test]
fn snapshot_without_own_body_only_updates_confirmed_world() {
    let mut client = ClientPhysics::new(1);
    assert!(client.step_prediction(&forward(1)));
    let before = client.predicted().bodies.clone();
    let other = snapshot_for(2, 1, None, Vec3::new(1, 2, 3));
    assert_eq!(client.reconcile_with_server(&other), ReconcileOutcome::Applied);
    assert_eq!(client.predicted().bodies, before);
    assert_eq!(client.confirmed().bodies, vec![other.bodies[0].body]);
}

#[test]
fn prediction_refuses_old_sequences() {
    let mut client = ClientPhysics::new(1);
    assert!(client.step_prediction(&forward(2)));
    let after = client.predicted().bodies.clone();
    assert!(!client.step_prediction(&forward(2)));
    assert!(!client.step_prediction(&forward(1)));
    assert_eq!(client.predicted().bodies, after);
    assert_eq!(client.pending.len(), 1);
    assert_eq!(client.last_sequence, Some(2));
}

#[test]
fn client_rejects_zero_timestep() {
    let config = PhysicsConfig { gravity: Vec3::zero(), time_step: 0 };
    let movement = MovementConfig { move_speed: 1, max_speed: 1 };
    assert!(ClientPhysics::with_config(1, config, movement, 0, 8).is_err());
    let ok = ClientPhysics::with_config(1, PhysicsConfig::standard(), movement, 0, 8).unwrap();
    assert!(ok.predicted().bodies.is_empty());
    assert!(ok.confirmed().bodies.is_empty());
}

#[test]
fn oldest_unacknowledged_inputs_expire() {
    let movement = MovementConfig { move_speed: 5_000, max_speed: 10_000 };
    let mut client = ClientPhysics::with_config(1, PhysicsConfig::standard(), movement, 0, 3).unwrap();
    for k in 1..=5 {
        assert!(client.step_prediction(&forward(k)));
    }
    let kept: Vec<u64> = client.pending.iter().map(|p| p.input.sequence).collect();
    assert_eq!(kept, vec![3, 4, 5]);
    // The prediction for input 1 has expired, so a snapshot acknowledging it forces a replay.
    let snap = snapshot_for(1, 1, Some(1), Vec3::new(0, 0, 0));
    assert_eq!(client.reconcile_with_server(&snap), ReconcileOutcome::Corrected);
    assert_eq!(client.pending.len(), 3);
}

#[test]
fn new_client_starts_with_empty_worlds_and_takes_any_first_sequence() {
    let mut client = ClientPhysics::new(4);
    assert!(client.predicted().bodies.is_empty());
    assert!(client.confirmed().bodies.is_empty());
    assert!(client.step_prediction(&forward(0)));
    assert_eq!(client.last_sequence, Some(0));
    assert!(!client.step_prediction(&forward(0)));
    // Without a body to predict, the first snapshot rebuilds the prediction.
    let snap = snapshot_for(4, 1, Some(0), Vec3::new(0, 0, 0));
    assert_eq!(client.reconcile_with_server(&snap), ReconcileOutcome::Corrected);
    assert_eq!(client.predicted().bodies, client.confirmed().bodies);
}

#[test]
fn velocity_or_turn_mismatch_is_corrected() {
    let mut client = ClientPhysics::new(1);
    client.join();
    assert!(client.step_prediction(&forward(1)));
    let predicted = client.pending[0].body.unwrap();
    let turned = Body { yaw: predicted.yaw + 1, ..predicted };
    let snap = Snapshot { tick: 1, bodies: vec![BodyState { body: turned, last_sequence: Some(1) }] };
    assert_eq!(client.reconcile_with_server(&snap), ReconcileOutcome::Corrected);
    let slower = Body { velocity: Vec3 { z: predicted.velocity.z - 1, ..predicted.velocity }, ..predicted };
    let mut other = ClientPhysics::new(1);
    other.join();
    assert!(other.step_prediction(&forward(1)));
    let snap = Snapshot { tick: 1, bodies: vec![BodyState { body: slower, last_sequence: Some(1) }] };
    assert_eq!(other.reconcile_with_server(&snap), ReconcileOutcome::Corrected);
}

#[test]
fn skipping_a_tick_gives_the_same_confirmed_state() {
    let s3 = snapshot_for(1, 3, None, Vec3::new(0, 0, 1));
    let s4 = snapshot_for(1, 4, None, Vec3::new(0, 0, 2));
    let s5 = snapshot_for(1, 5, None, Vec3::new(0, 0, 3));
    let mut a = ClientPhysics::new(1);
    let mut b = ClientPhysics::new(1);
    a.reconcile_with_server(&s3);
    a.reconcile_with_server(&s5);
    b.reconcile_with_server(&s3);
    b.reconcile_with_server(&s4);
    b.reconcile_with_server(&s5);
    assert_eq!(a.confirmed().bodies, b.confirmed().bodies);
    assert_eq!((a.last_tick, b.last_tick), (Some(5), Some(5)));
}
