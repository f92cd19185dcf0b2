use fps_netcode::math::Vec3;
use fps_netcode::physics::Body;
use fps_netcode::protocol::{
    decode_body_states, decode_client_message, decode_server_message, encode_body_states,
    encode_client_message, encode_server_message, frame_payload_len, snapshot_from_update,
    state_update, BodyState,
    ClientMessage, PlayerInput, ProtocolError, ServerMessage, Snapshot,
};

fn sample_input() -> PlayerInput {
    PlayerInput {
        sequence: 0x0102_0304_0506_0708,
        move_forward: true,
        move_backward: false,
        move_left: true,
        move_right: false,
        look_delta_x: -12_345,
        look_delta_y: 678,
        jump: true,
        crouch: false,
        cast_spell: true,
        use_item: false,
    }
}

fn sample_states() -> Vec<BodyState> {
    vec![
        BodyState {
            body: Body {
                id: 7,
                position: Vec3::new(-1, 2, i64::MAX),
                velocity: Vec3::new(i64::MIN, 0, 5),
                yaw: -100,
                pitch: 100,
            },
            last_sequence: Some(42),
        },
        BodyState { body: Body::spawn(8), last_sequence: None },
    ]
}

#[test]
fn client_messages_round_trip() {
    let messages = vec![
        ClientMessage::Connect { player_name: "Zoë 🧙".to_string() },
        ClientMessage::Connect { player_name: String::new() },
        ClientMessage::Input(sample_input()),
        ClientMessage::Input(PlayerInput::default()),
        ClientMessage::Disconnect,
    ];
    for m in messages {
        let bytes = encode_client_message(&m);
        assert_eq!(decode_client_message(&bytes), Ok(m));
    }
}

#[test]
fn server_messages_round_trip() {
    let messages = vec![
        ServerMessage::Welcome { player_id: 0xdead_beef },
        ServerMessage::StateUpdate { tick: 5, data: vec![] },
        ServerMessage::StateUpdate { tick: u64::MAX, data: vec![9, 8, 7] },
        ServerMessage::Disconnect { reason: "server shutting down".to_string() },
    ];
    for m in messages {
        let bytes = encode_server_message(&m);
        assert_eq!(decode_server_message(&bytes), Ok(m));
    }
}

#[test]
fn encoding_is_exact_and_deterministic() {
    assert_eq!(encode_client_message(&ClientMessage::Disconnect), vec![1, 2, 0, 0, 0, 0]);
    assert_eq!(
        encode_server_message(&ServerMessage::Welcome { player_id: 0x0102_0304 }),
        vec![1, 0, 4, 0, 0, 0, 4, 3, 2, 1]
    );
    let connect = ClientMessage::Connect { player_name: "ab".to_string() };
    assert_eq!(encode_client_message(&connect), vec![1, 0, 2, 0, 0, 0, b'a', b'b']);
    let input = encode_client_message(&ClientMessage::Input(sample_input()));
    assert_eq!(input.len(), 30);
    assert_eq!(&input[..6], &[1, 1, 24, 0, 0, 0]);
    assert_eq!(&input[6..14], &[8, 7, 6, 5, 4, 3, 2, 1]);
    assert_eq!(&input[14..18], &[1, 0, 1, 0]);
    assert_eq!(&input[18..22], &(-12_345i32).to_le_bytes());
    assert_eq!(&input[26..30], &[1, 0, 1, 0]);
    assert_eq!(input, encode_client_message(&ClientMessage::Input(sample_input())));
}

#[test]
fn unknown_version_is_a_version_mismatch() {
    let mut bytes = encode_client_message(&ClientMessage::Disconnect);
    bytes[0] = 2;
    assert_eq!(decode_client_message(&bytes), Err(ProtocolError::VersionMismatch));
    assert_eq!(decode_server_message(&[0]), Err(ProtocolError::VersionMismatch));
}

#[test]
fn malformed_frames_are_rejected() {
    assert_eq!(decode_client_message(&[]), Err(ProtocolError::Malformed));
    assert_eq!(decode_client_message(&[1, 2, 0, 0]), Err(ProtocolError::Malformed));
    // Length field disagrees with the payload.
    assert_eq!(decode_client_message(&[1, 2, 1, 0, 0, 0]), Err(ProtocolError::Malformed));
    // Unknown tag.
    assert_eq!(decode_client_message(&[1, 9, 0, 0, 0, 0]), Err(ProtocolError::Malformed));
    // Disconnect with a payload.
    assert_eq!(decode_client_message(&[1, 2, 1, 0, 0, 0, 0]), Err(ProtocolError::Malformed));
    // A flag byte that is neither 0 nor 1.
    let mut input = encode_client_message(&ClientMessage::Input(sample_input()));
    input[14] = 2;
    assert_eq!(decode_client_message(&input), Err(ProtocolError::Malformed));
    // An input payload of the wrong length.
    let mut short = encode_client_message(&ClientMessage::Input(sample_input()));
    short.pop();
    short[2] = 23;
    assert_eq!(decode_client_message(&short), Err(ProtocolError::Malformed));
    // Text that is not UTF-8.
    assert_eq!(decode_client_message(&[1, 0, 1, 0, 0, 0, 0xff]), Err(ProtocolError::Malformed));
    assert_eq!(decode_server_message(&[1, 2, 1, 0, 0, 0, 0xc3]), Err(ProtocolError::Malformed));
    // Welcome needs four bytes, a state update at least eight.
    assert_eq!(decode_server_message(&[1, 0, 3, 0, 0, 0, 1, 2, 3]), Err(ProtocolError::Malformed));
    assert_eq!(decode_server_message(&[1, 1, 1, 0, 0, 0, 1]), Err(ProtocolError::Malformed));
}

#[test]
fn snapshots_round_trip() {
    let snapshot = Snapshot { tick: 12, bodies: sample_states() };
    let message = state_update(&snapshot);
    let bytes = encode_server_message(&message);
    match decode_server_message(&bytes).unwrap() {
        ServerMessage::StateUpdate { tick, data } => {
            assert_eq!(data.len(), 2 * 77);
            assert_eq!(snapshot_from_update(tick, &data), Ok(snapshot));
        }
        other => panic!("unexpected {:?}", other),
    }
    assert_eq!(decode_body_states(&encode_body_states(&vec![])), Ok(vec![]));
}

#[test]
fn body_states_of_partial_length_are_malformed() {
    let mut data = encode_body_states(&sample_states());
    data.pop();
    assert_eq!(decode_body_states(&data), Err(ProtocolError::Malformed));
    assert_eq!(snapshot_from_update(1, &data), Err(ProtocolError::Malformed));
}

#[test]
fn header_announces_payload_length() {
    let bytes = encode_client_message(&ClientMessage::Input(sample_input()));
    assert_eq!(frame_payload_len(&bytes[..6]), Some(24));
    assert_eq!(frame_payload_len(&bytes), Some(24));
    assert_eq!(frame_payload_len(&bytes[..5]), None);
    assert_eq!(frame_payload_len(&[7, 7, 0x10, 0x27, 0, 0]), Some(10_000));
}

#[test]
fn body_state_layout_and_flag() {
    let data = encode_body_states(&sample_states());
    assert_eq!(&data[..4], &7u32.to_le_bytes());
    assert_eq!(data[4], 1);
    assert_eq!(&data[5..13], &42u64.to_le_bytes());
    assert_eq!(data[77 + 4], 0);
    assert_eq!(&data[77 + 5..77 + 13], &[0; 8]);
    let mut bad = data.clone();
    bad[77 + 4] = 2;
    assert_eq!(decode_body_states(&bad), Err(ProtocolError::Malformed));
}
