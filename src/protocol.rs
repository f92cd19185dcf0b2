//! Message schemas exchanged between clients and the server, and their wire format.
//!
//! Every message travels as one frame: a version byte, a tag byte naming the variant,
//! the payload length as a little-endian `u32`, then the payload. Payload fields have
//! fixed widths; text is UTF-8 and takes the rest of the payload.
use crate::bytes::{
    get_i64, get_u32, get_u64, i64_at, i64_le, lemma_i64_round_trip, lemma_u32_round_trip,
    lemma_u64_round_trip, put_bytes, put_i64, put_u32, put_u64, tail_from, u32_at, u32_le,
    u64_at, u64_le,
};
use crate::math::Vec3;
use crate::physics::Body;
use vstd::prelude::*;
use vstd::utf8::{decode_utf8, encode_utf8, valid_utf8};

verus! {

/// The version byte that starts every frame.
pub const PROTOCOL_VERSION: u8 = 1;

/// Bytes before a frame's payload: version, tag and payload length.
pub const HEADER_LEN: usize = 6;

/// Bytes of an encoded `PlayerInput`.
pub const INPUT_LEN: usize = 24;

/// Bytes of an encoded `BodyState`.
pub const BODY_STATE_LEN: usize = 77;

/// One tick of raw controller state, sent by a client.
///
/// `sequence` starts at 1 and strictly increases per connection. The look deltas are in
/// microradians.
#[derive(Clone, Copy, Debug, PartialEq, Eq, Structural, Default)]
pub struct PlayerInput {
    pub sequence: u64,
    pub move_forward: bool,
    pub move_backward: bool,
    pub move_left: bool,
    pub move_right: bool,
    pub look_delta_x: i32,
    pub look_delta_y: i32,
    pub jump: bool,
    pub crouch: bool,
    pub cast_spell: bool,
    pub use_item: bool,
}

/// Why a frame could not be decoded.
#[derive(Clone, Copy, Debug, PartialEq, Eq, Structural)]
pub enum ProtocolError {
    /// The bytes do not have the shape or length of a message.
    Malformed,
    /// The frame carries a version byte this library does not speak.
    VersionMismatch,
}

/// Messages from a client to the server.
#[derive(Clone, Debug, PartialEq, Eq)]
pub enum ClientMessage {
    Connect { player_name: String },
    Input(PlayerInput),
    Disconnect,
}

/// Messages from the server to a client.
#[derive(Clone, Debug, PartialEq, Eq)]
pub enum ServerMessage {
    Welcome { player_id: u32 },
    StateUpdate { tick: u64, data: Vec<u8> },
    Disconnect { reason: String },
}

/// A client message as mathematics: text as characters.
pub enum ClientMessageView {
    Connect { player_name: Seq<char> },
    Input(PlayerInput),
    Disconnect,
}

/// A server message as mathematics: text as characters, data as bytes.
pub enum ServerMessageView {
    Welcome { player_id: u32 },
    StateUpdate { tick: u64, data: Seq<u8> },
    Disconnect { reason: Seq<char> },
}

impl View for ClientMessage {
    type V = ClientMessageView;

    open spec fn view(&self) -> ClientMessageView {
        match self {
            ClientMessage::Connect { player_name } => ClientMessageView::Connect {
                player_name: player_name@,
            },
            ClientMessage::Input(i) => ClientMessageView::Input(*i),
            ClientMessage::Disconnect => ClientMessageView::Disconnect,
        }
    }
}

impl View for ServerMessage {
    type V = ServerMessageView;

    open spec fn view(&self) -> ServerMessageView {
        match self {
            ServerMessage::Welcome { player_id } => ServerMessageView::Welcome {
                player_id: *player_id,
            },
            ServerMessage::StateUpdate { tick, data } => ServerMessageView::StateUpdate {
                tick: *tick,
                data: data@,
            },
            ServerMessage::Disconnect { reason } => ServerMessageView::Disconnect {
                reason: reason@,
            },
        }
    }
}

/// One body in a snapshot, with the last input sequence the server accepted for its player
/// (none before the first).
#[derive(Clone, Copy, Debug, PartialEq, Eq, Structural)]
pub struct BodyState {
    pub body: Body,
    pub last_sequence: Option<u64>,
}

/// The authoritative state after a server tick.
#[derive(Clone, Debug, PartialEq, Eq)]
pub struct Snapshot {
    pub tick: u64,
    pub bodies: Vec<BodyState>,
}

/// A snapshot as mathematics.
pub struct SnapshotView {
    pub tick: u64,
    pub bodies: Seq<BodyState>,
}

impl View for Snapshot {
    type V = SnapshotView;

    open spec fn view(&self) -> SnapshotView {
        SnapshotView { tick: self.tick, bodies: self.bodies@ }
    }
}

// ---------------------------------------------------------------------------------------
// The wire format, as mathematics.
pub open spec fn bool_byte(b: bool) -> u8 {
    if b {
        1
    } else {
        0
    }
}

pub open spec fn is_bool_byte(b: u8) -> bool {
    b == 0 || b == 1
}

/// The 24 payload bytes of an input.
pub open spec fn input_bytes(i: PlayerInput) -> Seq<u8> {
    u64_le(i.sequence) + seq![
        bool_byte(i.move_forward),
        bool_byte(i.move_backward),
        bool_byte(i.move_left),
        bool_byte(i.move_right),
    ] + u32_le(i.look_delta_x as u32) + u32_le(i.look_delta_y as u32) + seq![
        bool_byte(i.jump),
        bool_byte(i.crouch),
        bool_byte(i.cast_spell),
        bool_byte(i.use_item),
    ]
}

/// Whether `p` has the length of an input and every flag byte is 0 or 1.
pub open spec fn input_bytes_valid(p: Seq<u8>) -> bool {
    &&& p.len() == INPUT_LEN
    &&& is_bool_byte(p[8])
    &&& is_bool_byte(p[9])
    &&& is_bool_byte(p[10])
    &&& is_bool_byte(p[11])
    &&& is_bool_byte(p[20])
    &&& is_bool_byte(p[21])
    &&& is_bool_byte(p[22])
    &&& is_bool_byte(p[23])
}

/// The input that valid payload bytes `p` hold.
pub open spec fn input_from_bytes(p: Seq<u8>) -> PlayerInput {
    PlayerInput {
        sequence: u64_at(p, 0),
        move_forward: p[8] == 1,
        move_backward: p[9] == 1,
        move_left: p[10] == 1,
        move_right: p[11] == 1,
        look_delta_x: u32_at(p, 12) as i32,
        look_delta_y: u32_at(p, 16) as i32,
        jump: p[20] == 1,
        crouch: p[21] == 1,
        cast_spell: p[22] == 1,
        use_item: p[23] == 1,
    }
}

/// A frame around `payload`.
pub open spec fn frame(tag: u8, payload: Seq<u8>) -> Seq<u8> {
    seq![PROTOCOL_VERSION, tag] + u32_le(payload.len() as u32) + payload
}

/// The tag and payload of a frame, or why `b` is not one.
pub open spec fn parse_frame(b: Seq<u8>) -> Result<(u8, Seq<u8>), ProtocolError> {
    if b.len() == 0 {
        Err(ProtocolError::Malformed)
    } else if b[0] != PROTOCOL_VERSION {
        Err(ProtocolError::VersionMismatch)
    } else if b.len() < HEADER_LEN {
        Err(ProtocolError::Malformed)
    } else if u32_at(b, 2) != b.len() - HEADER_LEN {
        Err(ProtocolError::Malformed)
    } else {
        Ok((b[1], b.subrange(HEADER_LEN as int, b.len() as int)))
    }
}

/// Whether a client message's payload length fits the frame's length field.
pub open spec fn client_message_fits(m: ClientMessageView) -> bool {
    match m {
        ClientMessageView::Connect { player_name } => encode_utf8(player_name).len() <= u32::MAX,
        _ => true,
    }
}

/// Whether a server message's payload length fits the frame's length field.
pub open spec fn server_message_fits(m: ServerMessageView) -> bool {
    match m {
        ServerMessageView::StateUpdate { data, .. } => data.len() + 8 <= u32::MAX,
        ServerMessageView::Disconnect { reason } => encode_utf8(reason).len() <= u32::MAX,
        _ => true,
    }
}

/// The bytes of a client message.
pub open spec fn client_message_bytes(m: ClientMessageView) -> Seq<u8> {
    match m {
        ClientMessageView::Connect { player_name } => frame(0, encode_utf8(player_name)),
        ClientMessageView::Input(i) => frame(1, input_bytes(i)),
        ClientMessageView::Disconnect => frame(2, Seq::empty()),
    }
}

/// The client message that `b` holds, or why it holds none.
pub open spec fn parse_client_message(b: Seq<u8>) -> Result<ClientMessageView, ProtocolError> {
    match parse_frame(b) {
        Err(e) => Err(e),
        Ok((tag, p)) => {
            if tag == 0 {
                if valid_utf8(p) {
                    Ok(ClientMessageView::Connect { player_name: decode_utf8(p) })
                } else {
                    Err(ProtocolError::Malformed)
                }
            } else if tag == 1 {
                if input_bytes_valid(p) {
                    Ok(ClientMessageView::Input(input_from_bytes(p)))
                } else {
                    Err(ProtocolError::Malformed)
                }
            } else if tag == 2 {
                if p.len() == 0 {
                    Ok(ClientMessageView::Disconnect)
                } else {
                    Err(ProtocolError::Malformed)
                }
            } else {
                Err(ProtocolError::Malformed)
            }
        },
    }
}

/// The bytes of a server message.
pub open spec fn server_message_bytes(m: ServerMessageView) -> Seq<u8> {
    match m {
        ServerMessageView::Welcome { player_id } => frame(0, u32_le(player_id)),
        ServerMessageView::StateUpdate { tick, data } => frame(1, u64_le(tick) + data),
        ServerMessageView::Disconnect { reason } => frame(2, encode_utf8(reason)),
    }
}

/// The server message that `b` holds, or why it holds none.
pub open spec fn parse_server_message(b: Seq<u8>) -> Result<ServerMessageView, ProtocolError> {
    match parse_frame(b) {
        Err(e) => Err(e),
        Ok((tag, p)) => {
            if tag == 0 {
                if p.len() == 4 {
                    Ok(ServerMessageView::Welcome { player_id: u32_at(p, 0) })
                } else {
                    Err(ProtocolError::Malformed)
                }
            } else if tag == 1 {
                if p.len() >= 8 {
                    Ok(
                        ServerMessageView::StateUpdate {
                            tick: u64_at(p, 0),
                            data: p.subrange(8, p.len() as int),
                        },
                    )
                } else {
                    Err(ProtocolError::Malformed)
                }
            } else if tag == 2 {
                if valid_utf8(p) {
                    Ok(ServerMessageView::Disconnect { reason: decode_utf8(p) })
                } else {
                    Err(ProtocolError::Malformed)
                }
            } else {
                Err(ProtocolError::Malformed)
            }
        },
    }
}

/// The sequence number that stands in the bytes for an optional one: 0 for none.
pub open spec fn sequence_or_zero(s: Option<u64>) -> u64 {
    match s {
        Some(v) => v,
        None => 0,
    }
}

/// Whether the sequence number `seq` comes after `last`; every number does when there was
/// none before.
pub open spec fn is_after(seq: u64, last: Option<u64>) -> bool {
    match last {
        Some(l) => seq > l,
        None => true,
    }
}

/// The 77 bytes of one body state: the player id, a flag byte telling whether a sequence
/// number follows, the sequence number (0 without one), then the body's fields.
pub open spec fn body_state_bytes(e: BodyState) -> Seq<u8> {
    u32_le(e.body.id) + seq![bool_byte(e.last_sequence is Some)] + u64_le(
        sequence_or_zero(e.last_sequence),
    ) + i64_le(e.body.position.x) + i64_le(
        e.body.position.y,
    ) + i64_le(e.body.position.z) + i64_le(e.body.velocity.x) + i64_le(e.body.velocity.y)
        + i64_le(e.body.velocity.z) + i64_le(e.body.yaw) + i64_le(e.body.pitch)
}

/// The body state that 77 bytes `p` hold.
pub open spec fn body_state_from_bytes(p: Seq<u8>) -> BodyState {
    BodyState {
        body: Body {
            id: u32_at(p, 0),
            position: Vec3 { x: i64_at(p, 13), y: i64_at(p, 21), z: i64_at(p, 29) },
            velocity: Vec3 { x: i64_at(p, 37), y: i64_at(p, 45), z: i64_at(p, 53) },
            yaw: i64_at(p, 61),
            pitch: i64_at(p, 69),
        },
        last_sequence: if p[4] == 1 {
            Some(u64_at(p, 5))
        } else {
            None
        },
    }
}

/// Whether every body state in `d` has a flag byte of 0 or 1.
pub open spec fn body_state_flags_valid(d: Seq<u8>) -> bool {
    forall|k: int| 0 <= k < d.len() / 77 ==> is_bool_byte(#[trigger] d[77 * k + 4])
}

/// The bytes of a list of body states, one after another.
pub open spec fn body_states_bytes(es: Seq<BodyState>) -> Seq<u8>
    decreases es.len(),
{
    if es.len() == 0 {
        Seq::empty()
    } else {
        body_states_bytes(es.drop_last()) + body_state_bytes(es.last())
    }
}

/// The body states that `d` holds, if its length is a whole number of them and every flag
/// byte is 0 or 1.
pub open spec fn parse_body_states(d: Seq<u8>) -> Option<Seq<BodyState>> {
    if d.len() % 77 == 0 && body_state_flags_valid(d) {
        Some(
            Seq::new(
                d.len() / 77,
                |k: int| body_state_from_bytes(d.subrange(77 * k, 77 * k + 77)),
            ),
        )
    } else {
        None
    }
}

// ---------------------------------------------------------------------------------------
// Round trips.
proof fn lemma_frame_round_trip(tag: u8, p: Seq<u8>)
    requires
        p.len() <= u32::MAX,
    ensures
        parse_frame(frame(tag, p)) == Ok::<(u8, Seq<u8>), ProtocolError>((tag, p)),
{
    let f = frame(tag, p);
    assert(f.subrange(2, 6) =~= u32_le(p.len() as u32));
    lemma_u32_round_trip(f, 2, p.len() as u32);
    assert(f.subrange(HEADER_LEN as int, f.len() as int) =~= p);
}

proof fn lemma_input_round_trip(i: PlayerInput)
    ensures
        input_bytes_valid(input_bytes(i)),
        input_from_bytes(input_bytes(i)) == i,
{
    let p = input_bytes(i);
    let x = i.look_delta_x;
    let y = i.look_delta_y;
    assert(p.subrange(0, 8) =~= u64_le(i.sequence));
    lemma_u64_round_trip(p, 0, i.sequence);
    assert(p.subrange(12, 16) =~= u32_le(x as u32));
    lemma_u32_round_trip(p, 12, x as u32);
    assert(p.subrange(16, 20) =~= u32_le(y as u32));
    lemma_u32_round_trip(p, 16, y as u32);
    assert((x as u32) as i32 == x) by (bit_vector);
    assert((y as u32) as i32 == y) by (bit_vector);
}

#[verifier::rlimit(50)]
proof fn lemma_body_state_round_trip(e: BodyState)
    ensures
        body_state_bytes(e).len() == BODY_STATE_LEN,
        is_bool_byte(body_state_bytes(e)[4]),
        body_state_from_bytes(body_state_bytes(e)) == e,
{
    let p = body_state_bytes(e);
    let b = e.body;
    assert(p.subrange(0, 4) =~= u32_le(b.id));
    lemma_u32_round_trip(p, 0, b.id);
    assert(p[4] == bool_byte(e.last_sequence is Some));
    assert(p.subrange(5, 13) =~= u64_le(sequence_or_zero(e.last_sequence)));
    lemma_u64_round_trip(p, 5, sequence_or_zero(e.last_sequence));
    assert(p.subrange(13, 21) =~= i64_le(b.position.x));
    lemma_i64_round_trip(p, 13, b.position.x);
    assert(p.subrange(21, 29) =~= i64_le(b.position.y));
    lemma_i64_round_trip(p, 21, b.position.y);
    assert(p.subrange(29, 37) =~= i64_le(b.position.z));
    lemma_i64_round_trip(p, 29, b.position.z);
    assert(p.subrange(37, 45) =~= i64_le(b.velocity.x));
    lemma_i64_round_trip(p, 37, b.velocity.x);
    assert(p.subrange(45, 53) =~= i64_le(b.velocity.y));
    lemma_i64_round_trip(p, 45, b.velocity.y);
    assert(p.subrange(53, 61) =~= i64_le(b.velocity.z));
    lemma_i64_round_trip(p, 53, b.velocity.z);
    assert(p.subrange(61, 69) =~= i64_le(b.yaw));
    lemma_i64_round_trip(p, 61, b.yaw);
    assert(p.subrange(69, 77) =~= i64_le(b.pitch));
    lemma_i64_round_trip(p, 69, b.pitch);
}

proof fn lemma_body_states_layout(es: Seq<BodyState>)
    ensures
        body_states_bytes(es).len() == 77 * es.len(),
        forall|k: int|
            0 <= k < es.len() ==> #[trigger] body_states_bytes(es).subrange(77 * k, 77 * k + 77)
                == body_state_bytes(es[k]),
    decreases es.len(),
{
    if es.len() > 0 {
        let front = es.drop_last();
        lemma_body_states_layout(front);
        lemma_body_state_round_trip(es.last());
        let all = body_states_bytes(es);
        assert forall|k: int| 0 <= k < es.len() implies #[trigger] all.subrange(
            77 * k,
            77 * k + 77,
        ) == body_state_bytes(es[k]) by {
            if k < es.len() - 1 {
                assert(all.subrange(77 * k, 77 * k + 77) =~= body_states_bytes(front).subrange(
                    77 * k,
                    77 * k + 77,
                ));
            } else {
                assert(all.subrange(77 * k, 77 * k + 77) =~= body_state_bytes(es.last()));
            }
        }
    }
}

/// Decoding the encoding of a valid client message gives the message back.
pub proof fn client_message_round_trip(m: ClientMessageView)
    requires
        client_message_fits(m),
    ensures
        parse_client_message(client_message_bytes(m)) == Ok::<ClientMessageView, ProtocolError>(
            m,
        ),
{
    match m {
        ClientMessageView::Connect { player_name } => {
            vstd::utf8::encode_utf8_valid_utf8(player_name);
            vstd::utf8::encode_utf8_decode_utf8(player_name);
            lemma_frame_round_trip(0, encode_utf8(player_name));
        },
        ClientMessageView::Input(i) => {
            lemma_input_round_trip(i);
            lemma_frame_round_trip(1, input_bytes(i));
        },
        ClientMessageView::Disconnect => {
            lemma_frame_round_trip(2, Seq::empty());
        },
    }
}

/// Decoding the encoding of a valid server message gives the message back.
pub proof fn server_message_round_trip(m: ServerMessageView)
    requires
        server_message_fits(m),
    ensures
        parse_server_message(server_message_bytes(m)) == Ok::<ServerMessageView, ProtocolError>(
            m,
        ),
{
    match m {
        ServerMessageView::Welcome { player_id } => {
            let p = u32_le(player_id);
            assert(p.subrange(0, 4) =~= p);
            lemma_u32_round_trip(p, 0, player_id);
            lemma_frame_round_trip(0, p);
        },
        ServerMessageView::StateUpdate { tick, data } => {
            let p = u64_le(tick) + data;
            assert(p.subrange(0, 8) =~= u64_le(tick));
            lemma_u64_round_trip(p, 0, tick);
            assert(p.subrange(8, p.len() as int) =~= data);
            lemma_frame_round_trip(1, p);
        },
        ServerMessageView::Disconnect { reason } => {
            vstd::utf8::encode_utf8_valid_utf8(reason);
            vstd::utf8::encode_utf8_decode_utf8(reason);
            lemma_frame_round_trip(2, encode_utf8(reason));
        },
    }
}

/// Decoding the encoding of a snapshot's bodies gives the bodies back.
#[verifier::rlimit(50)]
pub proof fn snapshot_round_trip(s: SnapshotView)
    ensures
        parse_body_states(body_states_bytes(s.bodies)) == Some(s.bodies),
{
    let d = body_states_bytes(s.bodies);
    let n = s.bodies.len();
    lemma_body_states_layout(s.bodies);
    assert(d.len() % 77 == 0 && d.len() / 77 == n) by (nonlinear_arith)
        requires
            d.len() == 77 * n,
    ;
    assert forall|k: int| 0 <= k < n implies body_state_from_bytes(
        #[trigger] d.subrange(77 * k, 77 * k + 77),
    ) == s.bodies[k] by {
        lemma_body_state_round_trip(s.bodies[k]);
    }
    assert forall|k: int| 0 <= k < d.len() / 77 implies is_bool_byte(#[trigger] d[77 * k + 4]) by {
        lemma_body_state_round_trip(s.bodies[k]);
        assert(d[77 * k + 4] == d.subrange(77 * k, 77 * k + 77)[4]);
    }
    assert(body_state_flags_valid(d));
    assert(parse_body_states(d).unwrap() =~= s.bodies);
}

// ---------------------------------------------------------------------------------------
// Encoding and decoding.
/// Relies on `String::from_utf8`: it succeeds exactly on valid UTF-8, and the string then
/// holds the characters that the bytes encode.
#[verifier::external_body]
fn string_from_utf8(bytes: Vec<u8>) -> (r: Option<String>)
    ensures
        r is Some <==> valid_utf8(bytes@),
        r matches Some(s) ==> s@ == decode_utf8(bytes@),
{
    String::from_utf8(bytes).ok()
}

fn put_header(out: &mut Vec<u8>, tag: u8, len: u32)
    ensures
        final(out)@ == old(out)@ + seq![PROTOCOL_VERSION, tag] + u32_le(len),
{
    let ghost start = out@;
    out.push(PROTOCOL_VERSION);
    out.push(tag);
    put_u32(out, len);
    assert(out@ =~= start + seq![PROTOCOL_VERSION, tag] + u32_le(len));
}

fn bool_to_byte(b: bool) -> (r: u8)
    ensures
        r == bool_byte(b),
{
    if b {
        1
    } else {
        0
    }
}

fn put_flags(out: &mut Vec<u8>, a: bool, b: bool, c: bool, d: bool)
    ensures
        final(out)@ == old(out)@ + seq![bool_byte(a), bool_byte(b), bool_byte(c), bool_byte(d)],
{
    let ghost start = out@;
    out.push(bool_to_byte(a));
    out.push(bool_to_byte(b));
    out.push(bool_to_byte(c));
    out.push(bool_to_byte(d));
    assert(out@ =~= start + seq![bool_byte(a), bool_byte(b), bool_byte(c), bool_byte(d)]);
}

fn input_payload(i: &PlayerInput) -> (r: Vec<u8>)
    ensures
        r@ == input_bytes(*i),
{
    let mut p: Vec<u8> = Vec::new();
    put_u64(&mut p, i.sequence);
    assert(p@ =~= u64_le(i.sequence));
    put_flags(&mut p, i.move_forward, i.move_backward, i.move_left, i.move_right);
    put_u32(&mut p, i.look_delta_x as u32);
    put_u32(&mut p, i.look_delta_y as u32);
    put_flags(&mut p, i.jump, i.crouch, i.cast_spell, i.use_item);
    p
}

fn text_frame(tag: u8, text: &String) -> (r: Vec<u8>)
    requires
        encode_utf8(text@).len() <= u32::MAX,
    ensures
        r@ == frame(tag, encode_utf8(text@)),
{
    let bytes: &[u8] = text.as_str().as_bytes();
    let mut out: Vec<u8> = Vec::new();
    put_header(&mut out, tag, bytes.len() as u32);
    put_bytes(&mut out, bytes);
    assert(out@ =~= frame(tag, encode_utf8(text@)));
    out
}

/// The bytes of a client message.
pub fn encode_client_message(m: &ClientMessage) -> (r: Vec<u8>)
    requires
        client_message_fits(m@),
    ensures
        r@ == client_message_bytes(m@),
{
    match m {
        ClientMessage::Connect { player_name } => text_frame(0, player_name),
        ClientMessage::Input(i) => {
            let mut out: Vec<u8> = Vec::new();
            put_header(&mut out, 1, INPUT_LEN as u32);
            let payload = input_payload(i);
            put_bytes(&mut out, payload.as_slice());
            assert(out@ =~= frame(1, input_bytes(*i)));
            out
        },
        ClientMessage::Disconnect => {
            let mut out: Vec<u8> = Vec::new();
            put_header(&mut out, 2, 0);
            assert(out@ =~= frame(2, Seq::empty()));
            out
        },
    }
}

/// The bytes of a server message.
pub fn encode_server_message(m: &ServerMessage) -> (r: Vec<u8>)
    requires
        server_message_fits(m@),
    ensures
        r@ == server_message_bytes(m@),
{
    match m {
        ServerMessage::Welcome { player_id } => {
            let mut out: Vec<u8> = Vec::new();
            put_header(&mut out, 0, 4);
            put_u32(&mut out, *player_id);
            assert(out@ =~= frame(0, u32_le(*player_id)));
            out
        },
        ServerMessage::StateUpdate { tick, data } => {
            let mut out: Vec<u8> = Vec::new();
            put_header(&mut out, 1, (data.len() + 8) as u32);
            put_u64(&mut out, *tick);
            put_bytes(&mut out, data.as_slice());
            assert(out@ =~= frame(1, u64_le(*tick) + data@));
            out
        },
        ServerMessage::Disconnect { reason } => text_frame(2, reason),
    }
}

/// The payload length announced by the header at the start of `header`, if it is long
/// enough to hold one. A reader of a byte stream takes that many bytes after the header to
/// complete the frame.
pub fn frame_payload_len(header: &[u8]) -> (r: Option<u32>)
    ensures
        header@.len() >= HEADER_LEN ==> r == Some(u32_at(header@, 2)),
        header@.len() < HEADER_LEN ==> r is None,
{
    if header.len() < HEADER_LEN {
        None
    } else {
        Some(get_u32(header, 2))
    }
}

/// The tag of frame `b`, or why `b` is not a frame.
fn read_header(b: &[u8]) -> (r: Result<u8, ProtocolError>)
    ensures
        match parse_frame(b@) {
            Ok((tag, _)) => r == Ok::<u8, ProtocolError>(tag),
            Err(e) => r == Err::<u8, ProtocolError>(e),
        },
{
    if b.len() == 0 {
        return Err(ProtocolError::Malformed);
    }
    if b[0] != PROTOCOL_VERSION {
        return Err(ProtocolError::VersionMismatch);
    }
    if b.len() < HEADER_LEN {
        return Err(ProtocolError::Malformed);
    }
    let n = get_u32(b, 2);
    if n as usize != b.len() - HEADER_LEN {
        return Err(ProtocolError::Malformed);
    }
    Ok(b[1])
}

fn read_input(p: &[u8]) -> (r: Option<PlayerInput>)
    requires
        p@.len() == INPUT_LEN,
    ensures
        input_bytes_valid(p@) ==> r == Some(input_from_bytes(p@)),
        !input_bytes_valid(p@) ==> r is None,
{
    if p[8] > 1 || p[9] > 1 || p[10] > 1 || p[11] > 1 || p[20] > 1 || p[21] > 1 || p[22] > 1
        || p[23] > 1 {
        return None;
    }
    Some(
        PlayerInput {
            sequence: get_u64(p, 0),
            move_forward: p[8] == 1,
            move_backward: p[9] == 1,
            move_left: p[10] == 1,
            move_right: p[11] == 1,
            look_delta_x: get_u32(p, 12) as i32,
            look_delta_y: get_u32(p, 16) as i32,
            jump: p[20] == 1,
            crouch: p[21] == 1,
            cast_spell: p[22] == 1,
            use_item: p[23] == 1,
        },
    )
}

/// The client message that `b` holds, or why it holds none.
pub fn decode_client_message(b: &[u8]) -> (r: Result<ClientMessage, ProtocolError>)
    ensures
        match r {
            Ok(m) => parse_client_message(b@) == Ok::<ClientMessageView, ProtocolError>(m@),
            Err(e) => parse_client_message(b@) == Err::<ClientMessageView, ProtocolError>(e),
        },
{
    let tag = match read_header(b) {
        Ok(t) => t,
        Err(e) => return Err(e),
    };
    let p = tail_from(b, HEADER_LEN);
    if tag == 0 {
        match string_from_utf8(p) {
            Some(s) => Ok(ClientMessage::Connect { player_name: s }),
            None => Err(ProtocolError::Malformed),
        }
    } else if tag == 1 {
        if p.len() != INPUT_LEN {
            return Err(ProtocolError::Malformed);
        }
        match read_input(p.as_slice()) {
            Some(i) => Ok(ClientMessage::Input(i)),
            None => Err(ProtocolError::Malformed),
        }
    } else if tag == 2 {
        if p.len() != 0 {
            return Err(ProtocolError::Malformed);
        }
        Ok(ClientMessage::Disconnect)
    } else {
        Err(ProtocolError::Malformed)
    }
}

/// The server message that `b` holds, or why it holds none.
pub fn decode_server_message(b: &[u8]) -> (r: Result<ServerMessage, ProtocolError>)
    ensures
        match r {
            Ok(m) => parse_server_message(b@) == Ok::<ServerMessageView, ProtocolError>(m@),
            Err(e) => parse_server_message(b@) == Err::<ServerMessageView, ProtocolError>(e),
        },
{
    let tag = match read_header(b) {
        Ok(t) => t,
        Err(e) => return Err(e),
    };
    let p = tail_from(b, HEADER_LEN);
    if tag == 0 {
        if p.len() != 4 {
            return Err(ProtocolError::Malformed);
        }
        Ok(ServerMessage::Welcome { player_id: get_u32(p.as_slice(), 0) })
    } else if tag == 1 {
        if p.len() < 8 {
            return Err(ProtocolError::Malformed);
        }
        let tick = get_u64(p.as_slice(), 0);
        let data = tail_from(p.as_slice(), 8);
        Ok(ServerMessage::StateUpdate { tick, data })
    } else if tag == 2 {
        match string_from_utf8(p) {
            Some(s) => Ok(ServerMessage::Disconnect { reason: s }),
            None => Err(ProtocolError::Malformed),
        }
    } else {
        Err(ProtocolError::Malformed)
    }
}

fn put_body_state(out: &mut Vec<u8>, e: &BodyState)
    ensures
        final(out)@ == old(out)@ + body_state_bytes(*e),
{
    let mut p: Vec<u8> = Vec::new();
    put_u32(&mut p, e.body.id);
    assert(p@ =~= u32_le(e.body.id));
    let (flag, seq) = match e.last_sequence {
        Some(v) => (1u8, v),
        None => (0u8, 0u64),
    };
    p.push(flag);
    put_u64(&mut p, seq);
    put_i64(&mut p, e.body.position.x);
    put_i64(&mut p, e.body.position.y);
    put_i64(&mut p, e.body.position.z);
    put_i64(&mut p, e.body.velocity.x);
    put_i64(&mut p, e.body.velocity.y);
    put_i64(&mut p, e.body.velocity.z);
    put_i64(&mut p, e.body.yaw);
    put_i64(&mut p, e.body.pitch);
    put_bytes(out, p.as_slice());
}

/// The bytes of a list of body states.
pub fn encode_body_states(es: &Vec<BodyState>) -> (r: Vec<u8>)
    ensures
        r@ == body_states_bytes(es@),
{
    let mut out: Vec<u8> = Vec::new();
    let mut i: usize = 0;
    while i < es.len()
        invariant
            i <= es.len(),
            out@ == body_states_bytes(es@.take(i as int)),
        decreases es.len() - i,
    {
        put_body_state(&mut out, &es[i]);
        proof {
            let next = es@.take(i as int + 1);
            assert(next.drop_last() =~= es@.take(i as int));
            assert(next.last() == es@[i as int]);
        }
        i += 1;
    }
    assert(es@.take(es.len() as int) =~= es@);
    out
}

fn read_body_state(d: &[u8], base: usize) -> (r: BodyState)
    requires
        base + BODY_STATE_LEN <= d.len(),
    ensures
        r == body_state_from_bytes(d@.subrange(base as int, base + BODY_STATE_LEN)),
{
    let ghost p = d@.subrange(base as int, base + BODY_STATE_LEN);
    let r = BodyState {
        body: Body {
            id: get_u32(d, base),
            position: Vec3 {
                x: get_i64(d, base + 13),
                y: get_i64(d, base + 21),
                z: get_i64(d, base + 29),
            },
            velocity: Vec3 {
                x: get_i64(d, base + 37),
                y: get_i64(d, base + 45),
                z: get_i64(d, base + 53),
            },
            yaw: get_i64(d, base + 61),
            pitch: get_i64(d, base + 69),
        },
        last_sequence: if d[base + 4] == 1 {
            Some(get_u64(d, base + 5))
        } else {
            None
        },
    };
    assert(u32_at(d@, base as int) == u32_at(p, 0));
    assert(d@[base + 4] == p[4]);
    assert(u64_at(d@, base + 5) == u64_at(p, 5));
    assert(u64_at(d@, base + 13) == u64_at(p, 13));
    assert(u64_at(d@, base + 21) == u64_at(p, 21));
    assert(u64_at(d@, base + 29) == u64_at(p, 29));
    assert(u64_at(d@, base + 37) == u64_at(p, 37));
    assert(u64_at(d@, base + 45) == u64_at(p, 45));
    assert(u64_at(d@, base + 53) == u64_at(p, 53));
    assert(u64_at(d@, base + 61) == u64_at(p, 61));
    assert(u64_at(d@, base + 69) == u64_at(p, 69));
    r
}

/// The body states that `d` holds; malformed unless its length is a whole number of them
/// and every flag byte is 0 or 1.
pub fn decode_body_states(d: &[u8]) -> (r: Result<Vec<BodyState>, ProtocolError>)
    ensures
        match parse_body_states(d@) {
            Some(es) => r matches Ok(v) && v@ == es,
            None => r == Err::<Vec<BodyState>, ProtocolError>(ProtocolError::Malformed),
        },
{
    if d.len() % BODY_STATE_LEN != 0 {
        return Err(ProtocolError::Malformed);
    }
    let n = d.len() / BODY_STATE_LEN;
    assert(d@.len() == 77 * n) by (nonlinear_arith)
        requires
            n == d@.len() / 77,
            d@.len() % 77 == 0,
    ;
    let mut out: Vec<BodyState> = Vec::new();
    let mut k: usize = 0;
    while k < n
        invariant
            k <= n,
            d.len() == 77 * n,
            n == d@.len() / 77,
            out@.len() == k,
            forall|j: int| 0 <= j < k ==> is_bool_byte(#[trigger] d@[77 * j + 4]),
            forall|j: int|
                0 <= j < k ==> out@[j] == body_state_from_bytes(d@.subrange(77 * j, 77 * j + 77)),
        decreases n - k,
    {
        let base = k * BODY_STATE_LEN;
        if d[base + 4] > 1 {
            assert(!body_state_flags_valid(d@)) by {
                assert(!is_bool_byte(d@[77 * (k as int) + 4]));
            }
            return Err(ProtocolError::Malformed);
        }
        let e = read_body_state(d, base);
        out.push(e);
        k += 1;
    }
    assert(body_state_flags_valid(d@));
    assert(out@ =~= parse_body_states(d@).unwrap());
    Ok(out)
}

/// The state update message that carries a snapshot.
pub fn state_update(s: &Snapshot) -> (r: ServerMessage)
    ensures
        r@ == (ServerMessageView::StateUpdate { tick: s.tick, data: body_states_bytes(s.bodies@) }),
{
    ServerMessage::StateUpdate { tick: s.tick, data: encode_body_states(&s.bodies) }
}

/// The snapshot of tick `tick` whose bodies `data` holds.
pub fn snapshot_from_update(tick: u64, data: &[u8]) -> (r: Result<Snapshot, ProtocolError>)
    ensures
        match parse_body_states(data@) {
            Some(es) => r matches Ok(s) && s@ == (SnapshotView { tick, bodies: es }),
            None => r == Err::<Snapshot, ProtocolError>(ProtocolError::Malformed),
        },
{
    match decode_body_states(data) {
        Ok(bodies) => Ok(Snapshot { tick, bodies }),
        Err(e) => Err(e),
    }
}

} // verus!
