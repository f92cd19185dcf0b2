//! The server's authoritative simulation: it validates player input, applies accepted
//! input at the next step, advances the one world by fixed ticks, and produces snapshots.
use crate::physics::{
    apply_input_body, apply_input_world, find_body, forward_axis, spawn_body, step_body, standard_config, standard_movement, step_world,
    strafe_axis, Body, ConfigError, MovementConfig, PhysicsConfig, PhysicsWorld, WorldView,
};
use crate::protocol::{
    is_after, BodyState, ClientMessage, ClientMessageView, PlayerInput, ServerMessage, ServerMessageView,
    Snapshot, SnapshotView,
};
use vstd::prelude::*;

verus! {

/// The input cursor of one connected player.
#[derive(Clone, Copy, Debug, PartialEq, Eq, Structural)]
pub struct PlayerSlot {
    pub id: u32,
    /// The sequence number of the last accepted input; none before the first.
    pub last_sequence: Option<u64>,
}

/// An accepted input waiting for the next step.
#[derive(Clone, Copy, Debug, PartialEq, Eq, Structural)]
pub struct QueuedInput {
    pub player_id: u32,
    pub input: PlayerInput,
}

/// The mathematical state of the server.
pub struct ServerView {
    pub world: WorldView,
    pub players: Seq<PlayerSlot>,
    pub queued: Seq<QueuedInput>,
    pub tick: u64,
    pub movement: MovementConfig,
}

/// The slot of player `id`, if connected.
pub open spec fn find_slot(players: Seq<PlayerSlot>, id: u32) -> Option<PlayerSlot>
    decreases players.len(),
{
    if players.len() == 0 {
        None
    } else if players[0].id == id {
        Some(players[0])
    } else {
        find_slot(players.subrange(1, players.len() as int), id)
    }
}

/// The last accepted sequence of player `id`; none when not connected or before its first
/// accepted input.
pub open spec fn last_sequence_of(players: Seq<PlayerSlot>, id: u32) -> Option<u64> {
    match find_slot(players, id) {
        Some(p) => p.last_sequence,
        None => None,
    }
}

/// Whether the movement an input asks for is at most the maximum speed:
/// `|(strafe, forward)| * move_speed <= max_speed`, compared squared.
pub open spec fn within_speed_cap(input: PlayerInput, m: MovementConfig) -> bool {
    (strafe_axis(input) * strafe_axis(input) + forward_axis(input) * forward_axis(input))
        * m.move_speed * m.move_speed <= m.max_speed * m.max_speed
}

/// Whether the server accepts `input` from player `id`.
pub open spec fn accepts(s: ServerView, id: u32, input: PlayerInput) -> bool {
    match find_slot(s.players, id) {
        Some(p) => is_after(input.sequence, p.last_sequence) && within_speed_cap(input, s.movement),
        None => false,
    }
}

/// Slots after player `id` had an input with sequence `seq` accepted.
pub open spec fn advance_cursor(players: Seq<PlayerSlot>, id: u32, seq: u64) -> Seq<PlayerSlot> {
    players.map_values(
        |p: PlayerSlot|
            if p.id == id {
                PlayerSlot { last_sequence: Some(seq), ..p }
            } else {
                p
            },
    )
}

/// The server after it was handed `input` from player `id`, and whether it accepted it.
pub open spec fn process_input_result(s: ServerView, id: u32, input: PlayerInput) -> (
    ServerView,
    bool,
) {
    if accepts(s, id, input) {
        (
            ServerView {
                players: advance_cursor(s.players, id, input.sequence),
                queued: s.queued.push(QueuedInput { player_id: id, input }),
                ..s
            },
            true,
        )
    } else {
        (s, false)
    }
}

/// The server after player `id` asked to join, and whether it was let in: refused when
/// already connected, else it gets a cursor and a body at the origin.
pub open spec fn connect_result(s: ServerView, id: u32) -> (ServerView, bool) {
    if find_slot(s.players, id) is None {
        (
            ServerView {
                players: s.players.push(PlayerSlot { id, last_sequence: None }),
                world: WorldView { bodies: s.world.bodies.push(spawn_body(id)), ..s.world },
                ..s
            },
            true,
        )
    } else {
        (s, false)
    }
}

/// The server after player `id` left, and whether it had been connected. Its cursor, its
/// body and its queued input are released.
pub open spec fn disconnect_result(s: ServerView, id: u32) -> (ServerView, bool) {
    (
        ServerView {
            players: s.players.filter(|p: PlayerSlot| p.id != id),
            queued: s.queued.filter(|q: QueuedInput| q.player_id != id),
            world: WorldView { bodies: s.world.bodies.filter(|b: Body| b.id != id), ..s.world },
            ..s
        },
        find_slot(s.players, id) is Some,
    )
}

/// The server after a message from player `id`, and its reply, if any.
pub open spec fn handle_message_result(s: ServerView, id: u32, m: ClientMessageView) -> (
    ServerView,
    Option<ServerMessageView>,
) {
    match m {
        ClientMessageView::Connect { .. } => {
            let (t, ok) = connect_result(s, id);
            (
                t,
                if ok {
                    Some(ServerMessageView::Welcome { player_id: id })
                } else {
                    None
                },
            )
        },
        ClientMessageView::Input(i) => (process_input_result(s, id, i).0, None),
        ClientMessageView::Disconnect => (disconnect_result(s, id).0, None),
    }
}

/// A world after the queued inputs were applied in order.
pub open spec fn apply_queued(w: WorldView, q: Seq<QueuedInput>, m: MovementConfig) -> WorldView
    decreases q.len(),
{
    if q.len() == 0 {
        w
    } else {
        apply_input_world(apply_queued(w, q.drop_last(), m), q.last().player_id, q.last().input, m)
    }
}

/// The server after one tick.
pub open spec fn server_step(s: ServerView) -> ServerView {
    ServerView {
        world: step_world(apply_queued(s.world, s.queued, s.movement)),
        queued: Seq::empty(),
        tick: (s.tick + 1) as u64,
        ..s
    }
}

/// The snapshot of the server's current state.
pub open spec fn snapshot_of(s: ServerView) -> SnapshotView {
    SnapshotView {
        tick: s.tick,
        bodies: s.world.bodies.map_values(
            |b: Body| BodyState { body: b, last_sequence: last_sequence_of(s.players, b.id) },
        ),
    }
}

/// Owns the one authoritative world.
pub struct AuthoritativePhysics {
    pub world: PhysicsWorld,
    pub players: Vec<PlayerSlot>,
    pub queued: Vec<QueuedInput>,
    pub tick: u64,
    pub movement: MovementConfig,
}

impl View for AuthoritativePhysics {
    type V = ServerView;

    open spec fn view(&self) -> ServerView {
        ServerView {
            world: self.world@,
            players: self.players@,
            queued: self.queued@,
            tick: self.tick,
            movement: self.movement,
        }
    }
}

fn find_slot_exec(players: &Vec<PlayerSlot>, id: u32) -> (r: Option<PlayerSlot>)
    ensures
        r == find_slot(players@, id),
{
    let mut i: usize = 0;
    assert(players@.subrange(0, players@.len() as int) =~= players@);
    while i < players.len()
        invariant
            i <= players.len(),
            find_slot(players@, id) == find_slot(
                players@.subrange(i as int, players@.len() as int),
                id,
            ),
        decreases players.len() - i,
    {
        let ghost rest = players@.subrange(i as int, players@.len() as int);
        if players[i].id == id {
            return Some(players[i]);
        }
        assert(rest.subrange(1, rest.len() as int) =~= players@.subrange(
            i as int + 1,
            players@.len() as int,
        ));
        i += 1;
    }
    None
}

fn speed_cap_exec(input: &PlayerInput, m: &MovementConfig) -> (r: bool)
    ensures
        r == within_speed_cap(*input, *m),
{
    let ghost sx = strafe_axis(*input);
    let ghost sz = forward_axis(*input);
    let cx: u64 = if input.move_right != input.move_left {
        1
    } else {
        0
    };
    let cz: u64 = if input.move_forward != input.move_backward {
        1
    } else {
        0
    };
    assert(sx * sx == cx && sz * sz == cz) by (nonlinear_arith)
        requires
            -1 <= sx <= 1,
            -1 <= sz <= 1,
            cx == (if sx != 0 {
                1int
            } else {
                0int
            }),
            cz == (if sz != 0 {
                1int
            } else {
                0int
            }),
    ;
    let s = m.move_speed as u64;
    let mx = m.max_speed as u64;
    assert(s * s <= 0xffff_fffe_0000_0001 && mx * mx <= 0xffff_fffe_0000_0001) by (nonlinear_arith)
        requires
            s <= 0xffff_ffff,
            mx <= 0xffff_ffff,
    ;
    assert((cx + cz) * (s * s) <= 2 * 0xffff_fffe_0000_0001u128) by (nonlinear_arith)
        requires
            cx + cz <= 2,
            s * s <= 0xffff_fffe_0000_0001,
    ;
    let lhs: u128 = (cx + cz) as u128 * ((s * s) as u128);
    assert((sx * sx + sz * sz) * m.move_speed * m.move_speed == (cx + cz) * (s * s))
        by (nonlinear_arith)
        requires
            sx * sx == cx,
            sz * sz == cz,
            s == m.move_speed,
    ;
    lhs <= (mx * mx) as u128
}

impl AuthoritativePhysics {
    /// A server with the standard world and movement rules, no players, at tick 0.
    pub fn new() -> (r: AuthoritativePhysics)
        ensures
            r.world.wf(),
            r@.world == (WorldView {
                gravity: standard_config().gravity,
                time_step: standard_config().time_step,
                bodies: Seq::empty(),
            }),
            r@.players == Seq::<PlayerSlot>::empty(),
            r@.queued == Seq::<QueuedInput>::empty(),
            r@.tick == 0,
            r@.movement == standard_movement(),
    {
        let config = PhysicsConfig::standard();
        AuthoritativePhysics {
            world: PhysicsWorld { gravity: config.gravity, time_step: config.time_step, bodies: Vec::new() },
            players: Vec::new(),
            queued: Vec::new(),
            tick: 0,
            movement: MovementConfig::standard(),
        }
    }

    /// A server with the given world and movement rules; fails on a zero time step.
    pub fn with_config(config: PhysicsConfig, movement: MovementConfig) -> (r: Result<
        AuthoritativePhysics,
        ConfigError,
    >)
        ensures
            config.time_step == 0 <==> r is Err,
            r is Err ==> r == Err::<AuthoritativePhysics, ConfigError>(ConfigError::InvalidTimestep),
            r matches Ok(a) ==> a.world.wf() && a@ == (ServerView {
                world: WorldView {
                    gravity: config.gravity,
                    time_step: config.time_step,
                    bodies: Seq::empty(),
                },
                players: Seq::empty(),
                queued: Seq::empty(),
                tick: 0,
                movement,
            }),
    {
        match PhysicsWorld::new(config) {
            Ok(world) => Ok(
                AuthoritativePhysics {
                    world,
                    players: Vec::new(),
                    queued: Vec::new(),
                    tick: 0,
                    movement,
                },
            ),
            Err(e) => Err(e),
        }
    }

    /// The authoritative tick counter.
    pub fn tick(&self) -> (r: u64)
        ensures
            r == self.tick,
    {
        self.tick
    }

    /// The authoritative world.
    pub fn world(&self) -> (r: &PhysicsWorld)
        ensures
            r == &self.world,
    {
        &self.world
    }

    /// The authoritative world, to change in place.
    pub fn world_mut(&mut self) -> (r: &mut PhysicsWorld)
        ensures
            *r == old(self).world,
            *final(self) == (AuthoritativePhysics { world: *final(r), ..*old(self) }),
    {
        &mut self.world
    }

    /// Registers player `id` with a body at the origin; false, and nothing changes, when
    /// `id` is already connected.
    pub fn connect(&mut self, id: u32) -> (r: bool)
        ensures
            (final(self)@, r) == connect_result(old(self)@, id),
            final(self).world.wf() == old(self).world.wf(),
    {
        if find_slot_exec(&self.players, id).is_some() {
            return false;
        }
        self.players.push(PlayerSlot { id, last_sequence: None });
        self.world.add_body(Body::spawn(id));
        true
    }

    /// Releases player `id`: its cursor, its body and its queued input. True when it was
    /// connected.
    pub fn disconnect(&mut self, id: u32) -> (r: bool)
        ensures
            (final(self)@, r) == disconnect_result(old(self)@, id),
            final(self).world.wf() == old(self).world.wf(),
    {
        let was = find_slot_exec(&self.players, id).is_some();
        let mut players: Vec<PlayerSlot> = Vec::new();
        let mut i: usize = 0;
        while i < self.players.len()
            invariant
                i <= self.players.len(),
                players@ == self.players@.take(i as int).filter(|p: PlayerSlot| p.id != id),
            decreases self.players.len() - i,
        {
            let p = self.players[i];
            proof {
                reveal(Seq::filter);
                assert(self.players@.take(i as int + 1).drop_last() =~= self.players@.take(
                    i as int,
                ));
            }
            if p.id != id {
                players.push(p);
            }
            i += 1;
        }
        assert(self.players@.take(self.players.len() as int) =~= self.players@);
        let mut queued: Vec<QueuedInput> = Vec::new();
        let mut j: usize = 0;
        while j < self.queued.len()
            invariant
                j <= self.queued.len(),
                queued@ == self.queued@.take(j as int).filter(
                    |q: QueuedInput| q.player_id != id,
                ),
            decreases self.queued.len() - j,
        {
            let q = self.queued[j];
            proof {
                reveal(Seq::filter);
                assert(self.queued@.take(j as int + 1).drop_last() =~= self.queued@.take(
                    j as int,
                ));
            }
            if q.player_id != id {
                queued.push(q);
            }
            j += 1;
        }
        assert(self.queued@.take(self.queued.len() as int) =~= self.queued@);
        self.players = players;
        self.queued = queued;
        self.world.remove_body(id);
        was
    }

    /// Validates `input` from player `id`. It is accepted when `id` is connected, its
    /// sequence is above the last accepted one, and the movement it asks for is within the
    /// maximum speed; then the cursor advances and the input waits for the next step.
    /// Otherwise nothing changes.
    pub fn process_input(&mut self, id: u32, input: &PlayerInput) -> (r: bool)
        ensures
            (final(self)@, r) == process_input_result(old(self)@, id, *input),
            final(self).world.wf() == old(self).world.wf(),
    {
        let slot = find_slot_exec(&self.players, id);
        let ok = match slot {
            Some(p) => {
                let fresh = match p.last_sequence {
                    Some(l) => input.sequence > l,
                    None => true,
                };
                fresh && speed_cap_exec(input, &self.movement)
            },
            None => false,
        };
        if !ok {
            return false;
        }
        let mut players: Vec<PlayerSlot> = Vec::new();
        let mut i: usize = 0;
        while i < self.players.len()
            invariant
                i <= self.players.len(),
                players@.len() == i,
                forall|j: int|
                    0 <= j < i ==> players@[j] == (if self.players@[j].id == id {
                        PlayerSlot { last_sequence: Some(input.sequence), ..self.players@[j] }
                    } else {
                        self.players@[j]
                    }),
            decreases self.players.len() - i,
        {
            let p = self.players[i];
            if p.id == id {
                players.push(PlayerSlot { id: p.id, last_sequence: Some(input.sequence) });
            } else {
                players.push(p);
            }
            i += 1;
        }
        assert(players@ =~= advance_cursor(self.players@, id, input.sequence));
        self.players = players;
        self.queued.push(QueuedInput { player_id: id, input: *input });
        true
    }

    /// Acts on a decoded message from player `id`: a connect joins the player and is
    /// answered with a welcome (nothing, when already connected), an input is validated,
    /// a disconnect releases the player.
    pub fn handle_message(&mut self, id: u32, m: &ClientMessage) -> (r: Option<ServerMessage>)
        ensures
            final(self)@ == handle_message_result(old(self)@, id, m@).0,
            match r {
                Some(reply) => handle_message_result(old(self)@, id, m@).1 == Some(reply@),
                None => handle_message_result(old(self)@, id, m@).1 is None,
            },
            final(self).world.wf() == old(self).world.wf(),
    {
        match m {
            ClientMessage::Connect { .. } => {
                if self.connect(id) {
                    Some(ServerMessage::Welcome { player_id: id })
                } else {
                    None
                }
            },
            ClientMessage::Input(i) => {
                self.process_input(id, i);
                None
            },
            ClientMessage::Disconnect => {
                self.disconnect(id);
                None
            },
        }
    }

    /// Applies the queued inputs in the order they were accepted, advances the world by one
    /// fixed time step, and advances the tick.
    pub fn step(&mut self)
        requires
            old(self).tick < u64::MAX,
        ensures
            final(self)@ == server_step(old(self)@),
            final(self).world.wf() == old(self).world.wf(),
    {
        let mut i: usize = 0;
        let ghost start = self.world@;
        while i < self.queued.len()
            invariant
                i <= self.queued.len(),
                self.world@ == apply_queued(start, self.queued@.take(i as int), self.movement),
                self.queued@ == old(self).queued@,
                self.players@ == old(self).players@,
                self.movement == old(self).movement,
                self.tick == old(self).tick,
                self.world.time_step == old(self).world.time_step,
            decreases self.queued.len() - i,
        {
            let q = self.queued[i];
            self.world.apply_input(q.player_id, &q.input, &self.movement);
            proof {
                let next = self.queued@.take(i as int + 1);
                assert(next.drop_last() =~= self.queued@.take(i as int));
            }
            i += 1;
        }
        assert(self.queued@.take(self.queued.len() as int) =~= self.queued@);
        self.world.step();
        self.queued = Vec::new();
        self.tick = self.tick + 1;
    }

    /// The state that clients reconcile against: every body with its player's last
    /// accepted sequence, and the tick.
    pub fn snapshot(&self) -> (r: Snapshot)
        ensures
            r@ == snapshot_of(self@),
    {
        let mut out: Vec<BodyState> = Vec::new();
        let mut i: usize = 0;
        while i < self.world.bodies.len()
            invariant
                i <= self.world.bodies.len(),
                out@.len() == i,
                forall|j: int|
                    0 <= j < i ==> out@[j] == (BodyState {
                        body: self.world.bodies@[j],
                        last_sequence: last_sequence_of(self.players@, self.world.bodies@[j].id),
                    }),
            decreases self.world.bodies.len() - i,
        {
            let b = self.world.bodies[i];
            let seq = match find_slot_exec(&self.players, b.id) {
                Some(p) => p.last_sequence,
                None => None,
            };
            out.push(BodyState { body: b, last_sequence: seq });
            i += 1;
        }
        assert(out@ =~= snapshot_of(self@).bodies);
        Snapshot { tick: self.tick, bodies: out }
    }
}

impl Default for AuthoritativePhysics {
    fn default() -> (r: AuthoritativePhysics)
        ensures
            r.world.wf(),
            r@ == (ServerView {
                world: WorldView {
                    gravity: standard_config().gravity,
                    time_step: standard_config().time_step,
                    bodies: Seq::empty(),
                },
                players: Seq::empty(),
                queued: Seq::empty(),
                tick: 0,
                movement: standard_movement(),
            }),
    {
        AuthoritativePhysics::new()
    }
}

/// Something that happens to the server: an input arrives, or a tick passes.
pub enum ServerEvent {
    Input { player_id: u32, input: PlayerInput },
    Step,
}

/// The server after the events, in order.
pub open spec fn run_server(s: ServerView, events: Seq<ServerEvent>) -> ServerView
    decreases events.len(),
{
    if events.len() == 0 {
        s
    } else {
        let prev = run_server(s, events.drop_last());
        match events.last() {
            ServerEvent::Input { player_id, input } => process_input_result(
                prev,
                player_id,
                input,
            ).0,
            ServerEvent::Step => server_step(prev),
        }
    }
}

proof fn lemma_find_slot_advance(players: Seq<PlayerSlot>, id: u32, seq: u64)
    ensures
        find_slot(advance_cursor(players, id, seq), id) == (match find_slot(players, id) {
            Some(p) => Some(PlayerSlot { last_sequence: Some(seq), ..p }),
            None => None,
        }),
    decreases players.len(),
{
    if players.len() > 0 {
        let rest = players.subrange(1, players.len() as int);
        assert(advance_cursor(players, id, seq).subrange(1, players.len() as int) =~= advance_cursor(
            rest,
            id,
            seq,
        ));
        lemma_find_slot_advance(rest, id, seq);
    }
}

/// Two servers that start in the same state and see the same events in the same order end
/// in the same state: the same bodies, positions and velocities, bit for bit.
pub proof fn determinism(a: ServerView, b: ServerView, events: Seq<ServerEvent>)
    requires
        a == b,
    ensures
        run_server(a, events) == run_server(b, events),
{
}

/// Once an input of a player is accepted, an input of that player whose sequence number is
/// not above it is rejected.
pub proof fn stale_input_rejected(s: ServerView, id: u32, first: PlayerInput, later: PlayerInput)
    requires
        process_input_result(s, id, first).1,
        later.sequence <= first.sequence,
    ensures
        !process_input_result(process_input_result(s, id, first).0, id, later).1,
{
    lemma_find_slot_advance(s.players, id, first.sequence);
}

/// Movement along one axis is within the cap exactly when the move speed is at most the
/// maximum speed: at the maximum it passes, above it it fails.
pub proof fn speed_cap_boundary(input: PlayerInput, m: MovementConfig)
    requires
        strafe_axis(input) * strafe_axis(input) + forward_axis(input) * forward_axis(input) == 1,
    ensures
        within_speed_cap(input, m) <==> m.move_speed <= m.max_speed,
{
    let s = m.move_speed as int;
    let mx = m.max_speed as int;
    assert((s * s <= mx * mx) <==> (s <= mx)) by (nonlinear_arith)
        requires
            s >= 0,
            mx >= 0,
    ;
}

/// Looking up a player's body commutes with a change applied to every body that keeps ids.
proof fn lemma_find_body_map(bodies: Seq<Body>, id: u32, f: spec_fn(Body) -> Body)
    requires
        forall|b: Body| #[trigger] f(b).id == b.id,
    ensures
        find_body(bodies.map_values(f), id) == (match find_body(bodies, id) {
            Some(b) => Some(f(b)),
            None => None,
        }),
        find_body(bodies, id) matches Some(b) ==> b.id == id,
    decreases bodies.len(),
{
    if bodies.len() > 0 {
        let rest = bodies.subrange(1, bodies.len() as int);
        assert(bodies.map_values(f).subrange(1, bodies.len() as int) =~= rest.map_values(f));
        assert(f(bodies[0]).id == bodies[0].id);
        lemma_find_body_map(rest, id, f);
    }
}

/// An input accepted from a player, with nothing else queued, moves that player's body at
/// the next step by exactly one fixed step of integration, starting from the velocity and
/// orientation the input gives it.
pub proof fn accepted_input_moves_one_step(s: ServerView, id: u32, input: PlayerInput)
    requires
        s.queued.len() == 0,
        process_input_result(s, id, input).1,
    ensures
        find_body(server_step(process_input_result(s, id, input).0).world.bodies, id) == (
        match find_body(s.world.bodies, id) {
            Some(b) => Some(
                step_body(apply_input_body(b, input, s.movement), s.world.gravity, s.world.time_step),
            ),
            None => None,
        }),
{
    let t = process_input_result(s, id, input).0;
    let m = s.movement;
    let q = t.queued;
    assert(q.drop_last() =~= Seq::<QueuedInput>::empty());
    assert(apply_queued(t.world, q.drop_last(), m) == t.world);
    let applied = apply_queued(t.world, q, m);
    assert(applied == apply_input_world(t.world, id, input, m));
    let f1 = |b: Body|
        if b.id == id {
            apply_input_body(b, input, m)
        } else {
            b
        };
    let f2 = |b: Body| step_body(b, s.world.gravity, s.world.time_step);
    assert(applied.bodies =~= s.world.bodies.map_values(f1));
    assert(step_world(applied).bodies =~= applied.bodies.map_values(f2));
    lemma_find_body_map(s.world.bodies, id, f1);
    lemma_find_body_map(applied.bodies, id, f2);
    assert(server_step(t).world == step_world(applied));
    match find_body(s.world.bodies, id) {
        Some(b) => {
            assert(f1(b) == apply_input_body(b, input, m));
        },
        None => {},
    }
}

} // verus!
