//! Client-side prediction and reconciliation.
//!
//! The client advances a predicted world at once on each local input and keeps the
//! unacknowledged inputs, each with the state it predicted for its own body. When a
//! snapshot arrives it becomes the confirmed world; if the server's state for the client's
//! body is farther than the tolerance from the prediction for the same input, the
//! predicted world is reset to the confirmed one and the unacknowledged inputs are
//! replayed on top of it.
use crate::physics::{
    apply_input_world, find_body, spawn_body, standard_config, standard_movement, step_world,
    Body, ConfigError, MovementConfig, PhysicsConfig, PhysicsWorld, WorldView,
};
use crate::protocol::{is_after, BodyState, PlayerInput, Snapshot, SnapshotView};
use crate::server::{apply_queued, server_step, QueuedInput, ServerView};
use vstd::prelude::*;

verus! {

/// An input that the server has not acknowledged yet, with the state the client predicted
/// for its own body right after it.
#[derive(Clone, Copy, Debug, PartialEq, Eq, Structural)]
pub struct PredictedInput {
    pub input: PlayerInput,
    pub body: Option<Body>,
}

/// The last acknowledged input (none when the server had accepted none yet) and the
/// server's state for the client's body after it.
#[derive(Clone, Copy, Debug, PartialEq, Eq, Structural)]
pub struct AckRecord {
    pub sequence: Option<u64>,
    pub body: Body,
}

/// What a snapshot did to the client.
#[derive(Clone, Copy, Debug, PartialEq, Eq, Structural)]
pub enum ReconcileOutcome {
    /// Older than the last applied tick: dropped, nothing changed.
    Stale,
    /// Applied to the confirmed world; the snapshot has no body of this client.
    Applied,
    /// Applied; the prediction was within tolerance and was left as it was.
    WithinTolerance,
    /// Applied; the prediction had diverged and was rebuilt by replay.
    Corrected,
}

/// The mathematical state of a client.
pub struct ClientView {
    pub predicted: WorldView,
    pub confirmed: WorldView,
    pub player_id: u32,
    pub movement: MovementConfig,
    pub tolerance: u64,
    pub history_limit: nat,
    pub last_sequence: Option<u64>,
    pub last_tick: Option<u64>,
    pub pending: Seq<PredictedInput>,
    pub acked: Option<AckRecord>,
}

/// One millimetre, in femtometres: the default divergence tolerance.
pub const DEFAULT_TOLERANCE: u64 = 1_000_000_000_000;

/// How many unacknowledged inputs a client keeps by default: two seconds at 60 steps per
/// second.
pub const DEFAULT_HISTORY_LIMIT: usize = 120;

/// The last `n` entries of `s`; older ones expire.
pub open spec fn keep_last(s: Seq<PredictedInput>, n: nat) -> Seq<PredictedInput> {
    if s.len() > n {
        s.subrange(s.len() - n, s.len() as int)
    } else {
        s
    }
}

/// A world after one local input and one step.
pub open spec fn predict(w: WorldView, id: u32, input: PlayerInput, m: MovementConfig) -> WorldView {
    step_world(apply_input_world(w, id, input, m))
}

/// The client after a local input; false, with nothing changed, when its sequence is not
/// above the last one (any sequence is taken first). Beyond the history limit the oldest
/// unacknowledged input expires.
pub open spec fn step_prediction_result(c: ClientView, input: PlayerInput) -> (ClientView, bool) {
    if is_after(input.sequence, c.last_sequence) {
        let w = predict(c.predicted, c.player_id, input, c.movement);
        (
            ClientView {
                predicted: w,
                pending: keep_last(
                    c.pending.push(PredictedInput { input, body: find_body(w.bodies, c.player_id) }),
                    c.history_limit,
                ),
                last_sequence: Some(input.sequence),
                ..c
            },
            true,
        )
    } else {
        (c, false)
    }
}

/// `w` after the inputs were predicted on it in order.
pub open spec fn replay(
    w: WorldView,
    id: u32,
    m: MovementConfig,
    inputs: Seq<PredictedInput>,
) -> WorldView
    decreases inputs.len(),
{
    if inputs.len() == 0 {
        w
    } else {
        predict(replay(w, id, m, inputs.drop_last()), id, inputs.last().input, m)
    }
}

/// The inputs with the predictions that a replay on `w` makes for them.
pub open spec fn replayed_pending(
    w: WorldView,
    id: u32,
    m: MovementConfig,
    inputs: Seq<PredictedInput>,
) -> Seq<PredictedInput> {
    Seq::new(
        inputs.len(),
        |k: int|
            PredictedInput {
                input: inputs[k].input,
                body: find_body(replay(w, id, m, inputs.take(k + 1)).bodies, id),
            },
    )
}

/// The prediction stored with the first pending input of sequence `seq`.
pub open spec fn find_prediction(pending: Seq<PredictedInput>, seq: u64) -> Option<Body>
    decreases pending.len(),
{
    if pending.len() == 0 {
        None
    } else if pending[0].input.sequence == seq {
        pending[0].body
    } else {
        find_prediction(pending.subrange(1, pending.len() as int), seq)
    }
}

/// The state the client holds for its body after input `seq`, or, for none, before its
/// first input; only an acknowledgment record can hold the latter.
pub open spec fn prediction_at(c: ClientView, seq: Option<u64>) -> Option<Body> {
    let stored = match seq {
        Some(n) => find_prediction(c.pending, n),
        None => None,
    };
    match c.acked {
        Some(a) => if a.sequence == seq {
            Some(a.body)
        } else {
            stored
        },
        None => stored,
    }
}

pub open spec fn abs_diff(a: i64, b: i64) -> int {
    if a >= b {
        a - b
    } else {
        b - a
    }
}

/// Whether a predicted body state differs from the server's one enough to correct: its
/// position is farther than `tol` along some axis, or its velocity, yaw or pitch differ at
/// all. The simulation is exact, so any difference in velocity or orientation comes from
/// different input and will not fade; position is where a correction shows, and small
/// offsets there are left alone.
pub open spec fn diverges(a: Body, b: Body, tol: u64) -> bool {
    ||| abs_diff(a.position.x, b.position.x) > tol
    ||| abs_diff(a.position.y, b.position.y) > tol
    ||| abs_diff(a.position.z, b.position.z) > tol
    ||| a.velocity != b.velocity
    ||| a.yaw != b.yaw
    ||| a.pitch != b.pitch
}

/// The first snapshot entry of player `id`.
pub open spec fn find_state(states: Seq<BodyState>, id: u32) -> Option<BodyState>
    decreases states.len(),
{
    if states.len() == 0 {
        None
    } else if states[0].body.id == id {
        Some(states[0])
    } else {
        find_state(states.subrange(1, states.len() as int), id)
    }
}

/// A world whose bodies are those of the snapshot.
pub open spec fn world_from_snapshot(w: WorldView, s: SnapshotView) -> WorldView {
    WorldView { bodies: s.bodies.map_values(|e: BodyState| e.body), ..w }
}

/// Whether a snapshot is older than the last applied tick.
pub open spec fn is_stale(c: ClientView, s: SnapshotView) -> bool {
    match c.last_tick {
        Some(t) => s.tick < t,
        None => false,
    }
}

/// The client after a snapshot arrived, and what the snapshot did.
pub open spec fn reconcile_result(c: ClientView, s: SnapshotView) -> (ClientView, ReconcileOutcome) {
    if is_stale(c, s) {
        (c, ReconcileOutcome::Stale)
    } else {
        let confirmed = world_from_snapshot(c.confirmed, s);
        let c1 = ClientView { confirmed, last_tick: Some(s.tick), ..c };
        match find_state(s.bodies, c.player_id) {
            None => (c1, ReconcileOutcome::Applied),
            Some(e) => {
                let ack = e.last_sequence;
                let remaining = c.pending.filter(
                    |p: PredictedInput| is_after(p.input.sequence, ack),
                );
                let acked = Some(AckRecord { sequence: ack, body: e.body });
                let diverged = match prediction_at(c, ack) {
                    Some(b) => diverges(b, e.body, c.tolerance),
                    None => true,
                };
                if diverged {
                    (
                        ClientView {
                            predicted: replay(confirmed, c.player_id, c.movement, remaining),
                            pending: replayed_pending(
                                confirmed,
                                c.player_id,
                                c.movement,
                                remaining,
                            ),
                            acked,
                            ..c1
                        },
                        ReconcileOutcome::Corrected,
                    )
                } else {
                    (
                        ClientView { pending: remaining, acked, ..c1 },
                        ReconcileOutcome::WithinTolerance,
                    )
                }
            },
        }
    }
}

/// The client's two worlds and its input history.
pub struct ClientPhysics {
    pub predicted_world: PhysicsWorld,
    pub confirmed_world: PhysicsWorld,
    pub player_id: u32,
    pub movement: MovementConfig,
    pub tolerance: u64,
    pub history_limit: usize,
    /// The sequence number of the last predicted input; none before the first.
    pub last_sequence: Option<u64>,
    pub last_tick: Option<u64>,
    pub pending: Vec<PredictedInput>,
    pub acked: Option<AckRecord>,
}

impl View for ClientPhysics {
    type V = ClientView;

    open spec fn view(&self) -> ClientView {
        ClientView {
            predicted: self.predicted_world@,
            confirmed: self.confirmed_world@,
            player_id: self.player_id,
            movement: self.movement,
            tolerance: self.tolerance,
            history_limit: self.history_limit as nat,
            last_sequence: self.last_sequence,
            last_tick: self.last_tick,
            pending: self.pending@,
            acked: self.acked,
        }
    }
}

fn find_state_exec(states: &Vec<BodyState>, id: u32) -> (r: Option<BodyState>)
    ensures
        r == find_state(states@, id),
{
    let mut i: usize = 0;
    assert(states@.subrange(0, states@.len() as int) =~= states@);
    while i < states.len()
        invariant
            i <= states.len(),
            find_state(states@, id) == find_state(
                states@.subrange(i as int, states@.len() as int),
                id,
            ),
        decreases states.len() - i,
    {
        let ghost rest = states@.subrange(i as int, states@.len() as int);
        if states[i].body.id == id {
            return Some(states[i]);
        }
        assert(rest.subrange(1, rest.len() as int) =~= states@.subrange(
            i as int + 1,
            states@.len() as int,
        ));
        i += 1;
    }
    None
}

fn find_prediction_exec(pending: &Vec<PredictedInput>, seq: u64) -> (r: Option<Body>)
    ensures
        r == find_prediction(pending@, seq),
{
    let mut i: usize = 0;
    assert(pending@.subrange(0, pending@.len() as int) =~= pending@);
    while i < pending.len()
        invariant
            i <= pending.len(),
            find_prediction(pending@, seq) == find_prediction(
                pending@.subrange(i as int, pending@.len() as int),
                seq,
            ),
        decreases pending.len() - i,
    {
        let ghost rest = pending@.subrange(i as int, pending@.len() as int);
        if pending[i].input.sequence == seq {
            return pending[i].body;
        }
        assert(rest.subrange(1, rest.len() as int) =~= pending@.subrange(
            i as int + 1,
            pending@.len() as int,
        ));
        i += 1;
    }
    None
}

fn axis_diverges(a: i64, b: i64, tol: u64) -> (r: bool)
    ensures
        r == (abs_diff(a, b) > tol),
{
    let d: i128 = if a >= b {
        a as i128 - b as i128
    } else {
        b as i128 - a as i128
    };
    d > tol as i128
}

fn diverges_exec(a: &Body, b: &Body, tol: u64) -> (r: bool)
    ensures
        r == diverges(*a, *b, tol),
{
    axis_diverges(a.position.x, b.position.x, tol) || axis_diverges(
        a.position.y,
        b.position.y,
        tol,
    ) || axis_diverges(a.position.z, b.position.z, tol) || a.velocity != b.velocity || a.yaw
        != b.yaw || a.pitch != b.pitch
}

fn bodies_of(states: &Vec<BodyState>) -> (r: Vec<Body>)
    ensures
        r@ == states@.map_values(|e: BodyState| e.body),
{
    let mut out: Vec<Body> = Vec::new();
    let mut i: usize = 0;
    while i < states.len()
        invariant
            i <= states.len(),
            out@.len() == i,
            forall|j: int| 0 <= j < i ==> out@[j] == states@[j].body,
        decreases states.len() - i,
    {
        out.push(states[i].body);
        i += 1;
    }
    assert(out@ =~= states@.map_values(|e: BodyState| e.body));
    out
}

fn unacknowledged(pending: &Vec<PredictedInput>, ack: Option<u64>) -> (r: Vec<PredictedInput>)
    ensures
        r@ == pending@.filter(|p: PredictedInput| is_after(p.input.sequence, ack)),
{
    let mut out: Vec<PredictedInput> = Vec::new();
    let mut i: usize = 0;
    while i < pending.len()
        invariant
            i <= pending.len(),
            out@ == pending@.take(i as int).filter(
                |p: PredictedInput| is_after(p.input.sequence, ack),
            ),
        decreases pending.len() - i,
    {
        let p = pending[i];
        proof {
            reveal(Seq::filter);
            assert(pending@.take(i as int + 1).drop_last() =~= pending@.take(i as int));
        }
        let keep = match ack {
            Some(a) => p.input.sequence > a,
            None => true,
        };
        if keep {
            out.push(p);
        }
        i += 1;
    }
    assert(pending@.take(pending.len() as int) =~= pending@);
    out
}

/// Replays `inputs` on a copy of `base`: the world at the end, and each input with the
/// prediction the replay made for it.
fn replay_exec(base: &PhysicsWorld, id: u32, m: &MovementConfig, inputs: &Vec<PredictedInput>) -> (r: (
    PhysicsWorld,
    Vec<PredictedInput>,
))
    ensures
        r.0@ == replay(base@, id, *m, inputs@),
        r.0.time_step == base.time_step,
        r.1@ == replayed_pending(base@, id, *m, inputs@),
{
    let mut w = base.duplicate();
    let mut out: Vec<PredictedInput> = Vec::new();
    let mut k: usize = 0;
    assert(inputs@.take(0) =~= Seq::<PredictedInput>::empty());
    while k < inputs.len()
        invariant
            k <= inputs.len(),
            w@ == replay(base@, id, *m, inputs@.take(k as int)),
            w.time_step == base.time_step,
            out@.len() == k,
            forall|j: int|
                0 <= j < k ==> out@[j] == (PredictedInput {
                    input: inputs@[j].input,
                    body: find_body(replay(base@, id, *m, inputs@.take(j + 1)).bodies, id),
                }),
        decreases inputs.len() - k,
    {
        let input = inputs[k].input;
        w.apply_input(id, &input, m);
        w.step();
        let b = w.body(id);
        proof {
            let next = inputs@.take(k as int + 1);
            assert(next.drop_last() =~= inputs@.take(k as int));
        }
        out.push(PredictedInput { input, body: b });
        k += 1;
    }
    assert(inputs@.take(inputs.len() as int) =~= inputs@);
    assert(out@ =~= replayed_pending(base@, id, *m, inputs@));
    (w, out)
}

/// The last `n` entries of `v`.
fn newest(v: &Vec<PredictedInput>, n: usize) -> (r: Vec<PredictedInput>)
    requires
        n < v.len(),
    ensures
        r@ == v@.subrange(v@.len() - n, v@.len() as int),
{
    let start = v.len() - n;
    let mut out: Vec<PredictedInput> = Vec::new();
    let mut i: usize = start;
    while i < v.len()
        invariant
            start <= i <= v.len(),
            start == v.len() - n,
            out@ == v@.subrange(start as int, i as int),
        decreases v.len() - i,
    {
        out.push(v[i]);
        assert(out@ =~= v@.subrange(start as int, i as int + 1));
        i += 1;
    }
    out
}

impl ClientPhysics {
    /// Both worlds have a positive time step.
    pub open spec fn wf(&self) -> bool {
        self.predicted_world.wf() && self.confirmed_world.wf()
    }

    /// A client for player `id` with the standard world and movement rules, the default
    /// tolerance and history limit, and two empty worlds.
    pub fn new(player_id: u32) -> (r: ClientPhysics)
        ensures
            r.wf(),
            r@ == (ClientView {
                predicted: WorldView {
                    gravity: standard_config().gravity,
                    time_step: standard_config().time_step,
                    bodies: Seq::empty(),
                },
                confirmed: WorldView {
                    gravity: standard_config().gravity,
                    time_step: standard_config().time_step,
                    bodies: Seq::empty(),
                },
                player_id,
                movement: standard_movement(),
                tolerance: DEFAULT_TOLERANCE,
                history_limit: DEFAULT_HISTORY_LIMIT as nat,
                last_sequence: None,
                last_tick: None,
                pending: Seq::empty(),
                acked: None,
            }),
    {
        let c = PhysicsConfig::standard();
        ClientPhysics {
            predicted_world: PhysicsWorld {
                gravity: c.gravity,
                time_step: c.time_step,
                bodies: Vec::new(),
            },
            confirmed_world: PhysicsWorld {
                gravity: c.gravity,
                time_step: c.time_step,
                bodies: Vec::new(),
            },
            player_id,
            movement: MovementConfig::standard(),
            tolerance: DEFAULT_TOLERANCE,
            history_limit: DEFAULT_HISTORY_LIMIT,
            last_sequence: None,
            last_tick: None,
            pending: Vec::new(),
            acked: None,
        }
    }

    /// A client with the given rules, divergence tolerance (femtometres) and history
    /// limit, and two empty worlds; fails on a zero time step.
    pub fn with_config(
        player_id: u32,
        config: PhysicsConfig,
        movement: MovementConfig,
        tolerance: u64,
        history_limit: usize,
    ) -> (r: Result<ClientPhysics, ConfigError>)
        ensures
            config.time_step == 0 <==> r is Err,
            r is Err ==> r == Err::<ClientPhysics, ConfigError>(ConfigError::InvalidTimestep),
            r matches Ok(c) ==> c.wf() && c@ == (
            ClientView {
                predicted: WorldView {
                    gravity: config.gravity,
                    time_step: config.time_step,
                    bodies: Seq::empty(),
                },
                confirmed: WorldView {
                    gravity: config.gravity,
                    time_step: config.time_step,
                    bodies: Seq::empty(),
                },
                player_id,
                movement,
                tolerance,
                history_limit: history_limit as nat,
                last_sequence: None,
                last_tick: None,
                pending: Seq::empty(),
                acked: None,
            }),
    {
        if config.time_step == 0 {
            return Err(ConfigError::InvalidTimestep);
        }
        Ok(
            ClientPhysics {
                predicted_world: PhysicsWorld {
                    gravity: config.gravity,
                    time_step: config.time_step,
                    bodies: Vec::new(),
                },
                confirmed_world: PhysicsWorld {
                    gravity: config.gravity,
                    time_step: config.time_step,
                    bodies: Vec::new(),
                },
                player_id,
                movement,
                tolerance,
                history_limit,
                last_sequence: None,
                last_tick: None,
                pending: Vec::new(),
                acked: None,
            },
        )
    }

    /// Predicts a local input: applies it to the client's body and advances the predicted
    /// world by one step, and keeps the input until the server acknowledges it. An input
    /// whose sequence is not above the last one is refused and changes nothing.
    pub fn step_prediction(&mut self, input: &PlayerInput) -> (r: bool)
        ensures
            (final(self)@, r) == step_prediction_result(old(self)@, *input),
            old(self).wf() ==> final(self).wf(),
    {
        let fresh = match self.last_sequence {
            Some(l) => input.sequence > l,
            None => true,
        };
        if !fresh {
            return false;
        }
        self.predicted_world.apply_input(self.player_id, input, &self.movement);
        self.predicted_world.step();
        let b = self.predicted_world.body(self.player_id);
        self.pending.push(PredictedInput { input: *input, body: b });
        if self.pending.len() > self.history_limit {
            self.pending = newest(&self.pending, self.history_limit);
        }
        self.last_sequence = Some(input.sequence);
        true
    }

    /// Reconciles with a snapshot. One older than the last applied tick is dropped.
    /// Otherwise it becomes the confirmed world; when it holds this client's body, the
    /// inputs it acknowledges are dropped, and if the server's state of the body is
    /// farther than the tolerance from the prediction for the acknowledged input, the
    /// predicted world is rebuilt from the confirmed one by replaying the rest.
    pub fn reconcile_with_server(&mut self, snapshot: &Snapshot) -> (r: ReconcileOutcome)
        ensures
            (final(self)@, r) == reconcile_result(old(self)@, snapshot@),
            old(self).wf() ==> final(self).wf(),
    {
        let stale = match self.last_tick {
            Some(t) => snapshot.tick < t,
            None => false,
        };
        if stale {
            return ReconcileOutcome::Stale;
        }
        let ghost before = self@;
        self.confirmed_world.bodies = bodies_of(&snapshot.bodies);
        self.last_tick = Some(snapshot.tick);
        let e = match find_state_exec(&snapshot.bodies, self.player_id) {
            Some(e) => e,
            None => return ReconcileOutcome::Applied,
        };
        let ack = e.last_sequence;
        let stored = match ack {
            Some(n) => find_prediction_exec(&self.pending, n),
            None => None,
        };
        let at_ack = match self.acked {
            Some(a) => if a.sequence == ack {
                Some(a.body)
            } else {
                stored
            },
            None => stored,
        };
        assert(at_ack == prediction_at(before, ack));
        let diverged = match at_ack {
            Some(b) => diverges_exec(&b, &e.body, self.tolerance),
            None => true,
        };
        let remaining = unacknowledged(&self.pending, ack);
        self.acked = Some(AckRecord { sequence: ack, body: e.body });
        if diverged {
            let (w, replayed) = replay_exec(
                &self.confirmed_world,
                self.player_id,
                &self.movement,
                &remaining,
            );
            self.predicted_world = w;
            self.pending = replayed;
            ReconcileOutcome::Corrected
        } else {
            self.pending = remaining;
            ReconcileOutcome::WithinTolerance
        }
    }

    /// Puts the player's body into both worlds as the server spawns it when the player
    /// joins; called once the server has welcomed the player.
    pub fn join(&mut self)
        ensures
            final(self)@ == (ClientView {
                predicted: WorldView {
                    bodies: old(self)@.predicted.bodies.push(spawn_body(old(self).player_id)),
                    ..old(self)@.predicted
                },
                confirmed: WorldView {
                    bodies: old(self)@.confirmed.bodies.push(spawn_body(old(self).player_id)),
                    ..old(self)@.confirmed
                },
                ..old(self)@
            }),
            old(self).wf() ==> final(self).wf(),
    {
        self.predicted_world.add_body(Body::spawn(self.player_id));
        self.confirmed_world.add_body(Body::spawn(self.player_id));
    }

    /// The predicted world.
    pub fn predicted(&self) -> (r: &PhysicsWorld)
        ensures
            r == &self.predicted_world,
    {
        &self.predicted_world
    }

    /// The confirmed world.
    pub fn confirmed(&self) -> (r: &PhysicsWorld)
        ensures
            r == &self.confirmed_world,
    {
        &self.confirmed_world
    }

    /// The predicted world, to change in place.
    pub fn predicted_mut(&mut self) -> (r: &mut PhysicsWorld)
        ensures
            *r == old(self).predicted_world,
            *final(self) == (ClientPhysics { predicted_world: *final(r), ..*old(self) }),
    {
        &mut self.predicted_world
    }

    /// The confirmed world, to change in place.
    pub fn confirmed_mut(&mut self) -> (r: &mut PhysicsWorld)
        ensures
            *r == old(self).confirmed_world,
            *final(self) == (ClientPhysics { confirmed_world: *final(r), ..*old(self) }),
    {
        &mut self.confirmed_world
    }
}

/// Reconciling twice with the same snapshot, with no prediction in between, leaves the
/// predicted world as reconciling once left it.
pub proof fn reconcile_idempotent(c: ClientView, s: SnapshotView)
    ensures
        reconcile_result(reconcile_result(c, s).0, s).0.predicted == reconcile_result(c, s).0.predicted,
{
}

/// A snapshot no older than the last applied one is applied, however many ticks were lost
/// in between: the confirmed world takes its bodies and its tick becomes the last applied.
pub proof fn newer_snapshot_applied(c: ClientView, s: SnapshotView)
    requires
        match c.last_tick {
            Some(t) => s.tick >= t,
            None => true,
        },
    ensures
        reconcile_result(c, s).1 != ReconcileOutcome::Stale,
        reconcile_result(c, s).0.confirmed == world_from_snapshot(c.confirmed, s),
        reconcile_result(c, s).0.last_tick == Some(s.tick),
{
}

/// A client whose predicted world is the server's world, under the server's movement rules,
/// predicts an input into exactly the world the server reaches when it steps with that
/// input as the only one queued: prediction reproduces the authority bit for bit.
pub proof fn prediction_matches_authority(c: ClientView, s: ServerView, input: PlayerInput)
    requires
        c.predicted == s.world,
        c.movement == s.movement,
        s.queued == seq![QueuedInput { player_id: c.player_id, input }],
        is_after(input.sequence, c.last_sequence),
    ensures
        step_prediction_result(c, input).1,
        step_prediction_result(c, input).0.predicted == server_step(s).world,
{
    let q = s.queued;
    assert(q.drop_last() =~= Seq::<QueuedInput>::empty());
    assert(apply_queued(s.world, q.drop_last(), s.movement) == s.world);
}

/// Losing a snapshot changes nothing in the confirmed state: reconciling with ticks 3 and 5
/// leaves the same confirmed world and last applied tick as reconciling with 3, 4 and 5.
/// Only the newest snapshot decides; nothing is filled in for the lost tick.
pub proof fn lost_snapshot_leaves_confirmed_state(
    c: ClientView,
    s3: SnapshotView,
    s4: SnapshotView,
    s5: SnapshotView,
)
    requires
        !is_stale(c, s3),
        s3.tick <= s4.tick <= s5.tick,
    ensures
        reconcile_result(reconcile_result(c, s3).0, s5).0.confirmed == reconcile_result(
            reconcile_result(reconcile_result(c, s3).0, s4).0,
            s5,
        ).0.confirmed,
        reconcile_result(reconcile_result(c, s3).0, s5).0.last_tick == Some(s5.tick),
        reconcile_result(reconcile_result(reconcile_result(c, s3).0, s4).0, s5).0.last_tick
            == Some(s5.tick),
{
    let a = reconcile_result(c, s3).0;
    let b = reconcile_result(a, s4).0;
    assert(a.last_tick == Some(s3.tick));
    assert(a.confirmed.gravity == c.confirmed.gravity && a.confirmed.time_step
        == c.confirmed.time_step);
    assert(b.last_tick == Some(s4.tick));
    assert(b.confirmed.gravity == c.confirmed.gravity && b.confirmed.time_step
        == c.confirmed.time_step);
}

} // verus!
