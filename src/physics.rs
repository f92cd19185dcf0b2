//! The steppable world shared by server authority and client prediction.
//!
//! Units: positions in femtometres, velocities in nanometres per second, gravity in
//! millimetres per second squared, the time step in microseconds. With these units one
//! step is `v += g * dt; p += v * dt` with no division, so it is exact.
use crate::math::{clamp_i64, vec_plus, vec_scaled, Vec3};
use crate::protocol::PlayerInput;
use vstd::prelude::*;

verus! {

/// Nanometres per second in one millimetre per second.
pub const NM_PER_MM: i64 = 1_000_000;

/// The state of one rigid body, keyed by the id of the player that owns it.
#[derive(Clone, Copy, Debug, PartialEq, Eq, Structural)]
pub struct Body {
    pub id: u32,
    pub position: Vec3,
    pub velocity: Vec3,
    pub yaw: i64,
    pub pitch: i64,
}

/// Integration parameters of a world.
#[derive(Clone, Copy, Debug, PartialEq, Eq, Structural)]
pub struct PhysicsConfig {
    pub gravity: Vec3,
    pub time_step: u32,
}

/// A world's parameters were invalid.
#[derive(Clone, Copy, Debug, PartialEq, Eq, Structural)]
pub enum ConfigError {
    InvalidTimestep,
}

/// How player input turns into motion. Speeds are in millimetres per second.
#[derive(Clone, Copy, Debug, PartialEq, Eq, Structural)]
pub struct MovementConfig {
    pub move_speed: u32,
    pub max_speed: u32,
}

/// Walk at 5 m/s, never faster than 10 m/s.
pub open spec fn standard_movement() -> MovementConfig {
    MovementConfig { move_speed: 5_000, max_speed: 10_000 }
}

impl MovementConfig {
    pub fn standard() -> (r: MovementConfig)
        ensures
            r == standard_movement(),
    {
        MovementConfig { move_speed: 5_000, max_speed: 10_000 }
    }
}

/// The mathematical state of a world.
pub struct WorldView {
    pub gravity: Vec3,
    pub time_step: u32,
    pub bodies: Seq<Body>,
}

/// Earth gravity, 60 steps per second.
pub open spec fn standard_config() -> PhysicsConfig {
    PhysicsConfig { gravity: Vec3 { x: 0, y: -9810i64, z: 0 }, time_step: 16_667 }
}

impl PhysicsConfig {
    pub fn standard() -> (r: PhysicsConfig)
        ensures
            r == standard_config(),
    {
        PhysicsConfig { gravity: Vec3 { x: 0, y: -9810, z: 0 }, time_step: 16_667 }
    }
}

impl Default for PhysicsConfig {
    fn default() -> (r: PhysicsConfig)
        ensures
            r == standard_config(),
    {
        PhysicsConfig::standard()
    }
}

/// One body after one step of semi-implicit Euler integration.
pub open spec fn step_body(b: Body, gravity: Vec3, dt: u32) -> Body {
    let v = vec_plus(b.velocity, vec_scaled(gravity, dt as i64));
    Body { velocity: v, position: vec_plus(b.position, vec_scaled(v, dt as i64)), ..b }
}

/// The whole world after one step.
pub open spec fn step_world(w: WorldView) -> WorldView {
    WorldView {
        bodies: w.bodies.map_values(|b: Body| step_body(b, w.gravity, w.time_step)),
        ..w
    }
}

/// -1, 0 or 1: the direction that a pair of opposite buttons asks for.
pub open spec fn axis(positive: bool, negative: bool) -> int {
    (if positive { 1int } else { 0int }) - (if negative { 1int } else { 0int })
}

/// The sideways direction of an input (right is positive).
pub open spec fn strafe_axis(input: PlayerInput) -> int {
    axis(input.move_right, input.move_left)
}

/// The forward direction of an input (forward is positive z).
pub open spec fn forward_axis(input: PlayerInput) -> int {
    axis(input.move_forward, input.move_backward)
}

/// The velocity a body takes from an input: horizontal components from the buttons,
/// vertical component kept.
pub open spec fn input_velocity(v: Vec3, input: PlayerInput, m: MovementConfig) -> Vec3 {
    Vec3 {
        x: (strafe_axis(input) * m.move_speed * NM_PER_MM) as i64,
        y: v.y,
        z: (forward_axis(input) * m.move_speed * NM_PER_MM) as i64,
    }
}

/// A body after an input was applied to it.
pub open spec fn apply_input_body(b: Body, input: PlayerInput, m: MovementConfig) -> Body {
    Body {
        velocity: input_velocity(b.velocity, input, m),
        yaw: clamp_i64(b.yaw + input.look_delta_x),
        pitch: clamp_i64(b.pitch + input.look_delta_y),
        ..b
    }
}

/// A world after an input was applied to the bodies of player `id`.
pub open spec fn apply_input_world(
    w: WorldView,
    id: u32,
    input: PlayerInput,
    m: MovementConfig,
) -> WorldView {
    WorldView {
        bodies: w.bodies.map_values(
            |b: Body|
                if b.id == id {
                    apply_input_body(b, input, m)
                } else {
                    b
                },
        ),
        ..w
    }
}

/// The first body of player `id`, if any.
pub open spec fn find_body(bodies: Seq<Body>, id: u32) -> Option<Body>
    decreases bodies.len(),
{
    if bodies.len() == 0 {
        None
    } else if bodies[0].id == id {
        Some(bodies[0])
    } else {
        find_body(bodies.subrange(1, bodies.len() as int), id)
    }
}

/// The body of player `id` when it joins: at rest at the origin, looking straight ahead.
pub open spec fn spawn_body(id: u32) -> Body {
    Body {
        id,
        position: Vec3 { x: 0, y: 0, z: 0 },
        velocity: Vec3 { x: 0, y: 0, z: 0 },
        yaw: 0,
        pitch: 0,
    }
}

impl Body {
    /// The body of player `id` when it joins.
    pub fn spawn(id: u32) -> (r: Body)
        ensures
            r == spawn_body(id),
    {
        Body { id, position: Vec3::zero(), velocity: Vec3::zero(), yaw: 0, pitch: 0 }
    }
}

/// Shared world of rigid bodies that advances by a fixed time step.
pub struct PhysicsWorld {
    pub gravity: Vec3,
    pub time_step: u32,
    pub bodies: Vec<Body>,
}

impl View for PhysicsWorld {
    type V = WorldView;

    open spec fn view(&self) -> WorldView {
        WorldView { gravity: self.gravity, time_step: self.time_step, bodies: self.bodies@ }
    }
}

fn step_one(b: &Body, gravity: &Vec3, dt: u32) -> (r: Body)
    ensures
        r == step_body(*b, *gravity, dt),
{
    let v = b.velocity.plus(&gravity.scaled(dt as i64));
    Body { velocity: v, position: b.position.plus(&v.scaled(dt as i64)), ..*b }
}

fn copy_bodies(bodies: &Vec<Body>) -> (r: Vec<Body>)
    ensures
        r@ == bodies@,
{
    let mut out: Vec<Body> = Vec::new();
    let mut i: usize = 0;
    while i < bodies.len()
        invariant
            i <= bodies.len(),
            out@ == bodies@.take(i as int),
        decreases bodies.len() - i,
    {
        out.push(bodies[i]);
        proof {
            assert(bodies@.take(i as int + 1) =~= bodies@.take(i as int).push(bodies@[i as int]));
        }
        i += 1;
    }
    proof {
        assert(bodies@.take(bodies.len() as int) =~= bodies@);
    }
    out
}

/// Velocity of one axis of movement, in nanometres per second.
fn axis_velocity(positive: bool, negative: bool, move_speed: u32) -> (r: i64)
    ensures
        r == axis(positive, negative) * move_speed * NM_PER_MM,
{
    let s: i64 = move_speed as i64 * NM_PER_MM;
    let ghost a = axis(positive, negative);
    if positive && !negative {
        assert(a * move_speed * NM_PER_MM == s) by (nonlinear_arith)
            requires
                a == 1,
                s == move_speed * NM_PER_MM,
        ;
        s
    } else if negative && !positive {
        assert(a * move_speed * NM_PER_MM == -s) by (nonlinear_arith)
            requires
                a == -1,
                s == move_speed * NM_PER_MM,
        ;
        -s
    } else {
        assert(a * move_speed * NM_PER_MM == 0) by (nonlinear_arith)
            requires
                a == 0,
        ;
        0
    }
}

/// `b` after `input` was applied to it.
pub fn apply_input_to_body(b: &Body, input: &PlayerInput, m: &MovementConfig) -> (r: Body)
    ensures
        r == apply_input_body(*b, *input, *m),
{
    let vx = axis_velocity(input.move_right, input.move_left, m.move_speed);
    let vz = axis_velocity(input.move_forward, input.move_backward, m.move_speed);
    Body {
        velocity: Vec3 { x: vx, y: b.velocity.y, z: vz },
        yaw: crate::math::sat_add(b.yaw, input.look_delta_x as i64),
        pitch: crate::math::sat_add(b.pitch, input.look_delta_y as i64),
        ..*b
    }
}

impl PhysicsWorld {
    /// The world's invariant: a positive time step.
    pub open spec fn wf(&self) -> bool {
        self.time_step > 0
    }

    /// An empty world; fails on a zero time step.
    pub fn new(config: PhysicsConfig) -> (r: Result<PhysicsWorld, ConfigError>)
        ensures
            config.time_step == 0 <==> r is Err,
            r is Err ==> r == Err::<PhysicsWorld, ConfigError>(ConfigError::InvalidTimestep),
            r matches Ok(w) ==> w.wf() && w@.gravity == config.gravity && w@.time_step
                == config.time_step && w@.bodies == Seq::<Body>::empty(),
    {
        if config.time_step == 0 {
            Err(ConfigError::InvalidTimestep)
        } else {
            Ok(PhysicsWorld { gravity: config.gravity, time_step: config.time_step, bodies: Vec::new() })
        }
    }

    /// Advances every body by exactly one time step.
    pub fn step(&mut self)
        ensures
            final(self)@ == step_world(old(self)@),
    {
        let mut out: Vec<Body> = Vec::new();
        let mut i: usize = 0;
        while i < self.bodies.len()
            invariant
                i <= self.bodies.len(),
                out@.len() == i,
                forall|j: int|
                    0 <= j < i ==> out@[j] == step_body(self.bodies@[j], self.gravity, self.time_step),
            decreases self.bodies.len() - i,
        {
            let b = step_one(&self.bodies[i], &self.gravity, self.time_step);
            out.push(b);
            i += 1;
        }
        proof {
            assert(out@ =~= self.bodies@.map_values(
                |b: Body| step_body(b, self.gravity, self.time_step),
            ));
        }
        self.bodies = out;
    }

    /// Changes the time step of later steps; fails on zero and leaves the world as it was.
    pub fn set_timestep(&mut self, dt: u32) -> (r: Result<(), ConfigError>)
        ensures
            dt == 0 <==> r is Err,
            r is Err ==> r == Err::<(), ConfigError>(ConfigError::InvalidTimestep) && final(self)@
                == old(self)@,
            r is Ok ==> final(self)@ == (WorldView { time_step: dt, ..old(self)@ }),
    {
        if dt == 0 {
            Err(ConfigError::InvalidTimestep)
        } else {
            self.time_step = dt;
            Ok(())
        }
    }

    /// Adds a body.
    pub fn add_body(&mut self, body: Body)
        ensures
            final(self)@ == (WorldView { bodies: old(self)@.bodies.push(body), ..old(self)@ }),
    {
        self.bodies.push(body);
    }

    /// Removes every body of player `id`.
    pub fn remove_body(&mut self, id: u32)
        ensures
            final(self)@ == (WorldView {
                bodies: old(self)@.bodies.filter(|b: Body| b.id != id),
                ..old(self)@
            }),
    {
        let mut out: Vec<Body> = Vec::new();
        let mut i: usize = 0;
        while i < self.bodies.len()
            invariant
                i <= self.bodies.len(),
                out@ == self.bodies@.take(i as int).filter(|b: Body| b.id != id),
            decreases self.bodies.len() - i,
        {
            let b = self.bodies[i];
            proof {
                reveal(Seq::filter);
                assert(self.bodies@.take(i as int + 1).drop_last() =~= self.bodies@.take(i as int));
            }
            if b.id != id {
                out.push(b);
            }
            i += 1;
        }
        proof {
            assert(self.bodies@.take(self.bodies.len() as int) =~= self.bodies@);
        }
        self.bodies = out;
    }

    /// The first body of player `id`.
    pub fn body(&self, id: u32) -> (r: Option<Body>)
        ensures
            r == find_body(self@.bodies, id),
    {
        let mut i: usize = 0;
        assert(self.bodies@.subrange(0, self.bodies@.len() as int) =~= self.bodies@);
        while i < self.bodies.len()
            invariant
                i <= self.bodies.len(),
                find_body(self.bodies@, id) == find_body(
                    self.bodies@.subrange(i as int, self.bodies@.len() as int),
                    id,
                ),
            decreases self.bodies.len() - i,
        {
            let ghost rest = self.bodies@.subrange(i as int, self.bodies@.len() as int);
            if self.bodies[i].id == id {
                return Some(self.bodies[i]);
            }
            proof {
                assert(rest.subrange(1, rest.len() as int) =~= self.bodies@.subrange(
                    i as int + 1,
                    self.bodies@.len() as int,
                ));
            }
            i += 1;
        }
        None
    }

    /// Applies `input` to the bodies of player `id`.
    pub fn apply_input(&mut self, id: u32, input: &PlayerInput, m: &MovementConfig)
        ensures
            final(self)@ == apply_input_world(old(self)@, id, *input, *m),
    {
        let mut out: Vec<Body> = Vec::new();
        let mut i: usize = 0;
        while i < self.bodies.len()
            invariant
                i <= self.bodies.len(),
                out@.len() == i,
                forall|j: int|
                    0 <= j < i ==> out@[j] == (if self.bodies@[j].id == id {
                        apply_input_body(self.bodies@[j], *input, *m)
                    } else {
                        self.bodies@[j]
                    }),
            decreases self.bodies.len() - i,
        {
            let b = self.bodies[i];
            if b.id == id {
                out.push(apply_input_to_body(&b, input, m));
            } else {
                out.push(b);
            }
            i += 1;
        }
        proof {
            assert(out@ =~= apply_input_world(self@, id, *input, *m).bodies);
        }
        self.bodies = out;
    }

    /// An independent copy of this world.
    pub fn duplicate(&self) -> (r: PhysicsWorld)
        ensures
            r@ == self@,
    {
        PhysicsWorld { gravity: self.gravity, time_step: self.time_step, bodies: copy_bodies(&self.bodies) }
    }
}

impl Default for PhysicsWorld {
    /// An empty world with the standard configuration.
    fn default() -> (r: PhysicsWorld)
        ensures
            r.wf(),
            r@ == (WorldView {
                gravity: standard_config().gravity,
                time_step: standard_config().time_step,
                bodies: Seq::empty(),
            }),
    {
        let c = PhysicsConfig::standard();
        PhysicsWorld { gravity: c.gravity, time_step: c.time_step, bodies: Vec::new() }
    }
}

} // verus!
