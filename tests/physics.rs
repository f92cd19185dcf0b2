use fps_netcode::math::{sat_add, sat_mul, Vec3};
use fps_netcode::physics::{Body, ConfigError, MovementConfig, PhysicsConfig, PhysicsWorld};
use fps_netcode::protocol::PlayerInput;

fn world_with_player(id: u32) -> PhysicsWorld {
    let mut w = PhysicsWorld::new(PhysicsConfig::standard()).unwrap();
    w.add_body(Body::spawn(id));
    w
}

#[test]
fn test_physics_determinism() {
    let mut world1 = world_with_player(1);
    let mut world2 = world_with_player(1);
    let movement = MovementConfig { move_speed: 5_000, max_speed: 10_000 };
    let input = PlayerInput { sequence: 1, move_forward: true, look_delta_x: 60, ..Default::default() };
    for _ in 0..60 {
        world1.apply_input(1, &input, &movement);
        world2.apply_input(1, &input, &movement);
        world1.step();
        world2.step();
    }
    assert_eq!(world1.bodies, world2.bodies);
}

#[test]
fn test_physics_consistency() {
    // Velocity grows linearly in time: ten steps of 1/600 s match one step of 1/60 s.
    let mut small = world_with_player(1);
    small.set_timestep(1_667).unwrap();
    for _ in 0..10 {
        small.step();
    }
    let mut large = world_with_player(1);
    large.set_timestep(16_670).unwrap();
    large.step();
    assert_eq!(small.body(1).unwrap().velocity, large.body(1).unwrap().velocity);
    assert_eq!(small.body(1).unwrap().velocity.y, -163_532_700);
}

#[test]
fn zero_timestep_is_rejected() {
    let config = PhysicsConfig { gravity: Vec3::zero(), time_step: 0 };
    assert!(matches!(PhysicsWorld::new(config), Err(ConfigError::InvalidTimestep)));
    let mut w = world_with_player(1);
    assert_eq!(w.set_timestep(0), Err(ConfigError::InvalidTimestep));
    assert_eq!(w.time_step, 16_667);
    assert_eq!(w.set_timestep(1_000), Ok(()));
    assert_eq!(w.time_step, 1_000);
}

#[test]
fn one_step_integrates_gravity_exactly() {
    let mut w = world_with_player(3);
    w.step();
    let b = w.body(3).unwrap();
    assert_eq!(b.velocity, Vec3::new(0, -163_503_270, 0));
    assert_eq!(b.position, Vec3::new(0, -2_725_109_001_090, 0));
    w.step();
    let b = w.body(3).unwrap();
    assert_eq!(b.velocity.y, -327_006_540);
    assert_eq!(b.position.y, -8_175_327_003_270);
}

#[test]
fn input_sets_horizontal_velocity_and_turns() {
    let mut w = world_with_player(2);
    let movement = MovementConfig { move_speed: 5_000, max_speed: 10_000 };
    let input = PlayerInput {
        sequence: 1,
        move_backward: true,
        move_right: true,
        look_delta_x: -250,
        look_delta_y: 40,
        ..Default::default()
    };
    w.apply_input(2, &input, &movement);
    let b = w.body(2).unwrap();
    assert_eq!(b.velocity, Vec3::new(5_000_000_000, 0, -5_000_000_000));
    assert_eq!((b.yaw, b.pitch), (-250, 40));
    // Opposite buttons cancel.
    let both = PlayerInput { sequence: 2, move_forward: true, move_backward: true, ..Default::default() };
    w.apply_input(2, &both, &movement);
    assert_eq!(w.body(2).unwrap().velocity.z, 0);
}

#[test]
fn input_for_another_player_changes_nothing() {
    let mut w = world_with_player(2);
    let movement = MovementConfig { move_speed: 5_000, max_speed: 10_000 };
    let input = PlayerInput { sequence: 1, move_forward: true, ..Default::default() };
    w.apply_input(9, &input, &movement);
    assert_eq!(w.body(2).unwrap(), Body::spawn(2));
    assert_eq!(w.body(9), None);
}

#[test]
fn remove_body_drops_only_that_player() {
    let mut w = world_with_player(1);
    w.add_body(Body::spawn(2));
    w.remove_body(1);
    assert_eq!(w.bodies, vec![Body::spawn(2)]);
    let copy = w.duplicate();
    assert_eq!(copy.bodies, w.bodies);
    assert_eq!(copy.time_step, w.time_step);
}

#[test]
fn arithmetic_saturates() {
    assert_eq!(sat_add(i64::MAX, 1), i64::MAX);
    assert_eq!(sat_add(i64::MIN, -1), i64::MIN);
    assert_eq!(sat_add(2, 3), 5);
    assert_eq!(sat_mul(i64::MAX, 2), i64::MAX);
    assert_eq!(sat_mul(i64::MIN, 2), i64::MIN);
    assert_eq!(sat_mul(-4, 5), -20);
    assert_eq!(Vec3::new(1, 2, 3).plus(&Vec3::new(10, 20, 30)), Vec3::new(11, 22, 33));
    assert_eq!(Vec3::new(1, -2, 3).scaled(3), Vec3::new(3, -6, 9));
}
