use netcharacon::character_controller::{
    advance_character, apply_gravity_system, apply_movement_damping_system, control_system,
    kinematic_collisions_system, run_substep, update_grounded_system, Acceleration, Capsule,
    CharacterControllerBundle, ContactManifold, Contacts, ControllerAction, DampingFactor,
    JumpImpulse, MaxSlopeAngle, ShapeHit, DEFAULT_MAX_SLOPE_COS, MAX_EXTENT, MAX_SPEED,
};
use netcharacon::config::PHYSICS_FIXED_TICK_DELTA;
use netcharacon::fixed::{integer_sqrt, normalize_or_zero_exec, FixedVec2, FixedVec3, UNIT};
use netcharacon::{gravity, CHARACTER_HIGHT, CHARACTER_RADIUS};

const DT: i64 = PHYSICS_FIXED_TICK_DELTA;

fn capsule() -> Capsule {
    Capsule { height: CHARACTER_HIGHT, radius: CHARACTER_RADIUS }
}

fn body() -> CharacterControllerBundle {
    CharacterControllerBundle::new(capsule(), gravity())
}

fn floor_hit() -> ShapeHit {
    ShapeHit { normal: FixedVec3::new(0, -UNIT, 0) }
}

fn manifold(normal1: FixedVec3, penetrations: Vec<i64>) -> ContactManifold {
    ContactManifold { normal1, normal2: FixedVec3::new(-normal1.x, -normal1.y, -normal1.z), penetrations }
}

fn contact(body1: Option<usize>, body2: Option<usize>, manifolds: Vec<ContactManifold>) -> Contacts {
    Contacts { body1, body2, during_current_substep: true, sensor: false, manifolds }
}

#[test]
fn new_bundle_uses_defaults_and_shrunk_caster() {
    let b = body();
    assert_eq!(b.ground_caster.shape, Capsule { height: 990_000, radius: 495_000 });
    assert_eq!(b.ground_caster.max_distance, 200_000);
    assert_eq!(b.movement.acceleration, Acceleration(720_000_000));
    assert_eq!(b.movement.damping_factor, DampingFactor(980_000));
    assert_eq!(b.movement.jump_impulse, JumpImpulse(9_000_000));
    assert_eq!(b.movement.max_slope_angle, Some(MaxSlopeAngle(DEFAULT_MAX_SLOPE_COS)));
    assert!(!b.controller.grounded);
}

#[test]
fn free_fall_adds_gravity_step_each_substep() {
    let mut b = body().with_translation(FixedVec3::new(0, 2_000_000, 0)).with_grounded(true);
    // -9.81 m/s^2 over 1/64 s, rounded toward zero.
    let step: i64 = -153_281;
    for n in 1..=10i64 {
        advance_character(&mut b, DT);
        assert_eq!(b.controller.velocity, FixedVec3::new(0, n * step, 0));
    }
}

#[test]
fn jump_applies_only_when_grounded() {
    let mut airborne = body();
    airborne.controller_action_buffer.send(ControllerAction::Jump);
    control_system(&mut airborne, DT);
    assert_eq!(airborne.controller.velocity.y, 0);
    assert_eq!(airborne.controller_action_buffer.len(), 0);

    let mut grounded = body().with_grounded(true);
    grounded.controller_action_buffer.send(ControllerAction::Jump);
    control_system(&mut grounded, DT);
    assert_eq!(grounded.controller.velocity.y, 9_000_000);
}

#[test]
fn jump_received_the_substep_the_character_leaves_ground_is_ignored() {
    let mut b = body().with_grounded(true);
    // The ground cast finds nothing: the character has left the ground.
    update_grounded_system(&mut b, &Vec::new());
    assert!(!b.controller.grounded);
    b.controller_action_buffer.send(ControllerAction::Jump);
    advance_character(&mut b, DT);
    assert_eq!(b.controller.velocity.y, -153_281);
}

#[test]
fn move_intents_all_apply_in_order() {
    let mut b = body();
    b.controller_action_buffer.send(ControllerAction::Move(FixedVec2::new(UNIT, 0)));
    b.controller_action_buffer.send(ControllerAction::Move(FixedVec2::new(0, UNIT)));
    b.controller_action_buffer.send(ControllerAction::Move(FixedVec2::new(UNIT, 0)));
    control_system(&mut b, DT);
    // 720 m/s^2 over 1/64 s is 11.25 m/s per intent; forward input moves along -z.
    assert_eq!(b.controller.velocity, FixedVec3::new(22_500_000, 0, -11_250_000));
}

#[test]
fn move_input_beyond_unit_is_clamped() {
    let mut b = body();
    b.controller_action_buffer.send(ControllerAction::Move(FixedVec2::new(5 * UNIT, -3 * UNIT)));
    control_system(&mut b, DT);
    assert_eq!(b.controller.velocity, FixedVec3::new(11_250_000, 0, 11_250_000));
}

#[test]
fn damping_shrinks_without_sign_flip_until_zero() {
    let mut b = body();
    b.controller.velocity = FixedVec3::new(-1_000_000, 0, 500);
    apply_movement_damping_system(&mut b);
    assert_eq!(b.controller.velocity, FixedVec3::new(-980_000, 0, 490));
    let mut prev = b.controller.velocity.x;
    let mut steps = 1;
    while b.controller.velocity.x != 0 {
        apply_movement_damping_system(&mut b);
        let v = b.controller.velocity.x;
        assert!(v <= 0);
        assert!(v.abs() < prev.abs());
        prev = v;
        steps += 1;
        assert!(steps <= 1_000_000);
    }
    assert_eq!(b.controller.velocity.z, 0);
    assert!(steps < 1_000);
}

#[test]
fn damping_snaps_tiny_speed_to_zero() {
    let mut b = body();
    b.controller.velocity = FixedVec3::new(2, 0, -2);
    apply_movement_damping_system(&mut b);
    assert_eq!(b.controller.velocity, FixedVec3::new(0, 0, 0));
}

#[test]
fn gravity_keeps_speed_within_cap() {
    let mut b = body();
    b.controller.velocity = FixedVec3::new(0, -MAX_SPEED, 0);
    apply_gravity_system(&mut b, DT);
    assert_eq!(b.controller.velocity.y, -MAX_SPEED);
}

#[test]
fn positional_correction_moves_by_normal_times_depth() {
    let mut chars = vec![body()];
    let c = contact(Some(0), None, vec![manifold(FixedVec3::new(0, -UNIT, 0), vec![30_000])]);
    kinematic_collisions_system(&mut chars, &vec![c]);
    assert_eq!(chars[0].controller.position, FixedVec3::new(0, 30_000, 0));
}

#[test]
fn each_contact_point_contributes_independently() {
    let mut chars = vec![body()];
    let c = contact(
        None,
        Some(0),
        vec![manifold(FixedVec3::new(UNIT, 0, 0), vec![10_000, -5, 0, 25_000])],
    );
    kinematic_collisions_system(&mut chars, &vec![c]);
    // The character is the second body: its normal is the inverted normal2.
    assert_eq!(chars[0].controller.position, FixedVec3::new(35_000, 0, 0));
}

#[test]
fn diagonal_normal_correction_is_truncated_product() {
    let mut chars = vec![body()];
    let c = contact(Some(0), None, vec![manifold(FixedVec3::new(-707_107, -707_107, 0), vec![100_000])]);
    kinematic_collisions_system(&mut chars, &vec![c]);
    assert_eq!(chars[0].controller.position, FixedVec3::new(70_710, 70_710, 0));
}

#[test]
fn stale_and_sensor_contacts_are_skipped() {
    let mut chars = vec![body()];
    let mut stale = contact(Some(0), None, vec![manifold(FixedVec3::new(0, -UNIT, 0), vec![30_000])]);
    stale.during_current_substep = false;
    let mut sensor = contact(Some(0), None, vec![manifold(FixedVec3::new(0, -UNIT, 0), vec![30_000])]);
    sensor.sensor = true;
    let other = contact(None, Some(4), vec![manifold(FixedVec3::new(0, -UNIT, 0), vec![30_000])]);
    kinematic_collisions_system(&mut chars, &vec![stale, sensor, other]);
    assert_eq!(chars[0].controller.position, FixedVec3::new(0, 0, 0));
}

#[test]
fn walkable_contact_stops_a_fall() {
    let mut chars = vec![body()];
    chars[0].controller.velocity = FixedVec3::new(1_000, -5_000_000, 0);
    let c = contact(Some(0), None, vec![manifold(FixedVec3::new(0, -UNIT, 0), vec![1_000])]);
    kinematic_collisions_system(&mut chars, &vec![c]);
    assert_eq!(chars[0].controller.velocity, FixedVec3::new(1_000, 0, 0));
}

#[test]
fn steep_contact_lets_the_character_slide() {
    let mut chars = vec![body()];
    chars[0].controller.velocity = FixedVec3::new(0, -5_000_000, 0);
    // A wall: the normal is horizontal, 90 degrees from up.
    let c = contact(Some(0), None, vec![manifold(FixedVec3::new(-UNIT, 0, 0), vec![1_000])]);
    kinematic_collisions_system(&mut chars, &vec![c]);
    assert_eq!(chars[0].controller.velocity, FixedVec3::new(0, -5_000_000, 0));
    assert_eq!(chars[0].controller.position, FixedVec3::new(1_000, 0, 0));
}

#[test]
fn rising_character_is_not_clamped_on_walkable_contact() {
    let mut chars = vec![body()];
    chars[0].controller.velocity = FixedVec3::new(0, 3_000_000, 0);
    let c = contact(Some(0), None, vec![manifold(FixedVec3::new(0, -UNIT, 0), vec![1_000])]);
    kinematic_collisions_system(&mut chars, &vec![c]);
    assert_eq!(chars[0].controller.velocity, FixedVec3::new(0, 3_000_000, 0));
}

#[test]
fn grounding_follows_the_slope_limit() {
    let mut b = body();
    update_grounded_system(&mut b, &vec![floor_hit()]);
    assert!(b.controller.grounded);
    // 30 degrees from up: walkable under the default 81 degree limit.
    update_grounded_system(&mut b, &vec![ShapeHit { normal: FixedVec3::new(500_000, -866_025, 0) }]);
    assert!(b.controller.grounded);
    // 85 degrees from up: too steep.
    update_grounded_system(&mut b, &vec![ShapeHit { normal: FixedVec3::new(-996_195, -87_156, 0) }]);
    assert!(!b.controller.grounded);
    // A zero normal is never ground.
    update_grounded_system(&mut b, &vec![ShapeHit { normal: FixedVec3::new(0, 0, 0) }]);
    assert!(!b.controller.grounded);
    update_grounded_system(&mut b, &vec![ShapeHit { normal: FixedVec3::new(0, UNIT, 0) }, floor_hit()]);
    assert!(b.controller.grounded);
}

#[test]
fn without_slope_limit_any_contact_stops_a_fall() {
    let mut chars = vec![body()];
    chars[0].movement.max_slope_angle = None;
    chars[0].controller.velocity = FixedVec3::new(0, -5_000_000, 0);
    // Even a wall counts as walkable without a limit.
    let c = contact(Some(0), None, vec![manifold(FixedVec3::new(-UNIT, 0, 0), vec![1_000])]);
    kinematic_collisions_system(&mut chars, &vec![c]);
    assert_eq!(chars[0].controller.velocity, FixedVec3::new(0, 0, 0));
    assert_eq!(chars[0].controller.position, FixedVec3::new(1_000, 0, 0));
}

#[test]
fn negative_acceleration_is_accepted() {
    let mut b = body().with_movement(Acceleration(-720_000_000), DampingFactor(980_000), JumpImpulse(0), MaxSlopeAngle(0));
    b.controller_action_buffer.send(ControllerAction::Move(FixedVec2::new(UNIT, 0)));
    control_system(&mut b, DT);
    assert_eq!(b.controller.velocity.x, -11_250_000);
}

#[test]
fn without_slope_limit_any_hit_is_ground() {
    let mut b = body();
    b.movement.max_slope_angle = None;
    update_grounded_system(&mut b, &vec![ShapeHit { normal: FixedVec3::new(0, UNIT, 0) }]);
    assert!(b.controller.grounded);
    update_grounded_system(&mut b, &Vec::new());
    assert!(!b.controller.grounded);
}

#[test]
fn with_movement_replaces_parameters() {
    let b = body().with_movement(Acceleration(1), DampingFactor(500_000), JumpImpulse(2), MaxSlopeAngle(0));
    assert_eq!(b.movement.acceleration, Acceleration(1));
    assert_eq!(b.movement.damping_factor, DampingFactor(500_000));
    assert_eq!(b.movement.jump_impulse, JumpImpulse(2));
    assert_eq!(b.movement.max_slope_angle, Some(MaxSlopeAngle(0)));
}

#[test]
fn translation_is_held_to_extent() {
    let b = body().with_translation(FixedVec3::new(i64::MAX, -5, i64::MIN));
    assert_eq!(b.controller.position, FixedVec3::new(MAX_EXTENT, -5, -MAX_EXTENT));
}

#[test]
fn normalize_diagonal_and_zero() {
    assert_eq!(normalize_or_zero_exec(FixedVec2::new(UNIT, UNIT)), FixedVec2::new(707_107, 707_107));
    assert_eq!(normalize_or_zero_exec(FixedVec2::new(-UNIT, 0)), FixedVec2::new(-UNIT, 0));
    assert_eq!(normalize_or_zero_exec(FixedVec2::new(0, 0)), FixedVec2::new(0, 0));
    assert_eq!(normalize_or_zero_exec(FixedVec2::new(3 * UNIT, 0)), FixedVec2::new(UNIT, 0));
    assert_eq!(normalize_or_zero_exec(FixedVec2::new(1, 1)), FixedVec2::new(707_107, 707_107));
    assert_eq!(normalize_or_zero_exec(FixedVec2::new(2, 1)), FixedVec2::new(894_427, 447_213));
    assert_eq!(normalize_or_zero_exec(FixedVec2::new(-3, 7)), FixedVec2::new(-393_919, 919_145));
    assert_eq!(normalize_or_zero_exec(FixedVec2::new(i64::MIN, 0)), FixedVec2::new(-UNIT, 0));
    assert_eq!(integer_sqrt(2_000_000_000_000), 1_414_213);
    assert_eq!(integer_sqrt(0), 0);
    assert_eq!(integer_sqrt(15), 3);
    assert_eq!(integer_sqrt(16), 4);
}

#[test]
fn substep_runs_stages_in_order() {
    let mut chars = vec![body().with_translation(FixedVec3::new(0, 1_000_000, 0)).with_grounded(true)];
    chars[0].controller_action_buffer.send(ControllerAction::Jump);
    let floor = contact(Some(0), None, vec![manifold(FixedVec3::new(0, -UNIT, 0), vec![0])]);
    run_substep(&mut chars, &vec![floor], &vec![vec![floor_hit()]], DT);
    // Jump, then gravity; a rising character is not clamped.
    assert_eq!(chars[0].controller.velocity, FixedVec3::new(0, 9_000_000 - 153_281, 0));
    // Position moved by velocity over 1/64 s.
    assert_eq!(chars[0].controller.position, FixedVec3::new(0, 1_000_000 + 138_229, 0));
    assert!(chars[0].controller.grounded);
    // A character with no hit entry is not grounded.
    run_substep(&mut chars, &Vec::new(), &Vec::new(), DT);
    assert!(!chars[0].controller.grounded);
}
