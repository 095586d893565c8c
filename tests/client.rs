use netcharacon::character_controller::{Acceleration, Capsule, ControllerAction, Gravity, ShapeHit};
use netcharacon::fixed::{FixedVec2, FixedVec3, UNIT};
use netcharacon::game_client::{monitor_connection_system, ClientStatus, GameClientPlugin, KeyboardInput};
use netcharacon::network_character_controller::NetworkCharacterController;
use netcharacon::{gravity, NetworkAction, NetworkId, CHARACTER_HIGHT, CHARACTER_RADIUS};

fn keys(forward: bool, back: bool, left: bool, right: bool, jump: bool) -> KeyboardInput {
    KeyboardInput { forward, back, left, right, jump_just_pressed: jump }
}

fn spawned(id: u64) -> GameClientPlugin {
    let mut c = GameClientPlugin::new(id);
    c.handle_player_spawn(NetworkId::new(id), &NetworkCharacterController::at(FixedVec3::new(0, 2_000_000, 0)));
    c
}

#[test]
fn only_connected_status_is_quiet() {
    assert!(monitor_connection_system(&ClientStatus::Disconnected));
    assert!(monitor_connection_system(&ClientStatus::Connecting));
    assert!(!monitor_connection_system(&ClientStatus::Connected { client_id: Some(3) }));
    assert!(!monitor_connection_system(&ClientStatus::Connected { client_id: None }));
}

#[test]
fn own_spawn_becomes_predicted_and_others_remote() {
    let mut c = spawned(5);
    assert_eq!(c.player, Some(NetworkId(5)));
    assert_eq!(c.predicted.len(), 1);
    assert_eq!(c.predicted[0].controller.position, FixedVec3::new(0, 2_000_000, 0));
    assert_eq!(c.predicted[0].controller.velocity, FixedVec3::zero());
    assert_eq!(c.predicted[0].collider, Capsule { height: CHARACTER_HIGHT, radius: CHARACTER_RADIUS });
    assert_eq!(c.predicted[0].gravity, Gravity(gravity()));
    assert_eq!(c.predicted[0].movement.acceleration, Acceleration(720_000_000));
    assert_eq!(c.actions.len(), 0);
    let other = NetworkCharacterController::at(FixedVec3::new(1, 2, 3));
    c.handle_player_spawn(NetworkId::new(6), &other);
    assert_eq!(c.remotes.len(), 1);
    assert_eq!(c.remotes[0].display, other);
    let moved = NetworkCharacterController { translation: FixedVec3::new(4, 5, 6), yaw: 7, grounded: true };
    c.apply_remote_snapshot(NetworkId::new(6), &moved);
    assert_eq!(c.remotes[0].display, moved);
    assert_eq!(c.predicted.len(), 1);
}

#[test]
fn input_without_own_character_sends_nothing() {
    let mut c = GameClientPlugin::new(1);
    assert_eq!(c.handle_input(&keys(true, false, false, false, false), &Vec::new()), None);
}

#[test]
fn input_is_mirrored_locally_and_sent() {
    let mut c = spawned(1);
    let mouse = vec![FixedVec2::new(3, -1), FixedVec2::new(2, 4)];
    let sent = c.handle_input(&keys(true, false, true, false, true), &mouse);
    let expected = NetworkAction {
        linear: FixedVec2::new(-UNIT, UNIT),
        angular: FixedVec2::new(5, 3),
        jump: true,
    };
    assert_eq!(sent, Some(expected));
    c.handle_action();
    assert_eq!(
        c.predicted[0].controller_action_buffer.read(),
        vec![ControllerAction::Move(FixedVec2::new(-707_107, 707_107)), ControllerAction::Jump]
    );
}

#[test]
fn opposite_keys_cancel() {
    let mut c = spawned(1);
    let sent = c.handle_input(&keys(true, true, true, true, false), &Vec::new()).unwrap();
    assert_eq!(sent.linear, FixedVec2::zero());
    c.handle_action();
    assert_eq!(c.predicted[0].controller_action_buffer.len(), 0);
}

#[test]
fn look_delta_saturates() {
    let mut c = spawned(1);
    let mouse = vec![FixedVec2::new(i64::MAX, 0), FixedVec2::new(10, 0), FixedVec2::new(-5, 0)];
    let sent = c.handle_input(&keys(false, false, false, false, false), &mouse).unwrap();
    assert_eq!(sent.angular.x, i64::MAX - 5);
}

#[test]
fn prediction_snaps_after_persistent_divergence() {
    let mut c = spawned(1);
    let far = NetworkCharacterController { translation: FixedVec3::new(5_000_000, 2_000_000, 0), yaw: 0, grounded: true };
    for _ in 0..9 {
        assert!(!c.reconcile(&far));
    }
    assert_eq!(c.mismatch_count, 9);
    assert_eq!(c.predicted[0].controller.position, FixedVec3::new(0, 2_000_000, 0));
    assert!(c.reconcile(&far));
    assert_eq!(c.mismatch_count, 0);
    assert_eq!(c.predicted[0].controller.position, FixedVec3::new(5_000_000, 2_000_000, 0));
    assert!(c.predicted[0].controller.grounded);
}

#[test]
fn agreeing_tick_resets_mismatch_count() {
    let mut c = spawned(1);
    let far = NetworkCharacterController { translation: FixedVec3::new(0, 2_000_000, 0), yaw: 2_000_000, grounded: false };
    let near = NetworkCharacterController { translation: FixedVec3::new(1_000_000, 2_000_000, 0), yaw: 0, grounded: false };
    assert!(!c.reconcile(&far));
    assert!(!c.reconcile(&far));
    assert_eq!(c.mismatch_count, 2);
    assert!(!c.reconcile(&near));
    assert_eq!(c.mismatch_count, 0);
}

#[test]
fn own_spawn_clears_sampled_actions_and_predicts() {
    let mut c = GameClientPlugin::new(1);
    c.handle_player_spawn(NetworkId::new(1), &NetworkCharacterController::at(FixedVec3::new(0, 2_000_000, 0)));
    c.handle_input(&keys(false, false, false, true, false), &Vec::new());
    c.handle_action();
    let floor = vec![vec![ShapeHit { normal: FixedVec3::new(0, -UNIT, 0) }]];
    c.simulate_substep(&Vec::new(), &floor, 15_625);
    assert_eq!(c.predicted[0].controller.velocity.x, 11_025_000);
    assert!(c.predicted[0].controller.grounded);
    c.advance_prediction(15_625);
    c.settle_prediction(&Vec::new(), &Vec::new());
    assert!(!c.predicted[0].controller.grounded);
}
