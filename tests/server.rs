use netcharacon::character_controller::{ContactManifold, Contacts, ControllerAction, ShapeHit};
use netcharacon::config::PHYSICS_FIXED_TICK_DELTA;
use netcharacon::fixed::{FixedVec2, FixedVec3, UNIT};
use netcharacon::game_server::{GameServerPlugin, ServerEvent};
use netcharacon::network_character_controller::{snapshot_of, NetworkCharacterController};
use netcharacon::{send_controls, NetworkAction, NetworkId};

const DT: i64 = PHYSICS_FIXED_TICK_DELTA;

fn connect(s: &mut GameServerPlugin, id: u64) {
    s.handle_server_event(&ServerEvent::ClientConnected { client_id: id });
}

fn action(x: i64, y: i64, jump: bool) -> NetworkAction {
    NetworkAction { linear: FixedVec2::new(x, y), angular: FixedVec2::zero(), jump }
}

#[test]
fn connect_spawns_one_character_at_spawn_position() {
    let mut s = GameServerPlugin::new();
    connect(&mut s, 7);
    assert_eq!(s.network_ids, vec![7]);
    assert_eq!(s.characters.len(), 1);
    assert_eq!(s.characters[0].controller.position, FixedVec3::new(0, 2_000_000, 0));
    assert_eq!(s.outputs, vec![NetworkCharacterController::at(FixedVec3::new(0, 2_000_000, 0))]);
    connect(&mut s, 7);
    assert_eq!(s.characters.len(), 1);
    connect(&mut s, 8);
    assert_eq!(s.network_ids, vec![7, 8]);
}

#[test]
fn disconnect_tears_down_the_character() {
    let mut s = GameServerPlugin::new();
    connect(&mut s, 1);
    connect(&mut s, 2);
    connect(&mut s, 3);
    s.handle_server_event(&ServerEvent::ClientDisconnected { client_id: 2 });
    assert_eq!(s.network_ids, vec![1, 3]);
    assert_eq!(s.characters.len(), 2);
    assert_eq!(s.outputs.len(), 2);
    s.handle_server_event(&ServerEvent::ClientDisconnected { client_id: 2 });
    assert_eq!(s.network_ids, vec![1, 3]);
    assert_eq!(s.find_client(3), Some(1));
    assert_eq!(s.find_client(2), None);
}

#[test]
fn action_is_routed_to_its_client_only() {
    let mut s = GameServerPlugin::new();
    connect(&mut s, 1);
    connect(&mut s, 2);
    s.handle_action(2, &action(UNIT, UNIT, true));
    assert_eq!(s.characters[0].controller_action_buffer.len(), 0);
    assert_eq!(
        s.characters[1].controller_action_buffer.read(),
        vec![ControllerAction::Move(FixedVec2::new(707_107, 707_107)), ControllerAction::Jump]
    );
}

#[test]
fn action_from_unknown_client_is_dropped() {
    let mut s = GameServerPlugin::new();
    connect(&mut s, 1);
    s.handle_action(99, &action(UNIT, 0, true));
    assert_eq!(s.characters[0].controller_action_buffer.len(), 0);
}

#[test]
fn idle_action_sends_no_intent() {
    let mut s = GameServerPlugin::new();
    connect(&mut s, 1);
    s.handle_action(1, &action(0, 0, false));
    assert_eq!(s.characters[0].controller_action_buffer.len(), 0);
    let mut b = netcharacon::instant_event_buffer::InstantEventBuffer::new();
    send_controls(&mut b, &action(0, -UNIT, false));
    assert_eq!(b.read(), vec![ControllerAction::Move(FixedVec2::new(0, -UNIT))]);
}

#[test]
fn output_publishes_resolved_pose() {
    let mut s = GameServerPlugin::new();
    connect(&mut s, 1);
    s.characters[0].controller.yaw = 1_500_000;
    s.characters[0].controller.grounded = true;
    s.handle_character_controller_output();
    assert_eq!(
        s.outputs[0],
        NetworkCharacterController { translation: FixedVec3::new(0, 2_000_000, 0), yaw: 1_500_000, grounded: true }
    );
    assert_eq!(s.outputs[0], snapshot_of(&s.characters[0].controller));
}

#[test]
fn spawned_character_moves_forward_after_one_move_tick() {
    let mut s = GameServerPlugin::new();
    connect(&mut s, 1);
    assert_eq!(s.characters[0].controller.position, FixedVec3::new(0, 2_000_000, 0));
    s.characters[0].controller.grounded = true;
    let floor = || vec![vec![ShapeHit { normal: FixedVec3::new(0, -UNIT, 0) }]];
    // One move intent, sampled once for the network tick.
    s.handle_action(1, &action(UNIT, 0, false));
    // The network tick spans several substeps at 64 Hz.
    let mut prev_vx = 0;
    let mut prev_x = 0;
    for k in 0..6 {
        s.simulate_substep(&Vec::new(), &floor(), DT);
        let c = s.characters[0].controller;
        if k == 0 {
            // 720 m/s^2 over 1/64 s gives 11.25 m/s, then one damping pass.
            assert_eq!(c.velocity.x, 11_025_000);
        } else {
            assert!(c.velocity.x < prev_vx);
            assert!(c.velocity.x > 0);
        }
        assert!(c.position.x > prev_x);
        assert!(c.grounded);
        prev_vx = c.velocity.x;
        prev_x = c.position.x;
    }
    assert!(prev_x > 0);
}

#[test]
fn overlapping_characters_separate_by_the_depth() {
    let mut s = GameServerPlugin::new();
    connect(&mut s, 1);
    connect(&mut s, 2);
    s.characters[0].controller.position = FixedVec3::new(0, 2_900_000, 0);
    s.characters[1].controller.position = FixedVec3::new(0, 1_000_000, 0);
    let before0 = s.characters[0].controller.position.y;
    let before1 = s.characters[1].controller.position.y;
    // The first body's collider sinks 0.1 m into the second's, along the vertical.
    let c = Contacts {
        body1: Some(0),
        body2: Some(1),
        during_current_substep: true,
        sensor: false,
        manifolds: vec![ContactManifold {
            normal1: FixedVec3::new(0, -UNIT, 0),
            normal2: FixedVec3::new(0, UNIT, 0),
            penetrations: vec![100_000],
        }],
    };
    netcharacon::character_controller::kinematic_collisions_system(&mut s.characters, &vec![c]);
    let moved0 = s.characters[0].controller.position.y - before0;
    let moved1 = before1 - s.characters[1].controller.position.y;
    assert_eq!(moved0, 100_000);
    assert_eq!(moved1, 0);
    assert!(moved0 + moved1 >= 100_000);
}

#[test]
fn network_id_round_trips() {
    let id = NetworkId::new(42);
    assert_eq!(id.client_id(), 42);
}

#[test]
fn split_substep_matches_whole_substep() {
    let mut a = GameServerPlugin::new();
    let mut b = GameServerPlugin::new();
    for s in [&mut a, &mut b] {
        connect(s, 1);
        s.handle_action(1, &action(UNIT, UNIT, false));
    }
    let floor = vec![vec![ShapeHit { normal: FixedVec3::new(0, -UNIT, 0) }]];
    let push = || {
        vec![Contacts {
            body1: Some(0),
            body2: None,
            during_current_substep: true,
            sensor: false,
            manifolds: vec![ContactManifold {
                normal1: FixedVec3::new(0, -UNIT, 0),
                normal2: FixedVec3::new(0, UNIT, 0),
                penetrations: vec![5_000],
            }],
        }]
    };
    a.simulate_substep(&push(), &floor, DT);
    b.advance_characters(DT);
    b.settle_characters(&push(), &floor);
    assert_eq!(a.characters[0].controller, b.characters[0].controller);
}
