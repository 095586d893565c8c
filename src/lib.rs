//! A networked kinematic character controller, in fixed-point arithmetic.
//!
//! Every quantity is an integer count of micro-units (micrometres, micrometres
//! per second, microradians, ...), so that the authority and a predicting client
//! that run the same inputs reach bit-identical states.
use vstd::prelude::*;
use crate::character_controller::ControllerAction;
use crate::fixed::{FixedVec2, FixedVec3, normalize_or_zero, normalize_or_zero_exec};
use crate::instant_event_buffer::{InstantEventBuffer, lemma_sent_all_append, lemma_sent_one, sent_all};

pub mod character_controller;
pub mod config;
pub mod fixed;
pub mod game_client;
pub mod game_server;
pub mod instant_event;
pub mod instant_event_buffer;
pub mod network_character_controller;

verus! {

/// Height of the cylinder of a character's capsule.
pub const CHARACTER_HIGHT: i64 = 1_000_000;

/// Clearance kept between a character and the ground.
pub const CHARACTER_OFFSET: i64 = 100_000;

/// Radius of a character's capsule.
pub const CHARACTER_RADIUS: i64 = 500_000;

pub const CHARACTER_SPAWN_X: i64 = 0;

pub const CHARACTER_SPAWN_Y: i64 = 2_000_000;

pub const CHARACTER_SPAWN_Z: i64 = 0;

pub const CHARACTER_LINEAR_SPEED: i64 = 10_000_000;

pub const CHARACTER_ANGULAR_SPEED: i64 = 200_000;

/// Vertical gravity, in micrometres per second squared.
pub const GRAVITY_Y: i64 = -9_810_000;

pub open spec fn spec_spawn_position() -> FixedVec3 {
    FixedVec3 { x: CHARACTER_SPAWN_X, y: CHARACTER_SPAWN_Y, z: CHARACTER_SPAWN_Z }
}

pub open spec fn spec_gravity() -> FixedVec3 {
    FixedVec3 { x: 0, y: GRAVITY_Y, z: 0 }
}

/// Where a newly connected player's character appears.
pub fn character_spawn_position() -> (r: FixedVec3)
    ensures
        r == spec_spawn_position(),
{
    FixedVec3 { x: CHARACTER_SPAWN_X, y: CHARACTER_SPAWN_Y, z: CHARACTER_SPAWN_Z }
}

/// The gravity every character falls under.
pub fn gravity() -> (r: FixedVec3)
    ensures
        r == spec_gravity(),
{
    FixedVec3 { x: 0, y: GRAVITY_Y, z: 0 }
}

/// The identity of a connected peer.
#[derive(Clone, Copy, Debug, PartialEq, Eq, Structural)]
pub struct NetworkId(pub u64);

impl NetworkId {
    pub fn new(client_id: u64) -> (r: NetworkId)
        ensures
            r.0 == client_id,
    {
        NetworkId(client_id)
    }

    pub fn client_id(&self) -> (r: u64)
        ensures
            r == self.0,
    {
        self.0
    }
}

/// Input sampled once per network tick.
#[derive(Clone, Copy, Debug, PartialEq, Eq, Structural)]
pub struct NetworkAction {
    /// Planar move input, each component in `[-UNIT, UNIT]`: `x` right, `y` forward.
    pub linear: FixedVec2,
    /// Look delta accumulated over the tick.
    pub angular: FixedVec2,
    pub jump: bool,
}

impl NetworkAction {
    pub open spec fn spec_idle() -> NetworkAction {
        NetworkAction {
            linear: FixedVec2 { x: 0, y: 0 },
            angular: FixedVec2 { x: 0, y: 0 },
            jump: false,
        }
    }
}

impl Default for NetworkAction {
    fn default() -> (r: NetworkAction)
        ensures
            r == NetworkAction::spec_idle(),
    {
        NetworkAction {
            linear: FixedVec2 { x: 0, y: 0 },
            angular: FixedVec2 { x: 0, y: 0 },
            jump: false,
        }
    }
}

/// The intents a network action asks for: a move along the normalized input
/// unless the input is zero, then a jump if requested.
pub open spec fn controls_of(a: NetworkAction) -> Seq<ControllerAction> {
    let moves = if a.linear.x == 0 && a.linear.y == 0 {
        Seq::<ControllerAction>::empty()
    } else {
        seq![ControllerAction::Move(normalize_or_zero(a.linear))]
    };
    if a.jump {
        moves.push(ControllerAction::Jump)
    } else {
        moves
    }
}

/// Hands the intents of `a`, in order, to a character's buffer.
pub fn send_controls(buffer: &mut InstantEventBuffer<ControllerAction>, a: &NetworkAction)
    ensures
        final(buffer)@ == sent_all(old(buffer)@, controls_of(*a)),
{
    let ghost before = buffer@;
    let ghost moves = if a.linear.x == 0 && a.linear.y == 0 {
        Seq::<ControllerAction>::empty()
    } else {
        seq![ControllerAction::Move(normalize_or_zero(a.linear))]
    };
    let ghost jumps = if a.jump {
        seq![ControllerAction::Jump]
    } else {
        Seq::<ControllerAction>::empty()
    };
    if !a.linear.is_zero() {
        let dir = normalize_or_zero_exec(a.linear);
        buffer.send(ControllerAction::Move(dir));
    }
    proof {
        lemma_sent_one(before, ControllerAction::Move(normalize_or_zero(a.linear)));
    }
    assert(buffer@ == sent_all(before, moves));
    let ghost mid = buffer@;
    if a.jump {
        buffer.send(ControllerAction::Jump);
    }
    proof {
        lemma_sent_one(mid, ControllerAction::Jump);
    }
    proof {
        assert(buffer@ == sent_all(mid, jumps));
        lemma_sent_all_append(before, moves, jumps);
        assert(moves + jumps =~= controls_of(*a));
    }
}

} // verus!
