//! The replicated snapshot of a character.
use vstd::prelude::*;
use crate::character_controller::CharacterController;
use crate::fixed::FixedVec3;

verus! {

/// What peers see of a character: its position, yaw and grounded state.
#[derive(Clone, Copy, Debug, PartialEq, Eq, Structural)]
pub struct NetworkCharacterController {
    pub translation: FixedVec3,
    pub yaw: i64,
    pub grounded: bool,
}

pub open spec fn spec_snapshot(c: CharacterController) -> NetworkCharacterController {
    NetworkCharacterController { translation: c.position, yaw: c.yaw, grounded: c.grounded }
}

impl NetworkCharacterController {
    /// A snapshot at `translation`, facing yaw zero, airborne.
    pub fn at(translation: FixedVec3) -> (r: NetworkCharacterController)
        ensures
            r == (NetworkCharacterController { translation, yaw: 0, grounded: false }),
    {
        NetworkCharacterController { translation, yaw: 0, grounded: false }
    }
}

/// The snapshot published for a character in state `c`.
pub fn snapshot_of(c: &CharacterController) -> (r: NetworkCharacterController)
    ensures
        r == spec_snapshot(*c),
{
    NetworkCharacterController { translation: c.position, yaw: c.yaw, grounded: c.grounded }
}

} // verus!
