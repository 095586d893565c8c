//! The authority: one simulated character per connected client.
use vstd::prelude::*;
use crate::character_controller::{
    CharacterController, CharacterControllerBundle, Capsule, Contacts,
    ControllerAction, GroundCaster, Gravity, MovementBundle, ShapeHit, GROUND_CAST_DISTANCE,
    GROUND_CAST_SCALE, advance_characters, advance_controller, all_wf, classify, controllers,
    resolve_contacts, resting_controller, run_substep, scaled_capsule, settle_characters, slopes,
    substep,
};
use crate::fixed::FixedVec3;
use crate::instant_event_buffer::sent_all;
use crate::network_character_controller::{NetworkCharacterController, snapshot_of, spec_snapshot};
use crate::{
    CHARACTER_HIGHT, CHARACTER_RADIUS, NetworkAction, character_spawn_position, controls_of,
    gravity, send_controls, spec_gravity, spec_spawn_position,
};

verus! {

/// A change of a client's connection.
#[derive(Clone, Copy, Debug, PartialEq, Eq, Structural)]
pub enum ServerEvent {
    ClientConnected { client_id: u64 },
    ClientDisconnected { client_id: u64 },
}

/// The server's world: for each connected client, in order of connection, its
/// identity, its character and the snapshot last published for it.
pub struct GameServerPlugin {
    pub network_ids: Vec<u64>,
    pub characters: Vec<CharacterControllerBundle>,
    pub outputs: Vec<NetworkCharacterController>,
}

/// Some entry of `ids` is `id`.
pub open spec fn has_client(ids: Seq<u64>, id: u64) -> bool {
    exists|i: int| 0 <= i < ids.len() && ids[i] == id
}

/// The capsule of every player character.
pub open spec fn character_capsule() -> Capsule {
    Capsule { height: CHARACTER_HIGHT, radius: CHARACTER_RADIUS }
}

/// `b` is a freshly spawned player character at the spawn position.
pub open spec fn is_spawned(b: CharacterControllerBundle) -> bool {
    is_player_character(b, spec_spawn_position(), 0)
}

/// `b` is a player character at rest at `position`, facing `yaw`, airborne, with
/// no intent waiting and the player capsule, gravity and movement parameters.
pub open spec fn is_player_character(b: CharacterControllerBundle, position: FixedVec3, yaw: i64) -> bool {
    &&& b.controller == CharacterController { position, yaw, ..resting_controller() }
    &&& b.controller_action_buffer@ == Seq::<ControllerAction>::empty()
    &&& b.collider == character_capsule()
    &&& b.ground_caster == GroundCaster {
        shape: scaled_capsule(character_capsule(), GROUND_CAST_SCALE as int),
        max_distance: GROUND_CAST_DISTANCE,
    }
    &&& b.gravity == Gravity(spec_gravity())
    &&& b.movement == MovementBundle::spec_default()
}

impl GameServerPlugin {
    /// The three lists run in parallel, the identities are distinct and every
    /// character is well formed.
    pub open spec fn wf(&self) -> bool {
        &&& self.characters@.len() == self.network_ids@.len()
        &&& self.outputs@.len() == self.network_ids@.len()
        &&& all_wf(self.characters@)
        &&& forall|i: int, j: int|
            0 <= i < j < self.network_ids@.len() ==> self.network_ids@[i] != self.network_ids@[j]
    }

    /// A server with no client.
    pub fn new() -> (r: GameServerPlugin)
        ensures
            r.wf(),
            r.network_ids@.len() == 0,
    {
        GameServerPlugin { network_ids: Vec::new(), characters: Vec::new(), outputs: Vec::new() }
    }

    /// The position of `client_id` among the connected clients.
    pub fn find_client(&self, client_id: u64) -> (r: Option<usize>)
        ensures
            match r {
                Some(i) => i < self.network_ids@.len() && self.network_ids@[i as int] == client_id,
                None => !has_client(self.network_ids@, client_id),
            },
    {
        let mut i: usize = 0;
        while i < self.network_ids.len()
            invariant
                0 <= i <= self.network_ids@.len(),
                forall|j: int| 0 <= j < i ==> self.network_ids@[j] != client_id,
            decreases self.network_ids@.len() - i,
        {
            if self.network_ids[i] == client_id {
                return Some(i);
            }
            i = i + 1;
        }
        None
    }

    /// Spawns a character for a client that connects, unless it has one; tears
    /// down the character of a client that disconnects.
    pub fn handle_server_event(&mut self, e: &ServerEvent)
        requires
            old(self).wf(),
        ensures
            final(self).wf(),
            match *e {
                ServerEvent::ClientConnected { client_id } => if has_client(
                    old(self).network_ids@,
                    client_id,
                ) {
                    final(self).network_ids@ == old(self).network_ids@
                        && final(self).characters@ == old(self).characters@
                        && final(self).outputs@ == old(self).outputs@
                } else {
                    &&& final(self).network_ids@ == old(self).network_ids@.push(client_id)
                    &&& final(self).characters@.len() == old(self).characters@.len() + 1
                    &&& final(self).characters@.drop_last() == old(self).characters@
                    &&& is_spawned(final(self).characters@.last())
                    &&& final(self).outputs@ == old(self).outputs@.push(
                        NetworkCharacterController {
                            translation: spec_spawn_position(),
                            yaw: 0,
                            grounded: false,
                        },
                    )
                },
                ServerEvent::ClientDisconnected { client_id } => if has_client(
                    old(self).network_ids@,
                    client_id,
                ) {
                    exists|i: int|
                        0 <= i < old(self).network_ids@.len() && old(self).network_ids@[i]
                            == client_id && final(self).network_ids@
                            == old(self).network_ids@.remove(i) && final(self).characters@
                            == old(self).characters@.remove(i) && final(self).outputs@
                            == old(self).outputs@.remove(i)
                } else {
                    final(self).network_ids@ == old(self).network_ids@
                        && final(self).characters@ == old(self).characters@
                        && final(self).outputs@ == old(self).outputs@
                },
            },
    {
        match *e {
            ServerEvent::ClientConnected { client_id } => {
                if self.find_client(client_id).is_none() {
                    let spawn = character_spawn_position();
                    let body = CharacterControllerBundle::new(
                        Capsule { height: CHARACTER_HIGHT, radius: CHARACTER_RADIUS },
                        gravity(),
                    ).with_translation(spawn);
                    let ghost before = self.characters@;
                    self.network_ids.push(client_id);
                    self.characters.push(body);
                    self.outputs.push(NetworkCharacterController::at(spawn));
                    proof {
                        assert(self.characters@.drop_last() =~= before);
                        assert forall|i: int| 0 <= i < self.characters@.len() implies
                            (#[trigger] self.characters@[i]).wf() by {
                            if i < before.len() {
                                assert(self.characters@[i] == before[i]);
                            }
                        }
                    }
                }
            },
            ServerEvent::ClientDisconnected { client_id } => {
                match self.find_client(client_id) {
                    Some(i) => {
                        let ghost ids = self.network_ids@;
                        let ghost chars = self.characters@;
                        self.network_ids.remove(i);
                        self.characters.remove(i);
                        self.outputs.remove(i);
                        proof {
                            assert forall|a: int| 0 <= a < self.characters@.len() implies
                                (#[trigger] self.characters@[a]).wf() by {
                                if a < i {
                                    assert(self.characters@[a] == chars[a]);
                                } else {
                                    assert(self.characters@[a] == chars[a + 1]);
                                }
                            }
                            assert forall|a: int, b: int|
                                0 <= a < b < self.network_ids@.len() implies self.network_ids@[a]
                                != self.network_ids@[b] by {
                                let a2 = if a < i { a } else { a + 1 };
                                let b2 = if b < i { b } else { b + 1 };
                                assert(self.network_ids@[a] == ids[a2]);
                                assert(self.network_ids@[b] == ids[b2]);
                            }
                        }
                    },
                    None => {},
                }
            },
        }
    }

    /// Routes the action of `client_id` into its character's intent buffer; an
    /// action from a client with no character is dropped.
    pub fn handle_action(&mut self, client_id: u64, action: &NetworkAction)
        requires
            old(self).wf(),
        ensures
            final(self).wf(),
            final(self).network_ids@ == old(self).network_ids@,
            final(self).outputs@ == old(self).outputs@,
            final(self).characters@.len() == old(self).characters@.len(),
            forall|i: int|
                0 <= i < old(self).characters@.len() ==> {
                    let b = #[trigger] final(self).characters@[i];
                    let a = old(self).characters@[i];
                    &&& b.controller == a.controller
                    &&& b.collider == a.collider
                    &&& b.ground_caster == a.ground_caster
                    &&& b.gravity == a.gravity
                    &&& b.movement == a.movement
                    &&& b.controller_action_buffer@ == if old(self).network_ids@[i] == client_id {
                        sent_all(a.controller_action_buffer@, controls_of(*action))
                    } else {
                        a.controller_action_buffer@
                    }
                },
    {
        match self.find_client(client_id) {
            Some(i) => {
                let ghost chars = self.characters@;
                send_controls(&mut self.characters[i].controller_action_buffer, action);
                proof {
                    assert forall|j: int| 0 <= j < self.characters@.len() implies
                        (#[trigger] self.characters@[j]).wf() by {
                        assert(chars[j].wf());
                    }
                    assert forall|j: int| 0 <= j < chars.len() && j != i implies
                        self.network_ids@[j] != client_id by {
                    }
                }
            },
            None => {},
        }
    }

    /// Publishes every character's resolved position, yaw and grounded state.
    pub fn handle_character_controller_output(&mut self)
        requires
            old(self).wf(),
        ensures
            final(self).wf(),
            final(self).network_ids@ == old(self).network_ids@,
            final(self).characters@ == old(self).characters@,
            final(self).outputs@ == Seq::new(
                old(self).characters@.len(),
                |i: int| spec_snapshot(old(self).characters@[i].controller),
            ),
    {
        let mut i: usize = 0;
        while i < self.outputs.len()
            invariant
                0 <= i <= self.outputs@.len(),
                self.wf(),
                self.network_ids@ == old(self).network_ids@,
                self.characters@ == old(self).characters@,
                self.outputs@.len() == old(self).outputs@.len(),
                forall|j: int|
                    0 <= j < i ==> #[trigger] self.outputs@[j] == spec_snapshot(
                        self.characters@[j].controller,
                    ),
            decreases self.outputs@.len() - i,
        {
            let snap = snapshot_of(&self.characters[i].controller);
            self.outputs.set(i, snap);
            i = i + 1;
        }
        assert(self.outputs@ =~= Seq::new(
            old(self).characters@.len(),
            |i: int| spec_snapshot(old(self).characters@[i].controller),
        ));
    }

    /// Runs one physics substep over every character.
    pub fn simulate_substep(
        &mut self,
        collisions: &Vec<Contacts>,
        hits: &Vec<Vec<ShapeHit>>,
        delta: i64,
    )
        requires
            old(self).wf(),
            delta >= 0,
        ensures
            final(self).wf(),
            final(self).network_ids@ == old(self).network_ids@,
            final(self).outputs@ == old(self).outputs@,
            final(self).characters@.len() == old(self).characters@.len(),
            controllers(final(self).characters@) == substep(
                old(self).characters@,
                collisions@,
                hits@,
                delta as int,
            ),
    {
        run_substep(&mut self.characters, collisions, hits, delta);
    }

    /// Runs, for every character, the stages of a substep that precede the
    /// contact pass.
    pub fn advance_characters(&mut self, delta: i64)
        requires
            old(self).wf(),
            delta >= 0,
        ensures
            final(self).wf(),
            final(self).network_ids@ == old(self).network_ids@,
            final(self).outputs@ == old(self).outputs@,
            final(self).characters@.len() == old(self).characters@.len(),
            controllers(final(self).characters@) == Seq::new(
                old(self).characters@.len(),
                |i: int| advance_controller(old(self).characters@[i], delta as int),
            ),
    {
        advance_characters(&mut self.characters, delta);
    }

    /// Runs, for every character, the stages of a substep that follow the contact
    /// pass: collision correction, then grounding.
    pub fn settle_characters(&mut self, collisions: &Vec<Contacts>, hits: &Vec<Vec<ShapeHit>>)
        requires
            old(self).wf(),
        ensures
            final(self).wf(),
            final(self).network_ids@ == old(self).network_ids@,
            final(self).outputs@ == old(self).outputs@,
            final(self).characters@.len() == old(self).characters@.len(),
            controllers(final(self).characters@) == classify(
                resolve_contacts(
                    controllers(old(self).characters@),
                    slopes(old(self).characters@),
                    collisions@,
                ),
                slopes(old(self).characters@),
                hits@,
            ),
    {
        settle_characters(&mut self.characters, collisions, hits);
    }
}

} // verus!
