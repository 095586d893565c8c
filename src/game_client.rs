//! The predicting client: it mirrors sampled input into the outgoing message and
//! into its own character, and corrects its prediction against the authority.
use vstd::prelude::*;
use crate::character_controller::{
    CharacterController, CharacterControllerBundle, Capsule, Contacts, ControllerAction,
    MAX_EXTENT, ShapeHit, advance_characters, advance_controller, all_wf, classify, controllers,
    resolve_contacts, run_substep, settle_characters, slopes, substep,
};
use crate::config::{
    PREDICTION_ERROR_COUNT_THRESHOLD, ROTATION_ERROR_THRESHOLD, TRANSLATION_ERROR_THRESHOLD,
};
use crate::fixed::{FixedVec2, FixedVec3, UNIT, abs, clamp, clamp_to, lemma_mul_abs_bound};
use crate::instant_event_buffer::{
    InstantEventBuffer, MAX_BUFFERED_EVENTS, keep_last, lemma_sent_all_append, sent_all,
};
use crate::game_server::is_player_character;
use crate::network_character_controller::NetworkCharacterController;
use crate::{
    CHARACTER_HIGHT, CHARACTER_RADIUS, NetworkAction, NetworkId, controls_of, gravity,
    send_controls,
};

verus! {

/// The state of the connection to the server.
#[derive(Clone, Copy, Debug, PartialEq, Eq, Structural)]
pub enum ClientStatus {
    Disconnected,
    Connecting,
    Connected { client_id: Option<u64> },
}

/// The keys held, and the jump key pressed, during one network tick.
#[derive(Clone, Copy, Debug, PartialEq, Eq, Structural)]
pub struct KeyboardInput {
    pub forward: bool,
    pub back: bool,
    pub left: bool,
    pub right: bool,
    pub jump_just_pressed: bool,
}

/// A character of another player, shown as its last published snapshot.
#[derive(Clone, Copy, Debug, PartialEq, Eq, Structural)]
pub struct RemotePlayer {
    pub network_id: NetworkId,
    pub display: NetworkCharacterController,
}

/// The client's world.
pub struct GameClientPlugin {
    /// This client's identity.
    pub client_id: u64,
    /// This client's own character, once spawned.
    pub player: Option<NetworkId>,
    /// Actions sampled for the own character, not yet turned into intents.
    pub actions: InstantEventBuffer<NetworkAction>,
    /// The locally simulated characters: the own character once spawned.
    pub predicted: Vec<CharacterControllerBundle>,
    pub remotes: Vec<RemotePlayer>,
    /// Consecutive ticks on which the prediction diverged from the authority.
    pub mismatch_count: u32,
}

/// Whether a status is worth reporting: any status but connected.
pub fn monitor_connection_system(status: &ClientStatus) -> (r: bool)
    ensures
        r == !(*status is Connected),
{
    match status {
        ClientStatus::Connected { .. } => false,
        _ => true,
    }
}

/// The planar input of the held keys: forward and back along `y`, right and
/// left along `x`, each adding or removing one full unit.
pub open spec fn linear_of(keys: KeyboardInput) -> FixedVec2 {
    FixedVec2 {
        x: ((if keys.right { UNIT as int } else { 0 }) - (if keys.left { UNIT as int } else { 0 })) as i64,
        y: ((if keys.forward { UNIT as int } else { 0 }) - (if keys.back { UNIT as int } else { 0 })) as i64,
    }
}

/// The sum of `deltas`, each partial sum held to `[-i64::MAX, i64::MAX]`.
pub open spec fn look_sum(deltas: Seq<FixedVec2>) -> FixedVec2
    decreases deltas.len(),
{
    if deltas.len() == 0 {
        FixedVec2 { x: 0, y: 0 }
    } else {
        let s = look_sum(deltas.drop_last());
        FixedVec2 {
            x: clamp(s.x + deltas.last().x, i64::MAX as int) as i64,
            y: clamp(s.y + deltas.last().y, i64::MAX as int) as i64,
        }
    }
}

/// The action sampled from `keys` and the look deltas `mouse` of one tick.
pub open spec fn action_of(keys: KeyboardInput, mouse: Seq<FixedVec2>) -> NetworkAction {
    NetworkAction { linear: linear_of(keys), angular: look_sum(mouse), jump: keys.jump_just_pressed }
}

/// The intents of `actions`, in order.
pub open spec fn controls_of_all(actions: Seq<NetworkAction>) -> Seq<ControllerAction>
    decreases actions.len(),
{
    if actions.len() == 0 {
        Seq::<ControllerAction>::empty()
    } else {
        controls_of_all(actions.drop_last()) + controls_of(actions.last())
    }
}

/// The prediction `c` is off from the snapshot `a` by more than the thresholds.
pub open spec fn diverges(c: CharacterController, a: NetworkCharacterController) -> bool {
    let dx = c.position.x - a.translation.x;
    let dy = c.position.y - a.translation.y;
    let dz = c.position.z - a.translation.z;
    ||| dx * dx + dy * dy + dz * dz > TRANSLATION_ERROR_THRESHOLD * TRANSLATION_ERROR_THRESHOLD
    ||| abs(c.yaw - a.yaw) > ROTATION_ERROR_THRESHOLD
}

/// `c` snapped to the snapshot `a`, its position held to the simulated extent.
pub open spec fn snapped(c: CharacterController, a: NetworkCharacterController) -> CharacterController {
    CharacterController {
        position: FixedVec3 {
            x: clamp(a.translation.x as int, MAX_EXTENT as int) as i64,
            y: clamp(a.translation.y as int, MAX_EXTENT as int) as i64,
            z: clamp(a.translation.z as int, MAX_EXTENT as int) as i64,
        },
        yaw: a.yaw,
        grounded: a.grounded,
        ..c
    }
}

fn square_distance_exceeds(c: &CharacterController, a: &NetworkCharacterController) -> (r: bool)
    requires
        c.wf(),
    ensures
        r == diverges(*c, *a),
{
    let dx: i128 = c.position.x as i128 - a.translation.x as i128;
    let dy: i128 = c.position.y as i128 - a.translation.y as i128;
    let dz: i128 = c.position.z as i128 - a.translation.z as i128;
    let t: i128 = TRANSLATION_ERROR_THRESHOLD as i128;
    let far = if dx > t || dx < -t || dy > t || dy < -t || dz > t || dz < -t {
        proof {
            assert(dx * dx + dy * dy + dz * dz > t * t) by (nonlinear_arith)
                requires
                    dx > t || dx < -t || dy > t || dy < -t || dz > t || dz < -t,
                    t > 0,
            ;
        }
        true
    } else {
        proof {
            lemma_mul_abs_bound(dx as int, dx as int, t as int, t as int);
            lemma_mul_abs_bound(dy as int, dy as int, t as int, t as int);
            lemma_mul_abs_bound(dz as int, dz as int, t as int, t as int);
        }
        dx * dx + dy * dy + dz * dz > t * t
    };
    let dyaw: i128 = c.yaw as i128 - a.yaw as i128;
    let turned = dyaw > ROTATION_ERROR_THRESHOLD as i128 || dyaw < -(ROTATION_ERROR_THRESHOLD as i128);
    far || turned
}

impl GameClientPlugin {
    /// A spawned own character is the one simulated character; before that there
    /// is none. The mismatch count stays below its threshold.
    pub open spec fn wf(&self) -> bool {
        &&& self.predicted@.len() == (if self.player is Some { 1int } else { 0int })
        &&& all_wf(self.predicted@)
        &&& self.mismatch_count < PREDICTION_ERROR_COUNT_THRESHOLD
    }

    /// A client with identity `client_id`, before any character is spawned.
    pub fn new(client_id: u64) -> (r: GameClientPlugin)
        ensures
            r.wf(),
            r.client_id == client_id,
            r.player is None,
            r.actions@ == Seq::<NetworkAction>::empty(),
            r.remotes@ == Seq::<RemotePlayer>::empty(),
            r.mismatch_count == 0,
    {
        GameClientPlugin {
            client_id,
            player: None,
            actions: InstantEventBuffer::new(),
            predicted: Vec::new(),
            remotes: Vec::new(),
            mismatch_count: 0,
        }
    }

    /// A replicated character appears: this client's own one becomes a predicted
    /// character placed at the snapshot; any other is shown as a remote player.
    pub fn handle_player_spawn(&mut self, network_id: NetworkId, snapshot: &NetworkCharacterController)
        requires
            old(self).wf(),
        ensures
            final(self).wf(),
            final(self).client_id == old(self).client_id,
            final(self).mismatch_count == old(self).mismatch_count,
            !(network_id.0 == old(self).client_id && old(self).player is None)
                ==> final(self).actions@ == old(self).actions@,
            if network_id.0 == old(self).client_id && old(self).player is None {
                &&& final(self).player == Some(network_id)
                &&& final(self).predicted@.len() == 1
                &&& is_player_character(
                    final(self).predicted@[0],
                    FixedVec3 {
                        x: clamp(snapshot.translation.x as int, MAX_EXTENT as int) as i64,
                        y: clamp(snapshot.translation.y as int, MAX_EXTENT as int) as i64,
                        z: clamp(snapshot.translation.z as int, MAX_EXTENT as int) as i64,
                    },
                    snapshot.yaw,
                )
                &&& final(self).actions@ == Seq::<NetworkAction>::empty()
                &&& final(self).remotes@ == old(self).remotes@
            } else if network_id.0 == old(self).client_id {
                &&& final(self).player == old(self).player
                &&& final(self).predicted@ == old(self).predicted@
                &&& final(self).remotes@ == old(self).remotes@
            } else {
                &&& final(self).player == old(self).player
                &&& final(self).predicted@ == old(self).predicted@
                &&& final(self).remotes@ == old(self).remotes@.push(
                    RemotePlayer { network_id, display: *snapshot },
                )
            },
    {
        if network_id.client_id() == self.client_id {
            if self.player.is_none() {
                let mut body = CharacterControllerBundle::new(
                    Capsule { height: CHARACTER_HIGHT, radius: CHARACTER_RADIUS },
                    gravity(),
                ).with_translation(snapshot.translation);
                body.controller.yaw = snapshot.yaw;
                self.actions = InstantEventBuffer::new();
                self.predicted = Vec::new();
                self.predicted.push(body);
                self.player = Some(network_id);
            }
        } else {
            self.remotes.push(RemotePlayer { network_id, display: *snapshot });
        }
    }

    /// Shows the latest published snapshot of another player.
    pub fn apply_remote_snapshot(&mut self, network_id: NetworkId, snapshot: &NetworkCharacterController)
        requires
            old(self).wf(),
        ensures
            final(self).wf(),
            final(self).client_id == old(self).client_id,
            final(self).player == old(self).player,
            final(self).actions@ == old(self).actions@,
            final(self).predicted@ == old(self).predicted@,
            final(self).mismatch_count == old(self).mismatch_count,
            final(self).remotes@.len() == old(self).remotes@.len(),
            forall|i: int|
                0 <= i < old(self).remotes@.len() ==> #[trigger] final(self).remotes@[i] == if old(
                    self,
                ).remotes@[i].network_id == network_id {
                    RemotePlayer { network_id, display: *snapshot }
                } else {
                    old(self).remotes@[i]
                },
    {
        let mut i: usize = 0;
        while i < self.remotes.len()
            invariant
                0 <= i <= self.remotes@.len(),
                self.wf(),
                self.client_id == old(self).client_id,
                self.player == old(self).player,
                self.actions@ == old(self).actions@,
                self.predicted@ == old(self).predicted@,
                self.mismatch_count == old(self).mismatch_count,
                self.remotes@.len() == old(self).remotes@.len(),
                forall|j: int|
                    0 <= j < i ==> #[trigger] self.remotes@[j] == if old(self).remotes@[j].network_id
                        == network_id {
                        RemotePlayer { network_id, display: *snapshot }
                    } else {
                        old(self).remotes@[j]
                    },
                forall|j: int| i <= j < self.remotes@.len() ==> #[trigger] self.remotes@[j] == old(
                    self,
                ).remotes@[j],
            decreases self.remotes@.len() - i,
        {
            if self.remotes[i].network_id == network_id {
                self.remotes.set(i, RemotePlayer { network_id, display: *snapshot });
            }
            i = i + 1;
        }
    }

    /// Samples one tick of input. With an own character the action is kept for
    /// local prediction and handed back for sending to the server; without one
    /// nothing is sampled.
    pub fn handle_input(&mut self, keys: &KeyboardInput, mouse: &Vec<FixedVec2>) -> (r: Option<NetworkAction>)
        requires
            old(self).wf(),
        ensures
            final(self).wf(),
            final(self).client_id == old(self).client_id,
            final(self).player == old(self).player,
            final(self).predicted@ == old(self).predicted@,
            final(self).remotes@ == old(self).remotes@,
            final(self).mismatch_count == old(self).mismatch_count,
            old(self).player is None ==> r is None && final(self).actions@ == old(self).actions@,
            old(self).player is Some ==> r == Some(action_of(*keys, mouse@))
                && final(self).actions@ == keep_last(
                old(self).actions@.push(action_of(*keys, mouse@)),
                MAX_BUFFERED_EVENTS as int,
            ),
    {
        if self.player.is_none() {
            return None;
        }
        let mut x: i64 = 0;
        let mut y: i64 = 0;
        if keys.forward {
            y = y + UNIT;
        }
        if keys.back {
            y = y - UNIT;
        }
        if keys.right {
            x = x + UNIT;
        }
        if keys.left {
            x = x - UNIT;
        }
        let mut look = FixedVec2 { x: 0, y: 0 };
        let mut i: usize = 0;
        while i < mouse.len()
            invariant
                0 <= i <= mouse@.len(),
                look == look_sum(mouse@.subrange(0, i as int)),
            decreases mouse@.len() - i,
        {
            let d = mouse[i];
            look = FixedVec2 {
                x: clamp_to(look.x as i128 + d.x as i128, i64::MAX),
                y: clamp_to(look.y as i128 + d.y as i128, i64::MAX),
            };
            proof {
                assert(mouse@.subrange(0, i + 1).drop_last() =~= mouse@.subrange(0, i as int));
            }
            i = i + 1;
        }
        proof {
            assert(mouse@.subrange(0, i as int) =~= mouse@);
        }
        let action = NetworkAction {
            linear: FixedVec2 { x, y },
            angular: look,
            jump: keys.jump_just_pressed,
        };
        self.actions.send(action);
        Some(action)
    }

    /// Turns the sampled actions, in order, into intents of the own character.
    pub fn handle_action(&mut self)
        requires
            old(self).wf(),
        ensures
            final(self).wf(),
            final(self).client_id == old(self).client_id,
            final(self).player == old(self).player,
            final(self).remotes@ == old(self).remotes@,
            final(self).mismatch_count == old(self).mismatch_count,
            old(self).player is None ==> final(self).actions@ == old(self).actions@
                && final(self).predicted@ == old(self).predicted@,
            old(self).player is Some ==> {
                let a = old(self).predicted@[0];
                let b = final(self).predicted@[0];
                &&& final(self).actions@ == Seq::<NetworkAction>::empty()
                &&& final(self).predicted@.len() == 1
                &&& b.controller_action_buffer@ == sent_all(
                    a.controller_action_buffer@,
                    controls_of_all(old(self).actions@),
                )
                &&& b.controller == a.controller
                &&& b.collider == a.collider
                &&& b.ground_caster == a.ground_caster
                &&& b.gravity == a.gravity
                &&& b.movement == a.movement
            },
    {
        if self.player.is_none() {
            return;
        }
        let actions = self.actions.read();
        let ghost start = self.predicted@[0];
        let mut i: usize = 0;
        while i < actions.len()
            invariant
                0 <= i <= actions@.len(),
                self.client_id == old(self).client_id,
                self.player == old(self).player,
                self.remotes@ == old(self).remotes@,
                self.mismatch_count == old(self).mismatch_count,
                self.actions@ == Seq::<NetworkAction>::empty(),
                self.player is Some,
                self.predicted@.len() == 1,
                self.mismatch_count < PREDICTION_ERROR_COUNT_THRESHOLD,
                self.predicted@[0].controller == start.controller,
                self.predicted@[0].collider == start.collider,
                self.predicted@[0].ground_caster == start.ground_caster,
                self.predicted@[0].gravity == start.gravity,
                self.predicted@[0].movement == start.movement,
                start.wf(),
                self.predicted@[0].controller_action_buffer@ == sent_all(
                    start.controller_action_buffer@,
                    controls_of_all(actions@.subrange(0, i as int)),
                ),
            decreases actions@.len() - i,
        {
            let ghost before = self.predicted@[0].controller_action_buffer@;
            send_controls(&mut self.predicted[0].controller_action_buffer, &actions[i]);
            proof {
                let pre = actions@.subrange(0, i as int);
                let next = actions@.subrange(0, i + 1);
                assert(next.drop_last() =~= pre);
                lemma_sent_all_append(
                    start.controller_action_buffer@,
                    controls_of_all(pre),
                    controls_of(actions@[i as int]),
                );
            }
            i = i + 1;
        }
        proof {
            assert(actions@.subrange(0, i as int) =~= actions@);
        }
    }

    /// Compares the own character with the snapshot the authority published for
    /// it. A tick that diverges beyond the thresholds adds to the mismatch count, any
    /// other resets it; once `PREDICTION_ERROR_COUNT_THRESHOLD` ticks in a row have
    /// diverged, the prediction snaps to the snapshot and the result is `true`.
    pub fn reconcile(&mut self, authority: &NetworkCharacterController) -> (r: bool)
        requires
            old(self).wf(),
        ensures
            final(self).wf(),
            final(self).client_id == old(self).client_id,
            final(self).player == old(self).player,
            final(self).actions@ == old(self).actions@,
            final(self).remotes@ == old(self).remotes@,
            final(self).predicted@.len() == old(self).predicted@.len(),
            old(self).player is None ==> !r && final(self).predicted@ == old(self).predicted@
                && final(self).mismatch_count == old(self).mismatch_count,
            old(self).player is Some ==> {
                let a = old(self).predicted@[0];
                let b = final(self).predicted@[0];
                let diverged = diverges(a.controller, *authority);
                let snap = diverged && old(self).mismatch_count + 1 >= PREDICTION_ERROR_COUNT_THRESHOLD;
                &&& r == snap
                &&& final(self).mismatch_count == if diverged && !snap {
                    old(self).mismatch_count + 1
                } else {
                    0
                }
                &&& b.controller == if snap {
                    snapped(a.controller, *authority)
                } else {
                    a.controller
                }
                &&& b.controller_action_buffer@ == a.controller_action_buffer@
                &&& b.collider == a.collider
                &&& b.ground_caster == a.ground_caster
                &&& b.gravity == a.gravity
                &&& b.movement == a.movement
            },
    {
        if self.player.is_none() {
            return false;
        }
        proof {
            assert(self.predicted@[0].wf());
        }
        let diverged = square_distance_exceeds(&self.predicted[0].controller, authority);
        if !diverged {
            self.mismatch_count = 0;
            return false;
        }
        if self.mismatch_count + 1 >= PREDICTION_ERROR_COUNT_THRESHOLD {
            self.predicted[0].controller.position = FixedVec3 {
                x: clamp_to(authority.translation.x as i128, MAX_EXTENT),
                y: clamp_to(authority.translation.y as i128, MAX_EXTENT),
                z: clamp_to(authority.translation.z as i128, MAX_EXTENT),
            };
            self.predicted[0].controller.yaw = authority.yaw;
            self.predicted[0].controller.grounded = authority.grounded;
            self.mismatch_count = 0;
            true
        } else {
            self.mismatch_count = self.mismatch_count + 1;
            false
        }
    }

    /// Runs one physics substep over the locally predicted character.
    pub fn simulate_substep(
        &mut self,
        collisions: &Vec<Contacts>,
        hits: &Vec<Vec<ShapeHit>>,
        delta: i64,
    )
        requires
            old(self).wf(),
            delta >= 0,
        ensures
            final(self).wf(),
            final(self).client_id == old(self).client_id,
            final(self).player == old(self).player,
            final(self).actions@ == old(self).actions@,
            final(self).remotes@ == old(self).remotes@,
            final(self).mismatch_count == old(self).mismatch_count,
            final(self).predicted@.len() == old(self).predicted@.len(),
            controllers(final(self).predicted@) == substep(
                old(self).predicted@,
                collisions@,
                hits@,
                delta as int,
            ),
    {
        run_substep(&mut self.predicted, collisions, hits, delta);
    }

    /// Runs the stages of a substep that precede the contact pass.
    pub fn advance_prediction(&mut self, delta: i64)
        requires
            old(self).wf(),
            delta >= 0,
        ensures
            final(self).wf(),
            final(self).client_id == old(self).client_id,
            final(self).player == old(self).player,
            final(self).actions@ == old(self).actions@,
            final(self).remotes@ == old(self).remotes@,
            final(self).mismatch_count == old(self).mismatch_count,
            final(self).predicted@.len() == old(self).predicted@.len(),
            controllers(final(self).predicted@) == Seq::new(
                old(self).predicted@.len(),
                |i: int| advance_controller(old(self).predicted@[i], delta as int),
            ),
    {
        advance_characters(&mut self.predicted, delta);
    }

    /// Runs the stages of a substep that follow the contact pass.
    pub fn settle_prediction(&mut self, collisions: &Vec<Contacts>, hits: &Vec<Vec<ShapeHit>>)
        requires
            old(self).wf(),
        ensures
            final(self).wf(),
            final(self).client_id == old(self).client_id,
            final(self).player == old(self).player,
            final(self).actions@ == old(self).actions@,
            final(self).remotes@ == old(self).remotes@,
            final(self).mismatch_count == old(self).mismatch_count,
            final(self).predicted@.len() == old(self).predicted@.len(),
            controllers(final(self).predicted@) == classify(
                resolve_contacts(
                    controllers(old(self).predicted@),
                    slopes(old(self).predicted@),
                    collisions@,
                ),
                slopes(old(self).predicted@),
                hits@,
            ),
    {
        settle_characters(&mut self.predicted, collisions, hits);
    }
}

} // verus!
