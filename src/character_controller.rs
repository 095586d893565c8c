//! Fixed-substep integration of kinematic characters: buffered intents, gravity,
//! horizontal damping, positional collision correction and slope-aware grounding.
use vstd::prelude::*;
use crate::fixed::{
    FixedVec2, FixedVec3, UNIT, MICROS_PER_SECOND, abs, clamp, trunc_div, over_delta,
    within_slope, clamp_to, div_toward_zero, scale_by_delta, is_within_slope,
    lemma_mul_abs_bound, lemma_scale_down, lemma_trunc_div_bound,
};
use vstd::arithmetic::div_mod::{lemma_div_denominator, lemma_div_multiples_vanish};
use crate::config::PHYSICS_SUBSTEP;
use crate::instant_event_buffer::InstantEventBuffer;

verus! {

/// Largest speed along any axis, in micrometres per second.
pub const MAX_SPEED: i64 = 1_000_000_000_000;

/// Largest distance from the origin along any axis, in micrometres.
pub const MAX_EXTENT: i64 = 1_000_000_000_000_000;

/// Largest configurable acceleration, in micrometres per second squared.
pub const MAX_ACCELERATION: i64 = 1_000_000_000_000;

/// A damped horizontal speed at or below this is snapped to zero.
pub const SNAP_EPSILON: i64 = 1;

/// Scale of the shrunk collider copy that is cast to find the ground, in millionths.
pub const GROUND_CAST_SCALE: i64 = 990_000;

/// How far down the ground cast reaches, in micrometres.
pub const GROUND_CAST_DISTANCE: i64 = 200_000;

/// Default acceleration of a move intent at full input.
pub const DEFAULT_ACCELERATION: i64 = 60 * PHYSICS_SUBSTEP * UNIT;

/// Default share of horizontal speed kept per substep, in millionths.
pub const DEFAULT_DAMPING_FACTOR: i64 = 980_000;

/// Default vertical speed set by a jump.
pub const DEFAULT_JUMP_IMPULSE: i64 = 9_000_000;

/// Cosine, in millionths, of the default steepest walkable slope (0.45 pi).
pub const DEFAULT_MAX_SLOPE_COS: i64 = 156_434;

/// A control intent handed to one character.
#[derive(Clone, Copy, Debug, PartialEq, Eq, Structural)]
pub enum ControllerAction {
    /// Planar move direction: `x` lateral, `y` forward.
    Move(FixedVec2),
    Jump,
}

/// Speed gained per second of full move input.
#[derive(Clone, Copy, Debug, PartialEq, Eq, Structural)]
pub struct Acceleration(pub i64);

/// Share of horizontal speed kept per substep, in millionths.
#[derive(Clone, Copy, Debug, PartialEq, Eq, Structural)]
pub struct DampingFactor(pub i64);

/// Vertical speed set by a jump.
#[derive(Clone, Copy, Debug, PartialEq, Eq, Structural)]
pub struct JumpImpulse(pub i64);

/// Acceleration applied to a character's velocity every substep.
#[derive(Clone, Copy, Debug, PartialEq, Eq, Structural)]
pub struct Gravity(pub FixedVec3);

/// The steepest walkable slope, held by the cosine of its angle with the up
/// axis, in millionths.
#[derive(Clone, Copy, Debug, PartialEq, Eq, Structural)]
pub struct MaxSlopeAngle(pub i64);

/// The movement parameters of one character, fixed at spawn.
#[derive(Clone, Copy, Debug, PartialEq, Eq, Structural)]
pub struct MovementBundle {
    pub acceleration: Acceleration,
    pub damping_factor: DampingFactor,
    pub jump_impulse: JumpImpulse,
    /// With no slope limit every contact counts as ground.
    pub max_slope_angle: Option<MaxSlopeAngle>,
}

/// A capsule: a cylinder of `height` capped by half-spheres of `radius`.
#[derive(Clone, Copy, Debug, PartialEq, Eq, Structural)]
pub struct Capsule {
    pub height: i64,
    pub radius: i64,
}

/// The shape cast down from a character to find the ground.
#[derive(Clone, Copy, Debug, PartialEq, Eq, Structural)]
pub struct GroundCaster {
    pub shape: Capsule,
    pub max_distance: i64,
}

/// The kinematic state of one character.
#[derive(Clone, Copy, Debug, PartialEq, Eq, Structural)]
pub struct CharacterController {
    pub position: FixedVec3,
    /// Rotation about the up axis, in microradians.
    pub yaw: i64,
    pub velocity: FixedVec3,
    pub grounded: bool,
}

/// Everything the simulation holds for one character.
pub struct CharacterControllerBundle {
    pub controller: CharacterController,
    pub controller_action_buffer: InstantEventBuffer<ControllerAction>,
    pub collider: Capsule,
    pub ground_caster: GroundCaster,
    pub gravity: Gravity,
    pub movement: MovementBundle,
}

/// One hit of the ground cast: the outward normal of the cast shape, in world space.
#[derive(Clone, Copy, Debug, PartialEq, Eq, Structural)]
pub struct ShapeHit {
    pub normal: FixedVec3,
}

/// Contact points that share one normal.
pub struct ContactManifold {
    /// World-space normal pointing out of the first body.
    pub normal1: FixedVec3,
    /// World-space normal pointing out of the second body.
    pub normal2: FixedVec3,
    /// Penetration depth of each contact point.
    pub penetrations: Vec<i64>,
}

/// The contact between two colliders in one substep.
pub struct Contacts {
    /// Index of the character that owns the first collider, if a character does.
    pub body1: Option<usize>,
    /// Index of the character that owns the second collider, if a character does.
    pub body2: Option<usize>,
    pub during_current_substep: bool,
    /// Either collider is a sensor.
    pub sensor: bool,
    pub manifolds: Vec<ContactManifold>,
}

impl CharacterController {
    /// Position and velocity lie within the simulated extent and speed.
    pub open spec fn wf(&self) -> bool {
        &&& abs(self.position.x as int) <= MAX_EXTENT
        &&& abs(self.position.y as int) <= MAX_EXTENT
        &&& abs(self.position.z as int) <= MAX_EXTENT
        &&& abs(self.velocity.x as int) <= MAX_SPEED
        &&& abs(self.velocity.y as int) <= MAX_SPEED
        &&& abs(self.velocity.z as int) <= MAX_SPEED
    }
}

impl MovementBundle {
    /// The parameters lie in their ranges: damping strictly between zero and one.
    pub open spec fn wf(&self) -> bool {
        &&& abs(self.acceleration.0 as int) <= MAX_ACCELERATION
        &&& 0 < self.damping_factor.0 < UNIT
        &&& abs(self.jump_impulse.0 as int) <= MAX_SPEED
        &&& (self.max_slope_angle matches Some(a) ==> -UNIT <= a.0 <= UNIT)
    }

    pub open spec fn spec_default() -> MovementBundle {
        MovementBundle {
            acceleration: Acceleration(DEFAULT_ACCELERATION),
            damping_factor: DampingFactor(DEFAULT_DAMPING_FACTOR),
            jump_impulse: JumpImpulse(DEFAULT_JUMP_IMPULSE),
            max_slope_angle: Some(MaxSlopeAngle(DEFAULT_MAX_SLOPE_COS)),
        }
    }
}

impl Default for MovementBundle {
    fn default() -> (r: MovementBundle)
        ensures
            r == MovementBundle::spec_default(),
            r.wf(),
    {
        MovementBundle {
            acceleration: Acceleration(DEFAULT_ACCELERATION),
            damping_factor: DampingFactor(DEFAULT_DAMPING_FACTOR),
            jump_impulse: JumpImpulse(DEFAULT_JUMP_IMPULSE),
            max_slope_angle: Some(MaxSlopeAngle(DEFAULT_MAX_SLOPE_COS)),
        }
    }
}

impl CharacterControllerBundle {
    pub open spec fn wf(&self) -> bool {
        self.controller.wf() && self.movement.wf()
    }
}

/// `c` scaled by `s` millionths.
pub open spec fn scaled_capsule(c: Capsule, s: int) -> Capsule {
    Capsule {
        height: trunc_div(c.height * s, UNIT as int) as i64,
        radius: trunc_div(c.radius * s, UNIT as int) as i64,
    }
}

/// `c` with the kinematic state `k`.
pub open spec fn with_controller(
    c: CharacterControllerBundle,
    k: CharacterController,
) -> CharacterControllerBundle {
    CharacterControllerBundle {
        controller: k,
        controller_action_buffer: c.controller_action_buffer,
        collider: c.collider,
        ground_caster: c.ground_caster,
        gravity: c.gravity,
        movement: c.movement,
    }
}

// ---------------------------------------------------------------------------
// Intents

/// Speed change from `dir` (components held to `[-UNIT, UNIT]`) under
/// acceleration `accel` over `delta` microseconds.
pub open spec fn move_gain(dir: int, accel: int, delta: int) -> int {
    trunc_div(
        clamp(dir, UNIT as int) * accel * delta,
        (UNIT as int) * (MICROS_PER_SECOND as int),
    )
}

/// Velocity after applying one intent.
pub open spec fn apply_action(
    v: FixedVec3,
    a: ControllerAction,
    m: MovementBundle,
    grounded: bool,
    delta: int,
) -> FixedVec3 {
    match a {
        ControllerAction::Move(dir) => FixedVec3 {
            x: clamp(v.x + move_gain(dir.x as int, m.acceleration.0 as int, delta), MAX_SPEED as int) as i64,
            y: v.y,
            z: clamp(v.z - move_gain(dir.y as int, m.acceleration.0 as int, delta), MAX_SPEED as int) as i64,
        },
        ControllerAction::Jump => if grounded {
            FixedVec3 { x: v.x, y: m.jump_impulse.0, z: v.z }
        } else {
            v
        },
    }
}

/// Velocity after applying `actions` in order.
pub open spec fn apply_actions(
    v: FixedVec3,
    actions: Seq<ControllerAction>,
    m: MovementBundle,
    grounded: bool,
    delta: int,
) -> FixedVec3
    decreases actions.len(),
{
    if actions.len() == 0 {
        v
    } else {
        apply_action(
            apply_actions(v, actions.drop_last(), m, grounded, delta),
            actions.last(),
            m,
            grounded,
            delta,
        )
    }
}

pub open spec fn speed_ok(v: FixedVec3) -> bool {
    abs(v.x as int) <= MAX_SPEED && abs(v.y as int) <= MAX_SPEED && abs(v.z as int) <= MAX_SPEED
}

/// While airborne no intent changes the vertical speed.
pub proof fn lemma_airborne_actions_keep_vertical(
    v: FixedVec3,
    actions: Seq<ControllerAction>,
    m: MovementBundle,
    delta: int,
)
    ensures
        apply_actions(v, actions, m, false, delta).y == v.y,
    decreases actions.len(),
{
    if actions.len() > 0 {
        lemma_airborne_actions_keep_vertical(v, actions.drop_last(), m, delta);
    }
}

fn apply_action_exec(
    v: FixedVec3,
    a: &ControllerAction,
    m: &MovementBundle,
    grounded: bool,
    delta: i64,
) -> (r: FixedVec3)
    requires
        speed_ok(v),
        m.wf(),
        delta >= 0,
    ensures
        r == apply_action(v, *a, *m, grounded, delta as int),
        speed_ok(r),
{
    match a {
        ControllerAction::Move(dir) => {
            let gx = move_gain_exec(dir.x, m.acceleration.0, delta);
            let gz = move_gain_exec(dir.y, m.acceleration.0, delta);
            FixedVec3 {
                x: clamp_to(v.x as i128 + gx, MAX_SPEED),
                y: v.y,
                z: clamp_to(v.z as i128 - gz, MAX_SPEED),
            }
        },
        ControllerAction::Jump => {
            if grounded {
                FixedVec3 { x: v.x, y: m.jump_impulse.0, z: v.z }
            } else {
                v
            }
        },
    }
}

fn move_gain_exec(dir: i64, accel: i64, delta: i64) -> (r: i128)
    requires
        abs(accel as int) <= MAX_ACCELERATION,
        delta >= 0,
    ensures
        r == move_gain(dir as int, accel as int, delta as int),
        abs(r as int) <= 0x1000_0000_0000_0000_0000_0000_0000_0000,
{
    let d: i64 = clamp_to(dir as i128, UNIT);
    proof {
        lemma_mul_abs_bound(d as int, accel as int, UNIT as int, MAX_ACCELERATION as int);
        lemma_mul_abs_bound(
            d * accel,
            delta as int,
            UNIT * MAX_ACCELERATION,
            0x8000_0000_0000_0000,
        );
    }
    let p: i128 = d as i128 * accel as i128 * delta as i128;
    proof {
        lemma_trunc_div_bound(p as int, UNIT * MICROS_PER_SECOND);
    }
    div_toward_zero(p, UNIT as i128 * MICROS_PER_SECOND as i128)
}

/// Applies every buffered intent, in the order it was sent, and empties the buffer.
/// A jump takes effect only on a grounded character.
pub fn control_system(c: &mut CharacterControllerBundle, delta: i64)
    requires
        old(c).wf(),
        delta >= 0,
    ensures
        final(c).wf(),
        final(c).controller.velocity == apply_actions(
            old(c).controller.velocity,
            old(c).controller_action_buffer@,
            old(c).movement,
            old(c).controller.grounded,
            delta as int,
        ),
        !old(c).controller.grounded ==> final(c).controller.velocity.y == old(c).controller.velocity.y,
        final(c).controller_action_buffer@ == Seq::<ControllerAction>::empty(),
        final(c).controller.position == old(c).controller.position,
        final(c).controller.yaw == old(c).controller.yaw,
        final(c).controller.grounded == old(c).controller.grounded,
        final(c).collider == old(c).collider,
        final(c).ground_caster == old(c).ground_caster,
        final(c).gravity == old(c).gravity,
        final(c).movement == old(c).movement,
{
    let actions = c.controller_action_buffer.read();
    let v0 = c.controller.velocity;
    let mut v = v0;
    let mut i: usize = 0;
    while i < actions.len()
        invariant
            0 <= i <= actions@.len(),
            c.movement.wf(),
            delta >= 0,
            speed_ok(v),
            v == apply_actions(
                v0,
                actions@.subrange(0, i as int),
                c.movement,
                c.controller.grounded,
                delta as int,
            ),
        decreases actions@.len() - i,
    {
        v = apply_action_exec(v, &actions[i], &c.movement, c.controller.grounded, delta);
        proof {
            assert(actions@.subrange(0, i + 1).drop_last() =~= actions@.subrange(0, i as int));
        }
        i = i + 1;
    }
    proof {
        assert(actions@.subrange(0, i as int) =~= actions@);
        lemma_airborne_actions_keep_vertical(v0, actions@, c.movement, delta as int);
    }
    c.controller.velocity = v;
}

// ---------------------------------------------------------------------------
// Gravity and damping

/// A speed after a per-second `rate` acts on it for `delta` microseconds.
pub open spec fn accelerate(v: int, rate: int, delta: int) -> int {
    clamp(v + over_delta(rate, delta), MAX_SPEED as int)
}

pub open spec fn apply_gravity(v: FixedVec3, g: FixedVec3, delta: int) -> FixedVec3 {
    FixedVec3 {
        x: accelerate(v.x as int, g.x as int, delta) as i64,
        y: accelerate(v.y as int, g.y as int, delta) as i64,
        z: accelerate(v.z as int, g.z as int, delta) as i64,
    }
}

fn accelerate_exec(v: i64, rate: i64, delta: i64) -> (r: i64)
    requires
        abs(v as int) <= MAX_SPEED,
        delta >= 0,
    ensures
        r == accelerate(v as int, rate as int, delta as int),
        abs(r as int) <= MAX_SPEED,
{
    let s: i128 = scale_by_delta(rate, delta);
    clamp_to(v as i128 + s, MAX_SPEED)
}

/// Adds gravity over `delta` microseconds to the velocity.
pub fn apply_gravity_system(c: &mut CharacterControllerBundle, delta: i64)
    requires
        old(c).wf(),
        delta >= 0,
    ensures
        final(c).wf(),
        final(c).controller.velocity == apply_gravity(
            old(c).controller.velocity,
            old(c).gravity.0,
            delta as int,
        ),
        *final(c) == with_controller(
            *old(c),
            CharacterController { velocity: final(c).controller.velocity, ..old(c).controller },
        ),
{
    let v = c.controller.velocity;
    let g = c.gravity.0;
    c.controller.velocity = FixedVec3 {
        x: accelerate_exec(v.x, g.x, delta),
        y: accelerate_exec(v.y, g.y, delta),
        z: accelerate_exec(v.z, g.z, delta),
    };
}

/// A horizontal speed after one substep of damping by `factor` millionths.
pub open spec fn damp(v: int, factor: int) -> int {
    let d = trunc_div(v * factor, UNIT as int);
    if abs(d) <= SNAP_EPSILON {
        0
    } else {
        d
    }
}

pub open spec fn apply_damping(v: FixedVec3, factor: int) -> FixedVec3 {
    FixedVec3 { x: damp(v.x as int, factor) as i64, y: v.y, z: damp(v.z as int, factor) as i64 }
}

fn damp_exec(v: i64, factor: i64) -> (r: i64)
    requires
        abs(v as int) <= MAX_SPEED,
        0 < factor < UNIT,
    ensures
        r == damp(v as int, factor as int),
        abs(r as int) <= abs(v as int),
{
    proof {
        lemma_scale_down(v as int, factor as int, UNIT as int);
        lemma_mul_abs_bound(v as int, factor as int, MAX_SPEED as int, UNIT as int);
    }
    let d: i128 = div_toward_zero(v as i128 * factor as i128, UNIT as i128);
    if -(SNAP_EPSILON as i128) <= d && d <= SNAP_EPSILON as i128 {
        0
    } else {
        d as i64
    }
}

/// Damps the horizontal velocity by the damping factor, snapping tiny speeds to zero.
pub fn apply_movement_damping_system(c: &mut CharacterControllerBundle)
    requires
        old(c).wf(),
    ensures
        final(c).wf(),
        final(c).controller.velocity == apply_damping(
            old(c).controller.velocity,
            old(c).movement.damping_factor.0 as int,
        ),
        *final(c) == with_controller(
            *old(c),
            CharacterController { velocity: final(c).controller.velocity, ..old(c).controller },
        ),
{
    let v = c.controller.velocity;
    let f = c.movement.damping_factor.0;
    c.controller.velocity = FixedVec3 { x: damp_exec(v.x, f), y: v.y, z: damp_exec(v.z, f) };
}

// ---------------------------------------------------------------------------
// Position

/// A coordinate after moving at `v` for `delta` microseconds.
pub open spec fn advance_coord(p: int, v: int, delta: int) -> int {
    clamp(p + over_delta(v, delta), MAX_EXTENT as int)
}

pub open spec fn integrate(p: FixedVec3, v: FixedVec3, delta: int) -> FixedVec3 {
    FixedVec3 {
        x: advance_coord(p.x as int, v.x as int, delta) as i64,
        y: advance_coord(p.y as int, v.y as int, delta) as i64,
        z: advance_coord(p.z as int, v.z as int, delta) as i64,
    }
}

fn advance_coord_exec(p: i64, v: i64, delta: i64) -> (r: i64)
    requires
        delta >= 0,
        abs(p as int) <= MAX_EXTENT,
    ensures
        r == advance_coord(p as int, v as int, delta as int),
        abs(r as int) <= MAX_EXTENT,
{
    let s: i128 = scale_by_delta(v, delta);
    clamp_to(p as i128 + s, MAX_EXTENT)
}

/// Moves the character along its velocity for `delta` microseconds.
pub fn integrate_position_system(c: &mut CharacterControllerBundle, delta: i64)
    requires
        old(c).wf(),
        delta >= 0,
    ensures
        final(c).wf(),
        final(c).controller.position == integrate(
            old(c).controller.position,
            old(c).controller.velocity,
            delta as int,
        ),
        *final(c) == with_controller(
            *old(c),
            CharacterController { position: final(c).controller.position, ..old(c).controller },
        ),
{
    let p = c.controller.position;
    let v = c.controller.velocity;
    c.controller.position = FixedVec3 {
        x: advance_coord_exec(p.x, v.x, delta),
        y: advance_coord_exec(p.y, v.y, delta),
        z: advance_coord_exec(p.z, v.z, delta),
    };
}

// ---------------------------------------------------------------------------
// Grounding

/// A ground-cast hit counts as ground: its inverted normal is within the slope
/// limit, or there is no limit.
pub open spec fn hit_is_ground(hit: ShapeHit, slope: Option<MaxSlopeAngle>) -> bool {
    match slope {
        Some(a) => within_slope(
            -(hit.normal.x as int),
            -(hit.normal.y as int),
            -(hit.normal.z as int),
            a.0 as int,
        ),
        None => true,
    }
}

/// Some hit counts as ground; with no hit, never.
pub open spec fn is_grounded(hits: Seq<ShapeHit>, slope: Option<MaxSlopeAngle>) -> bool {
    exists|i: int| 0 <= i < hits.len() && hit_is_ground(#[trigger] hits[i], slope)
}

fn hit_is_ground_exec(hit: &ShapeHit, slope: Option<MaxSlopeAngle>) -> (r: bool)
    requires
        slope matches Some(a) ==> -UNIT <= a.0 <= UNIT,
    ensures
        r == hit_is_ground(*hit, slope),
{
    match slope {
        Some(a) => is_within_slope(
            -(hit.normal.x as i128),
            -(hit.normal.y as i128),
            -(hit.normal.z as i128),
            a.0,
        ),
        None => true,
    }
}

/// Classifies the character as grounded from the hits of its ground cast.
pub fn update_grounded_system(c: &mut CharacterControllerBundle, hits: &Vec<ShapeHit>)
    requires
        old(c).wf(),
    ensures
        final(c).wf(),
        final(c).controller.grounded == is_grounded(hits@, old(c).movement.max_slope_angle),
        *final(c) == with_controller(
            *old(c),
            CharacterController { grounded: final(c).controller.grounded, ..old(c).controller },
        ),
{
    let slope = c.movement.max_slope_angle;
    let mut grounded = false;
    let mut i: usize = 0;
    while i < hits.len()
        invariant
            0 <= i <= hits@.len(),
            slope matches Some(a) ==> -UNIT <= a.0 <= UNIT,
            grounded == exists|j: int| 0 <= j < i && hit_is_ground(#[trigger] hits@[j], slope),
        decreases hits@.len() - i,
    {
        let g = hit_is_ground_exec(&hits[i], slope);
        proof {
            if g {
                assert(hit_is_ground(hits@[i as int], slope));
            }
        }
        grounded = grounded || g;
        i = i + 1;
    }
    c.controller.grounded = grounded;
}

// ---------------------------------------------------------------------------
// Collision resolution

/// The normal of a contact as seen from the character: `n` inverted, each
/// component held to `[-UNIT, UNIT]`.
pub open spec fn facing(n: FixedVec3) -> FixedVec3 {
    FixedVec3 {
        x: clamp(-(n.x as int), UNIT as int) as i64,
        y: clamp(-(n.y as int), UNIT as int) as i64,
        z: clamp(-(n.z as int), UNIT as int) as i64,
    }
}

/// A coordinate pushed along normal component `n` by penetration depth `d`.
pub open spec fn push_coord(p: int, n: int, d: int) -> int {
    clamp(p + trunc_div(n * d, UNIT as int), MAX_EXTENT as int)
}

/// `p` pushed along the direction `n` by `d`, where `d` is positive.
pub open spec fn push_out(p: FixedVec3, n: FixedVec3, d: int) -> FixedVec3 {
    if d > 0 {
        FixedVec3 {
            x: push_coord(p.x as int, n.x as int, d) as i64,
            y: push_coord(p.y as int, n.y as int, d) as i64,
            z: push_coord(p.z as int, n.z as int, d) as i64,
        }
    } else {
        p
    }
}

/// `p` pushed by each depth in `ds`, in order.
pub open spec fn push_out_all(p: FixedVec3, n: FixedVec3, ds: Seq<i64>) -> FixedVec3
    decreases ds.len(),
{
    if ds.len() == 0 {
        p
    } else {
        push_out(push_out_all(p, n, ds.drop_last()), n, ds.last() as int)
    }
}

/// The character-facing normal `n` passes the slope test: it is within the slope
/// limit, or there is no limit.
pub open spec fn walkable(n: FixedVec3, slope: Option<MaxSlopeAngle>) -> bool {
    match slope {
        Some(a) => within_slope(n.x as int, n.y as int, n.z as int, a.0 as int),
        None => true,
    }
}

/// The vertical speed is clamped to zero: the contact normal `n` is walkable and
/// the character falls into it.
pub open spec fn clamps_fall(n: FixedVec3, vy: int, slope: Option<MaxSlopeAngle>) -> bool {
    walkable(n, slope) && vy < 0
}

/// The state after one manifold with character-facing normal `n`.
pub open spec fn resolve_manifold(
    c: CharacterController,
    n: FixedVec3,
    ds: Seq<i64>,
    slope: Option<MaxSlopeAngle>,
) -> CharacterController {
    CharacterController {
        position: push_out_all(c.position, n, ds),
        velocity: if clamps_fall(n, c.velocity.y as int, slope) {
            FixedVec3 { x: c.velocity.x, y: 0, z: c.velocity.z }
        } else {
            c.velocity
        },
        ..c
    }
}

/// The state after every manifold of a contact, on the side `first` or the other.
pub open spec fn resolve_manifolds(
    c: CharacterController,
    ms: Seq<ContactManifold>,
    first: bool,
    slope: Option<MaxSlopeAngle>,
) -> CharacterController
    decreases ms.len(),
{
    if ms.len() == 0 {
        c
    } else {
        let m = ms.last();
        resolve_manifold(
            resolve_manifolds(c, ms.drop_last(), first, slope),
            facing(if first { m.normal1 } else { m.normal2 }),
            m.penetrations@,
            slope,
        )
    }
}

/// The character a contact corrects, and whether it is the first body, among
/// `n` characters: none for a stale or sensor contact, else the first body that is
/// a character.
pub open spec fn contact_side(c: Contacts, n: int) -> Option<(int, bool)> {
    if !c.during_current_substep || c.sensor {
        None
    } else if c.body1 matches Some(i) && i < n {
        Some((c.body1->0 as int, true))
    } else if c.body2 matches Some(j) && j < n {
        Some((c.body2->0 as int, false))
    } else {
        None
    }
}

/// The kinematic states of all characters.
pub open spec fn controllers(chars: Seq<CharacterControllerBundle>) -> Seq<CharacterController> {
    chars.map_values(|b: CharacterControllerBundle| b.controller)
}

/// The slope limits of all characters.
pub open spec fn slopes(chars: Seq<CharacterControllerBundle>) -> Seq<Option<MaxSlopeAngle>> {
    chars.map_values(|b: CharacterControllerBundle| b.movement.max_slope_angle)
}

/// The states `ks` of characters with slope limits `limits` after resolving `cs`
/// in order.
pub open spec fn resolve_contacts(
    ks: Seq<CharacterController>,
    limits: Seq<Option<MaxSlopeAngle>>,
    cs: Seq<Contacts>,
) -> Seq<CharacterController>
    decreases cs.len(),
{
    if cs.len() == 0 {
        ks
    } else {
        let prev = resolve_contacts(ks, limits, cs.drop_last());
        let c = cs.last();
        match contact_side(c, prev.len() as int) {
            Some((i, first)) => prev.update(
                i,
                resolve_manifolds(prev[i], c.manifolds@, first, limits[i]),
            ),
            None => prev,
        }
    }
}

pub proof fn lemma_resolve_contacts_len(
    ks: Seq<CharacterController>,
    limits: Seq<Option<MaxSlopeAngle>>,
    cs: Seq<Contacts>,
)
    ensures
        resolve_contacts(ks, limits, cs).len() == ks.len(),
    decreases cs.len(),
{
    if cs.len() > 0 {
        lemma_resolve_contacts_len(ks, limits, cs.drop_last());
    }
}

pub open spec fn all_wf(chars: Seq<CharacterControllerBundle>) -> bool {
    forall|i: int| 0 <= i < chars.len() ==> (#[trigger] chars[i]).wf()
}

fn facing_exec(n: FixedVec3) -> (r: FixedVec3)
    ensures
        r == facing(n),
{
    FixedVec3 {
        x: clamp_to(-(n.x as i128), UNIT),
        y: clamp_to(-(n.y as i128), UNIT),
        z: clamp_to(-(n.z as i128), UNIT),
    }
}

fn push_coord_exec(p: i64, n: i64, d: i64) -> (r: i64)
    requires
        abs(n as int) <= UNIT,
    ensures
        r == push_coord(p as int, n as int, d as int),
        abs(r as int) <= MAX_EXTENT,
{
    proof {
        lemma_mul_abs_bound(n as int, d as int, UNIT as int, 0x8000_0000_0000_0000);
        lemma_trunc_div_bound(n * d, UNIT as int);
    }
    let s: i128 = div_toward_zero(n as i128 * d as i128, UNIT as i128);
    clamp_to(p as i128 + s, MAX_EXTENT)
}

fn push_out_all_exec(p: FixedVec3, n: FixedVec3, ds: &Vec<i64>) -> (r: FixedVec3)
    requires
        abs(n.x as int) <= UNIT,
        abs(n.y as int) <= UNIT,
        abs(n.z as int) <= UNIT,
        abs(p.x as int) <= MAX_EXTENT,
        abs(p.y as int) <= MAX_EXTENT,
        abs(p.z as int) <= MAX_EXTENT,
    ensures
        r == push_out_all(p, n, ds@),
        abs(r.x as int) <= MAX_EXTENT,
        abs(r.y as int) <= MAX_EXTENT,
        abs(r.z as int) <= MAX_EXTENT,
{
    let mut q = p;
    let mut i: usize = 0;
    while i < ds.len()
        invariant
            0 <= i <= ds@.len(),
            abs(n.x as int) <= UNIT,
            abs(n.y as int) <= UNIT,
            abs(n.z as int) <= UNIT,
            abs(q.x as int) <= MAX_EXTENT,
            abs(q.y as int) <= MAX_EXTENT,
            abs(q.z as int) <= MAX_EXTENT,
            q == push_out_all(p, n, ds@.subrange(0, i as int)),
        decreases ds@.len() - i,
    {
        let d = ds[i];
        if d > 0 {
            q = FixedVec3 {
                x: push_coord_exec(q.x, n.x, d),
                y: push_coord_exec(q.y, n.y, d),
                z: push_coord_exec(q.z, n.z, d),
            };
        }
        proof {
            assert(ds@.subrange(0, i + 1).drop_last() =~= ds@.subrange(0, i as int));
        }
        i = i + 1;
    }
    proof {
        assert(ds@.subrange(0, i as int) =~= ds@);
    }
    q
}

fn resolve_manifold_exec(
    c: CharacterController,
    n: FixedVec3,
    ds: &Vec<i64>,
    slope: Option<MaxSlopeAngle>,
) -> (r: CharacterController)
    requires
        c.wf(),
        abs(n.x as int) <= UNIT,
        abs(n.y as int) <= UNIT,
        abs(n.z as int) <= UNIT,
        slope matches Some(a) ==> -UNIT <= a.0 <= UNIT,
    ensures
        r == resolve_manifold(c, n, ds@, slope),
        r.wf(),
{
    let position = push_out_all_exec(c.position, n, ds);
    let walkable = match slope {
        Some(a) => is_within_slope(n.x as i128, n.y as i128, n.z as i128, a.0),
        None => true,
    };
    let velocity = if walkable && c.velocity.y < 0 {
        FixedVec3 { x: c.velocity.x, y: 0, z: c.velocity.z }
    } else {
        c.velocity
    };
    CharacterController { position, yaw: c.yaw, velocity, grounded: c.grounded }
}

fn resolve_manifolds_exec(
    c: CharacterController,
    ms: &Vec<ContactManifold>,
    first: bool,
    slope: Option<MaxSlopeAngle>,
) -> (r: CharacterController)
    requires
        c.wf(),
        slope matches Some(a) ==> -UNIT <= a.0 <= UNIT,
    ensures
        r == resolve_manifolds(c, ms@, first, slope),
        r.wf(),
{
    let mut k = c;
    let mut i: usize = 0;
    while i < ms.len()
        invariant
            0 <= i <= ms@.len(),
            k.wf(),
            slope matches Some(a) ==> -UNIT <= a.0 <= UNIT,
            k == resolve_manifolds(c, ms@.subrange(0, i as int), first, slope),
        decreases ms@.len() - i,
    {
        let m = &ms[i];
        let n = facing_exec(if first { m.normal1 } else { m.normal2 });
        k = resolve_manifold_exec(k, n, &m.penetrations, slope);
        proof {
            assert(ms@.subrange(0, i + 1).drop_last() =~= ms@.subrange(0, i as int));
        }
        i = i + 1;
    }
    proof {
        assert(ms@.subrange(0, i as int) =~= ms@);
    }
    k
}

/// Pushes characters out of the colliders they penetrate: for each contact of this
/// substep that involves a character, every contact point with positive depth moves
/// that character along the contact normal by the depth, and a walkable normal stops
/// a fall into it.
pub fn kinematic_collisions_system(
    characters: &mut Vec<CharacterControllerBundle>,
    collisions: &Vec<Contacts>,
)
    requires
        all_wf(old(characters)@),
    ensures
        final(characters)@.len() == old(characters)@.len(),
        controllers(final(characters)@) == resolve_contacts(
            controllers(old(characters)@),
            slopes(old(characters)@),
            collisions@,
        ),
        forall|i: int|
            0 <= i < old(characters)@.len() ==> #[trigger] final(characters)@[i] == with_controller(
                old(characters)@[i],
                final(characters)@[i].controller,
            ),
        all_wf(final(characters)@),
{
    let ghost start = characters@;
    let ghost limits = slopes(start);
    let mut k: usize = 0;
    while k < collisions.len()
        invariant
            0 <= k <= collisions@.len(),
            characters@.len() == start.len(),
            limits == slopes(start),
            all_wf(characters@),
            controllers(characters@) == resolve_contacts(
                controllers(start),
                limits,
                collisions@.subrange(0, k as int),
            ),
            forall|i: int|
                0 <= i < start.len() ==> #[trigger] characters@[i] == with_controller(
                    start[i],
                    characters@[i].controller,
                ),
        decreases collisions@.len() - k,
    {
        let contact = &collisions[k];
        let ghost prev = controllers(characters@);
        proof {
            assert(collisions@.subrange(0, k + 1).drop_last() =~= collisions@.subrange(0, k as int));
            assert(collisions@.subrange(0, k + 1).last() == collisions@[k as int]);
            lemma_resolve_contacts_len(controllers(start), limits, collisions@.subrange(0, k as int));
        }
        let n = characters.len();
        if contact.during_current_substep && !contact.sensor {
            let mut side: Option<(usize, bool)> = None;
            match contact.body1 {
                Some(i) => {
                    if i < n {
                        side = Some((i, true));
                    }
                },
                None => {},
            }
            if side.is_none() {
                match contact.body2 {
                    Some(j) => {
                        if j < n {
                            side = Some((j, false));
                        }
                    },
                    None => {},
                }
            }
            match side {
                Some((i, first)) => {
                    proof {
                        assert(characters@[i as int].wf());
                        assert(characters@[i as int] == with_controller(
                            start[i as int],
                            characters@[i as int].controller,
                        ));
                    }
                    let current = characters[i].controller;
                    let slope = characters[i].movement.max_slope_angle;
                    let resolved = resolve_manifolds_exec(current, &contact.manifolds, first, slope);
                    characters[i].controller = resolved;
                    proof {
                        assert(controllers(characters@) =~= prev.update(i as int, resolved));
                        assert forall|j: int| 0 <= j < start.len() implies #[trigger] characters@[j]
                            == with_controller(start[j], characters@[j].controller) by {
                            if j != i {
                            }
                        }
                    }
                },
                None => {},
            }
        }
        k = k + 1;
    }
    proof {
        assert(collisions@.subrange(0, k as int) =~= collisions@);
    }
}

// ---------------------------------------------------------------------------
// Spawning

/// A character at rest at the origin, airborne until its first ground cast.
pub open spec fn resting_controller() -> CharacterController {
    CharacterController {
        position: FixedVec3 { x: 0, y: 0, z: 0 },
        yaw: 0,
        velocity: FixedVec3 { x: 0, y: 0, z: 0 },
        grounded: false,
    }
}

fn scale_length(l: i64, s: i64) -> (r: i64)
    requires
        0 <= s <= UNIT,
    ensures
        r == trunc_div(l * s, UNIT as int),
{
    proof {
        lemma_scale_down(l as int, s as int, UNIT as int);
        lemma_mul_abs_bound(l as int, s as int, 0x8000_0000_0000_0000, UNIT as int);
    }
    div_toward_zero(l as i128 * s as i128, UNIT as i128) as i64
}

impl CharacterControllerBundle {
    /// A character with `collider`, under `gravity`, with the default movement
    /// parameters and a ground cast of the collider shrunk to `GROUND_CAST_SCALE`.
    pub fn new(collider: Capsule, gravity: FixedVec3) -> (r: CharacterControllerBundle)
        ensures
            r.wf(),
            r.controller == resting_controller(),
            r.controller_action_buffer@ == Seq::<ControllerAction>::empty(),
            r.collider == collider,
            r.ground_caster == (GroundCaster {
                shape: scaled_capsule(collider, GROUND_CAST_SCALE as int),
                max_distance: GROUND_CAST_DISTANCE,
            }),
            r.gravity == Gravity(gravity),
            r.movement == MovementBundle::spec_default(),
    {
        let shape = Capsule {
            height: scale_length(collider.height, GROUND_CAST_SCALE),
            radius: scale_length(collider.radius, GROUND_CAST_SCALE),
        };
        CharacterControllerBundle {
            controller: CharacterController {
                position: FixedVec3 { x: 0, y: 0, z: 0 },
                yaw: 0,
                velocity: FixedVec3 { x: 0, y: 0, z: 0 },
                grounded: false,
            },
            controller_action_buffer: InstantEventBuffer::new(),
            collider,
            ground_caster: GroundCaster { shape, max_distance: GROUND_CAST_DISTANCE },
            gravity: Gravity(gravity),
            movement: MovementBundle::default(),
        }
    }

    /// The same character with other movement parameters.
    pub fn with_movement(
        self,
        acceleration: Acceleration,
        damping_factor: DampingFactor,
        jump_impulse: JumpImpulse,
        max_slope_angle: MaxSlopeAngle,
    ) -> (r: CharacterControllerBundle)
        requires
            self.wf(),
            abs(acceleration.0 as int) <= MAX_ACCELERATION,
            0 < damping_factor.0 < UNIT,
            abs(jump_impulse.0 as int) <= MAX_SPEED,
            -UNIT <= max_slope_angle.0 <= UNIT,
        ensures
            r.wf(),
            r.movement == (MovementBundle {
                acceleration,
                damping_factor,
                jump_impulse,
                max_slope_angle: Some(max_slope_angle),
            }),
            r == with_controller(
                CharacterControllerBundle { movement: r.movement, ..self },
                self.controller,
            ),
    {
        let mut r = self;
        r.movement = MovementBundle {
            acceleration,
            damping_factor,
            jump_impulse,
            max_slope_angle: Some(max_slope_angle),
        };
        r
    }

    /// The same character placed at `position`, held to the simulated extent.
    pub fn with_translation(self, position: FixedVec3) -> (r: CharacterControllerBundle)
        requires
            self.wf(),
        ensures
            r.wf(),
            r.controller.position == (FixedVec3 {
                x: clamp(position.x as int, MAX_EXTENT as int) as i64,
                y: clamp(position.y as int, MAX_EXTENT as int) as i64,
                z: clamp(position.z as int, MAX_EXTENT as int) as i64,
            }),
            r == with_controller(
                self,
                CharacterController { position: r.controller.position, ..self.controller },
            ),
    {
        let mut r = self;
        r.controller.position = FixedVec3 {
            x: clamp_to(position.x as i128, MAX_EXTENT),
            y: clamp_to(position.y as i128, MAX_EXTENT),
            z: clamp_to(position.z as i128, MAX_EXTENT),
        };
        r
    }

    /// The same character in the grounded state `grounded`.
    pub fn with_grounded(self, grounded: bool) -> (r: CharacterControllerBundle)
        requires
            self.wf(),
        ensures
            r.wf(),
            r == with_controller(self, CharacterController { grounded, ..self.controller }),
    {
        let mut r = self;
        r.controller.grounded = grounded;
        r
    }
}

// ---------------------------------------------------------------------------
// The substep pipeline

/// The kinematic state of `b` after the stages that precede collision handling:
/// buffered intents, then gravity, then damping, then integration of position.
pub open spec fn advance_controller(b: CharacterControllerBundle, delta: int) -> CharacterController {
    let k = b.controller;
    let v1 = apply_actions(k.velocity, b.controller_action_buffer@, b.movement, k.grounded, delta);
    let v2 = apply_gravity(v1, b.gravity.0, delta);
    let v3 = apply_damping(v2, b.movement.damping_factor.0 as int);
    CharacterController { position: integrate(k.position, v3, delta), velocity: v3, ..k }
}

/// The ground-cast hits of character `i`; none where `hits` has no entry for it.
pub open spec fn hits_of(hits: Seq<Vec<ShapeHit>>, i: int) -> Seq<ShapeHit> {
    if 0 <= i < hits.len() {
        hits[i]@
    } else {
        Seq::<ShapeHit>::empty()
    }
}

/// The states `ks` reclassified from their ground casts.
pub open spec fn classify(
    ks: Seq<CharacterController>,
    limits: Seq<Option<MaxSlopeAngle>>,
    hits: Seq<Vec<ShapeHit>>,
) -> Seq<CharacterController> {
    Seq::new(
        ks.len(),
        |i: int| CharacterController { grounded: is_grounded(hits_of(hits, i), limits[i]), ..ks[i] },
    )
}

/// The states of `chars` after one whole substep.
pub open spec fn substep(
    chars: Seq<CharacterControllerBundle>,
    collisions: Seq<Contacts>,
    hits: Seq<Vec<ShapeHit>>,
    delta: int,
) -> Seq<CharacterController> {
    let advanced = Seq::new(chars.len(), |i: int| advance_controller(chars[i], delta));
    classify(resolve_contacts(advanced, slopes(chars), collisions), slopes(chars), hits)
}

/// Runs the stages of one character that precede collision handling.
pub fn advance_character(c: &mut CharacterControllerBundle, delta: i64)
    requires
        old(c).wf(),
        delta >= 0,
    ensures
        final(c).wf(),
        final(c).controller == advance_controller(*old(c), delta as int),
        final(c).controller_action_buffer@ == Seq::<ControllerAction>::empty(),
        final(c).collider == old(c).collider,
        final(c).ground_caster == old(c).ground_caster,
        final(c).gravity == old(c).gravity,
        final(c).movement == old(c).movement,
{
    control_system(c, delta);
    apply_gravity_system(c, delta);
    apply_movement_damping_system(c);
    integrate_position_system(c, delta);
}

/// The stages of every character that precede collision handling: buffered
/// intents, gravity, damping, then integration of position.
pub fn advance_characters(characters: &mut Vec<CharacterControllerBundle>, delta: i64)
    requires
        all_wf(old(characters)@),
        delta >= 0,
    ensures
        all_wf(final(characters)@),
        final(characters)@.len() == old(characters)@.len(),
        controllers(final(characters)@) == Seq::new(
            old(characters)@.len(),
            |i: int| advance_controller(old(characters)@[i], delta as int),
        ),
        forall|i: int|
            0 <= i < old(characters)@.len() ==> {
                &&& (#[trigger] final(characters)@[i]).controller_action_buffer@
                    == Seq::<ControllerAction>::empty()
                &&& final(characters)@[i].collider == old(characters)@[i].collider
                &&& final(characters)@[i].ground_caster == old(characters)@[i].ground_caster
                &&& final(characters)@[i].gravity == old(characters)@[i].gravity
                &&& final(characters)@[i].movement == old(characters)@[i].movement
            },
{
    let ghost start = characters@;
    let ghost advanced = Seq::new(start.len(), |i: int| advance_controller(start[i], delta as int));
    let mut i: usize = 0;
    while i < characters.len()
        invariant
            0 <= i <= characters@.len(),
            characters@.len() == start.len(),
            delta >= 0,
            advanced == Seq::new(start.len(), |j: int| advance_controller(start[j], delta as int)),
            all_wf(characters@),
            forall|j: int| 0 <= j < i ==> {
                &&& (#[trigger] characters@[j]).controller == advanced[j]
                &&& characters@[j].controller_action_buffer@ == Seq::<ControllerAction>::empty()
                &&& characters@[j].collider == start[j].collider
                &&& characters@[j].ground_caster == start[j].ground_caster
                &&& characters@[j].gravity == start[j].gravity
                &&& characters@[j].movement == start[j].movement
            },
            forall|j: int| i <= j < start.len() ==> #[trigger] characters@[j] == start[j],
        decreases start.len() - i,
    {
        proof {
            assert(characters@[i as int].wf());
        }
        advance_character(&mut characters[i], delta);
        i = i + 1;
    }
    proof {
        assert(controllers(characters@) =~= advanced);
    }
}

/// The stages of every character that follow the contact pass: collision
/// correction from `collisions`, then grounding from the ground casts (`hits[i]`
/// for character `i`).
pub fn settle_characters(
    characters: &mut Vec<CharacterControllerBundle>,
    collisions: &Vec<Contacts>,
    hits: &Vec<Vec<ShapeHit>>,
)
    requires
        all_wf(old(characters)@),
    ensures
        all_wf(final(characters)@),
        final(characters)@.len() == old(characters)@.len(),
        controllers(final(characters)@) == classify(
            resolve_contacts(controllers(old(characters)@), slopes(old(characters)@), collisions@),
            slopes(old(characters)@),
            hits@,
        ),
        forall|i: int|
            0 <= i < old(characters)@.len() ==> #[trigger] final(characters)@[i] == with_controller(
                old(characters)@[i],
                final(characters)@[i].controller,
            ),
{
    let ghost start = characters@;
    kinematic_collisions_system(characters, collisions);
    let ghost resolved = controllers(characters@);
    let ghost mid = characters@;
    proof {
        assert(slopes(mid) =~= slopes(start));
    }
    let mut i: usize = 0;
    while i < characters.len()
        invariant
            0 <= i <= characters@.len(),
            characters@.len() == start.len(),
            mid.len() == start.len(),
            forall|j: int| 0 <= j < start.len() ==> #[trigger] mid[j] == with_controller(
                start[j],
                mid[j].controller,
            ),
            all_wf(characters@),
            resolved == controllers(mid),
            slopes(mid) == slopes(start),
            forall|j: int| 0 <= j < i ==> (#[trigger] characters@[j]) == with_controller(
                mid[j],
                CharacterController {
                    grounded: is_grounded(hits_of(hits@, j), mid[j].movement.max_slope_angle),
                    ..mid[j].controller
                },
            ),
            forall|j: int| i <= j < start.len() ==> #[trigger] characters@[j] == mid[j],
        decreases start.len() - i,
    {
        proof {
            assert(characters@[i as int].wf());
        }
        if i < hits.len() {
            update_grounded_system(&mut characters[i], &hits[i]);
        } else {
            let none: Vec<ShapeHit> = Vec::new();
            update_grounded_system(&mut characters[i], &none);
            proof {
                assert(none@ =~= hits_of(hits@, i as int));
            }
        }
        i = i + 1;
    }
    proof {
        assert(controllers(characters@) =~= classify(resolved, slopes(start), hits@));
    }
}

/// One physics substep over all characters, in a fixed order: buffered intents,
/// gravity, damping, integration, then the contacts of this substep
/// (`collisions`), then grounding from the ground casts (`hits[i]` for character
/// `i`).
pub fn run_substep(
    characters: &mut Vec<CharacterControllerBundle>,
    collisions: &Vec<Contacts>,
    hits: &Vec<Vec<ShapeHit>>,
    delta: i64,
)
    requires
        all_wf(old(characters)@),
        delta >= 0,
    ensures
        all_wf(final(characters)@),
        final(characters)@.len() == old(characters)@.len(),
        controllers(final(characters)@) == substep(old(characters)@, collisions@, hits@, delta as int),
        forall|i: int|
            0 <= i < old(characters)@.len() ==> {
                &&& (#[trigger] final(characters)@[i]).controller_action_buffer@
                    == Seq::<ControllerAction>::empty()
                &&& final(characters)@[i].collider == old(characters)@[i].collider
                &&& final(characters)@[i].ground_caster == old(characters)@[i].ground_caster
                &&& final(characters)@[i].gravity == old(characters)@[i].gravity
                &&& final(characters)@[i].movement == old(characters)@[i].movement
            },
{
    let ghost start = characters@;
    advance_characters(characters, delta);
    let ghost mid = characters@;
    proof {
        assert(slopes(mid) =~= slopes(start));
    }
    settle_characters(characters, collisions, hits);
    proof {
        assert forall|i: int| 0 <= i < start.len() implies {
            &&& (#[trigger] characters@[i]).controller_action_buffer@ == Seq::<ControllerAction>::empty()
            &&& characters@[i].collider == start[i].collider
            &&& characters@[i].ground_caster == start[i].ground_caster
            &&& characters@[i].gravity == start[i].gravity
            &&& characters@[i].movement == start[i].movement
        } by {
            assert(characters@[i] == with_controller(mid[i], characters@[i].controller));
        }
    }
}

// ---------------------------------------------------------------------------
// Consequences

/// The stages before collision handling, with no intent buffered.
pub open spec fn coast(k: CharacterController, g: FixedVec3, damping: int, delta: int) -> CharacterController {
    let v = apply_damping(apply_gravity(k.velocity, g, delta), damping);
    CharacterController { position: integrate(k.position, v, delta), velocity: v, ..k }
}

/// `n` substeps of coasting.
pub open spec fn coast_n(
    k: CharacterController,
    g: FixedVec3,
    damping: int,
    delta: int,
    n: nat,
) -> CharacterController
    decreases n,
{
    if n == 0 {
        k
    } else {
        coast(coast_n(k, g, damping, delta, (n - 1) as nat), g, damping, delta)
    }
}

/// A character with no buffered intent coasts through the stages before
/// collision handling.
pub proof fn lemma_advance_without_intents(b: CharacterControllerBundle, delta: int)
    requires
        b.controller_action_buffer@.len() == 0,
    ensures
        advance_controller(b, delta) == coast(
            b.controller,
            b.gravity.0,
            b.movement.damping_factor.0 as int,
            delta,
        ),
{
}

/// Free fall: with no intent, no horizontal speed and gravity along the vertical
/// axis only, `n` substeps add exactly `n` times gravity's change per substep to
/// the vertical speed and keep the horizontal speed at zero, for as long as the
/// speed stays within `MAX_SPEED`.
pub proof fn lemma_free_fall(k: CharacterController, gy: i64, damping: int, delta: int, n: nat)
    requires
        k.velocity.x == 0,
        k.velocity.z == 0,
        0 < damping < UNIT,
        delta >= 0,
        abs(k.velocity.y as int) + n * abs(over_delta(gy as int, delta)) <= MAX_SPEED,
    ensures
        coast_n(k, FixedVec3 { x: 0, y: gy, z: 0 }, damping, delta, n).velocity == gravity_n(
            k.velocity,
            FixedVec3 { x: 0, y: gy, z: 0 },
            delta,
            n,
        ),
        coast_n(k, FixedVec3 { x: 0, y: gy, z: 0 }, damping, delta, n).velocity == (FixedVec3 {
            x: 0,
            y: (k.velocity.y + n * over_delta(gy as int, delta)) as i64,
            z: 0,
        }),
    decreases n,
{
    let step = over_delta(gy as int, delta);
    assert(n * abs(step) >= 0) by (nonlinear_arith)
        requires
            n >= 0,
            abs(step) >= 0,
    ;
    lemma_gravity_only(k.velocity, gy, delta, n);
    if n > 0 {
        let m = (n - 1) as nat;
        assert(abs(k.velocity.y as int) + m * abs(step) <= MAX_SPEED) by (nonlinear_arith)
            requires
                abs(k.velocity.y as int) + n * abs(step) <= MAX_SPEED,
                m == n - 1,
                abs(step) >= 0,
        ;
        lemma_free_fall(k, gy, damping, delta, m);
        // Gravity keeps the horizontal speed at zero, which damping leaves alone.
        assert(damp(0, damping) == 0);
    }
}

/// A full move intent to the right (`x` input one unit, `y` input zero) raises
/// the lateral speed by exactly the acceleration over the substep, and changes
/// nothing else, while the speed stays within `MAX_SPEED`.
pub proof fn lemma_full_move_gain(v: FixedVec3, m: MovementBundle, grounded: bool, delta: int)
    requires
        m.acceleration.0 >= 0,
        delta >= 0,
        abs(v.x + over_delta(m.acceleration.0 as int, delta)) <= MAX_SPEED,
        abs(v.z as int) <= MAX_SPEED,
    ensures
        apply_actions(
            v,
            seq![ControllerAction::Move(FixedVec2 { x: UNIT, y: 0 })],
            m,
            grounded,
            delta,
        ) == (FixedVec3 {
            x: (v.x + over_delta(m.acceleration.0 as int, delta)) as i64,
            y: v.y,
            z: v.z,
        }),
{
    let a = m.acceleration.0 as int;
    let u = UNIT as int;
    let s = MICROS_PER_SECOND as int;
    let acts = seq![ControllerAction::Move(FixedVec2 { x: UNIT, y: 0 })];
    assert(acts.drop_last() =~= Seq::<ControllerAction>::empty());
    assert(a * delta >= 0) by (nonlinear_arith)
        requires
            a >= 0,
            delta >= 0,
    ;
    assert(u * a * delta == u * (a * delta)) by (nonlinear_arith);
    assert(u * (a * delta) >= 0) by (nonlinear_arith)
        requires
            a * delta >= 0,
            u > 0,
    ;
    lemma_div_denominator(u * (a * delta), u, s);
    lemma_div_multiples_vanish(a * delta, u);
    assert(move_gain(UNIT as int, a, delta) == over_delta(a, delta));
    assert(0int * a * delta == 0) by (nonlinear_arith);
    assert(move_gain(0, a, delta) == 0);
    assert(apply_actions(v, Seq::<ControllerAction>::empty(), m, grounded, delta) == v);
    assert(acts.last() == ControllerAction::Move(FixedVec2 { x: UNIT, y: 0 }));
    assert(apply_actions(v, acts, m, grounded, delta) == apply_action(
        v,
        ControllerAction::Move(FixedVec2 { x: UNIT, y: 0 }),
        m,
        grounded,
        delta,
    ));
}

/// `n` passes of gravity alone.
pub open spec fn gravity_n(v: FixedVec3, g: FixedVec3, delta: int, n: nat) -> FixedVec3
    decreases n,
{
    if n == 0 {
        v
    } else {
        apply_gravity(gravity_n(v, g, delta, (n - 1) as nat), g, delta)
    }
}

/// Gravity along the vertical axis only: `n` passes add exactly `n` times its
/// change per pass to the vertical speed and never change the horizontal speed,
/// for as long as the vertical speed stays within `MAX_SPEED`.
pub proof fn lemma_gravity_only(v: FixedVec3, gy: i64, delta: int, n: nat)
    requires
        speed_ok(v),
        delta >= 0,
        abs(v.y as int) + n * abs(over_delta(gy as int, delta)) <= MAX_SPEED,
    ensures
        gravity_n(v, FixedVec3 { x: 0, y: gy, z: 0 }, delta, n) == (FixedVec3 {
            x: v.x,
            y: (v.y + n * over_delta(gy as int, delta)) as i64,
            z: v.z,
        }),
    decreases n,
{
    let g = FixedVec3 { x: 0, y: gy, z: 0 };
    let step = over_delta(gy as int, delta);
    if n > 0 {
        let m = (n - 1) as nat;
        assert(abs(v.y as int) + m * abs(step) <= MAX_SPEED) by (nonlinear_arith)
            requires
                abs(v.y as int) + n * abs(step) <= MAX_SPEED,
                m == n - 1,
                abs(step) >= 0,
        ;
        lemma_gravity_only(v, gy, delta, m);
        lemma_mul_abs_bound(m as int, step, m as int, abs(step));
        lemma_mul_abs_bound(n as int, step, n as int, abs(step));
        let prev = gravity_n(v, g, delta, m);
        assert(abs(v.y + m * step) <= MAX_SPEED);
        assert(prev.y == v.y + m * step);
        assert(abs(v.y + n * step) <= MAX_SPEED);
        assert(v.y + m * step + step == v.y + n * step) by (nonlinear_arith)
            requires
                m == n - 1,
        ;
        assert(over_delta(0, delta) == 0);
    } else {
        assert(n * step == 0) by (nonlinear_arith)
            requires
                n == 0,
        ;
    }
}

/// `n` substeps of damping alone.
pub open spec fn damp_n(v: int, factor: int, n: nat) -> int
    decreases n,
{
    if n == 0 {
        v
    } else {
        damp(damp_n(v, factor, (n - 1) as nat), factor)
    }
}

proof fn lemma_damp_step(v: int, factor: int)
    requires
        0 < factor < UNIT,
    ensures
        abs(damp(v, factor)) <= abs(v),
        v != 0 ==> abs(damp(v, factor)) < abs(v),
        v >= 0 ==> damp(v, factor) >= 0,
        v <= 0 ==> damp(v, factor) <= 0,
{
    lemma_scale_down(v, factor, UNIT as int);
}

/// Damping alone never grows a horizontal speed and never flips its sign; it
/// shrinks every speed that is not zero, and brings any speed `v` to exactly zero
/// within `|v|` substeps.
pub proof fn lemma_damping_settles(v: int, factor: int, n: nat)
    requires
        0 < factor < UNIT,
    ensures
        abs(damp_n(v, factor, n + 1)) <= abs(damp_n(v, factor, n)),
        damp_n(v, factor, n) != 0 ==> abs(damp_n(v, factor, n + 1)) < abs(damp_n(v, factor, n)),
        v >= 0 ==> damp_n(v, factor, n) >= 0,
        v <= 0 ==> damp_n(v, factor, n) <= 0,
        n >= abs(v) ==> damp_n(v, factor, n) == 0,
    decreases n,
{
    lemma_damp_step(damp_n(v, factor, n), factor);
    lemma_damping_progress(v, factor, n);
}

proof fn lemma_damping_progress(v: int, factor: int, n: nat)
    requires
        0 < factor < UNIT,
    ensures
        damp_n(v, factor, n) == 0 || abs(damp_n(v, factor, n)) + n <= abs(v),
        v >= 0 ==> damp_n(v, factor, n) >= 0,
        v <= 0 ==> damp_n(v, factor, n) <= 0,
    decreases n,
{
    if n > 0 {
        let m = (n - 1) as nat;
        lemma_damping_progress(v, factor, m);
        lemma_damp_step(damp_n(v, factor, m), factor);
    }
}

/// The total move along one axis, with normal component `n`, from the contact
/// points with positive depth in `ds`.
pub open spec fn correction(n: int, ds: Seq<i64>) -> int
    decreases ds.len(),
{
    if ds.len() == 0 {
        0
    } else {
        correction(n, ds.drop_last()) + if ds.last() > 0 {
            trunc_div(n * ds.last(), UNIT as int)
        } else {
            0
        }
    }
}

/// The sum of the sizes of those moves.
pub open spec fn correction_size(n: int, ds: Seq<i64>) -> int
    decreases ds.len(),
{
    if ds.len() == 0 {
        0
    } else {
        correction_size(n, ds.drop_last()) + if ds.last() > 0 {
            abs(trunc_div(n * ds.last(), UNIT as int))
        } else {
            0
        }
    }
}

/// Positional correction is exact: each contact point with positive depth `d`
/// moves the character by `n * d` (in fixed point, `trunc_div(n * d, UNIT)` on each
/// axis), each point independently of the others, while the character stays
/// within the simulated extent.
pub proof fn lemma_push_out_exact(p: FixedVec3, n: FixedVec3, ds: Seq<i64>)
    requires
        abs(p.x as int) + correction_size(n.x as int, ds) <= MAX_EXTENT,
        abs(p.y as int) + correction_size(n.y as int, ds) <= MAX_EXTENT,
        abs(p.z as int) + correction_size(n.z as int, ds) <= MAX_EXTENT,
    ensures
        push_out_all(p, n, ds) == (FixedVec3 {
            x: (p.x + correction(n.x as int, ds)) as i64,
            y: (p.y + correction(n.y as int, ds)) as i64,
            z: (p.z + correction(n.z as int, ds)) as i64,
        }),
    decreases ds.len(),
{
    if ds.len() > 0 {
        let pre = ds.drop_last();
        let d = ds.last();
        if d > 0 {
            assert(abs(trunc_div(n.x * d, UNIT as int)) >= 0);
            assert(abs(trunc_div(n.y * d, UNIT as int)) >= 0);
            assert(abs(trunc_div(n.z * d, UNIT as int)) >= 0);
        }
        lemma_correction_size(n.x as int, pre);
        lemma_correction_size(n.y as int, pre);
        lemma_correction_size(n.z as int, pre);
        lemma_push_out_exact(p, n, pre);
        lemma_correction_size(n.x as int, ds);
        lemma_correction_size(n.y as int, ds);
        lemma_correction_size(n.z as int, ds);
        let q = push_out_all(p, n, pre);
        assert(q.x == p.x + correction(n.x as int, pre));
        assert(q.y == p.y + correction(n.y as int, pre));
        assert(q.z == p.z + correction(n.z as int, pre));
    }
}

/// Component `axis` of `v`: 0 for `x`, 1 for `y`, 2 for `z`.
pub open spec fn component(v: FixedVec3, axis: int) -> int {
    if axis == 0 {
        v.x as int
    } else if axis == 1 {
        v.y as int
    } else {
        v.z as int
    }
}

/// The character-facing normal of manifold `m`, seen from the first body or the
/// second.
pub open spec fn facing_of(m: ContactManifold, first: bool) -> FixedVec3 {
    facing(if first { m.normal1 } else { m.normal2 })
}

/// The total move along `axis` from every positive-depth contact point of every
/// manifold in `ms`.
pub open spec fn manifolds_correction(ms: Seq<ContactManifold>, first: bool, axis: int) -> int
    decreases ms.len(),
{
    if ms.len() == 0 {
        0
    } else {
        manifolds_correction(ms.drop_last(), first, axis) + correction(
            component(facing_of(ms.last(), first), axis),
            ms.last().penetrations@,
        )
    }
}

/// The sum of the sizes of those moves.
pub open spec fn manifolds_size(ms: Seq<ContactManifold>, first: bool, axis: int) -> int
    decreases ms.len(),
{
    if ms.len() == 0 {
        0
    } else {
        manifolds_size(ms.drop_last(), first, axis) + correction_size(
            component(facing_of(ms.last(), first), axis),
            ms.last().penetrations@,
        )
    }
}

proof fn lemma_correction_size(n: int, ds: Seq<i64>)
    ensures
        abs(correction(n, ds)) <= correction_size(n, ds),
    decreases ds.len(),
{
    if ds.len() > 0 {
        lemma_correction_size(n, ds.drop_last());
    }
}

proof fn lemma_manifolds_size(ms: Seq<ContactManifold>, first: bool, axis: int)
    ensures
        abs(manifolds_correction(ms, first, axis)) <= manifolds_size(ms, first, axis),
    decreases ms.len(),
{
    if ms.len() > 0 {
        lemma_manifolds_size(ms.drop_last(), first, axis);
        lemma_correction_size(component(facing_of(ms.last(), first), axis), ms.last().penetrations@);
    }
}

/// Positional correction over every manifold of a contact is exact: each contact
/// point with positive depth, in every manifold, moves the character by its
/// share exactly once, and no other point moves it, while the character stays
/// within the simulated extent.
pub proof fn lemma_manifolds_exact(
    c: CharacterController,
    ms: Seq<ContactManifold>,
    first: bool,
    slope: Option<MaxSlopeAngle>,
)
    requires
        abs(c.position.x as int) + manifolds_size(ms, first, 0) <= MAX_EXTENT,
        abs(c.position.y as int) + manifolds_size(ms, first, 1) <= MAX_EXTENT,
        abs(c.position.z as int) + manifolds_size(ms, first, 2) <= MAX_EXTENT,
    ensures
        resolve_manifolds(c, ms, first, slope).position == (FixedVec3 {
            x: (c.position.x + manifolds_correction(ms, first, 0)) as i64,
            y: (c.position.y + manifolds_correction(ms, first, 1)) as i64,
            z: (c.position.z + manifolds_correction(ms, first, 2)) as i64,
        }),
    decreases ms.len(),
{
    if ms.len() == 0 {
        assert(c.position == FixedVec3 { x: c.position.x, y: c.position.y, z: c.position.z });
    } else {
        let pre = ms.drop_last();
        let m = ms.last();
        let n = facing_of(m, first);
        let ds = m.penetrations@;
        lemma_correction_size(n.x as int, ds);
        lemma_correction_size(n.y as int, ds);
        lemma_correction_size(n.z as int, ds);
        lemma_correction_size_nonneg(n.x as int, ds);
        lemma_correction_size_nonneg(n.y as int, ds);
        lemma_correction_size_nonneg(n.z as int, ds);
        lemma_manifolds_size(pre, first, 0);
        lemma_manifolds_size(pre, first, 1);
        lemma_manifolds_size(pre, first, 2);
        lemma_manifolds_exact(c, pre, first, slope);
        let q = resolve_manifolds(c, pre, first, slope).position;
        assert(q.x == c.position.x + manifolds_correction(pre, first, 0));
        assert(q.y == c.position.y + manifolds_correction(pre, first, 1));
        assert(q.z == c.position.z + manifolds_correction(pre, first, 2));
        lemma_push_out_exact(q, n, ds);
    }
}

proof fn lemma_correction_size_nonneg(n: int, ds: Seq<i64>)
    ensures
        correction_size(n, ds) >= 0,
    decreases ds.len(),
{
    if ds.len() > 0 {
        lemma_correction_size_nonneg(n, ds.drop_last());
    }
}

/// A contact whose normal has no horizontal component, such as a flat floor,
/// moves the character along the vertical axis only.
pub proof fn lemma_vertical_push_keeps_horizontal(p: FixedVec3, n: FixedVec3, ds: Seq<i64>)
    requires
        n.x == 0,
        n.z == 0,
        abs(p.x as int) <= MAX_EXTENT,
        abs(p.z as int) <= MAX_EXTENT,
    ensures
        push_out_all(p, n, ds).x == p.x,
        push_out_all(p, n, ds).z == p.z,
    decreases ds.len(),
{
    if ds.len() > 0 {
        lemma_vertical_push_keeps_horizontal(p, n, ds.drop_last());
        assert(trunc_div(0int * ds.last(), UNIT as int) == 0);
    }
}

/// Contacts whose character-facing normals all lack a horizontal component,
/// such as a flat floor, leave the character's horizontal position unchanged,
/// however many manifolds they hold.
pub proof fn lemma_floor_contacts_keep_horizontal(
    c: CharacterController,
    ms: Seq<ContactManifold>,
    first: bool,
    slope: Option<MaxSlopeAngle>,
)
    requires
        c.wf(),
        forall|k: int|
            0 <= k < ms.len() ==> (#[trigger] facing_of(ms[k], first)).x == 0 && facing_of(
                ms[k],
                first,
            ).z == 0,
    ensures
        resolve_manifolds(c, ms, first, slope).position.x == c.position.x,
        resolve_manifolds(c, ms, first, slope).position.z == c.position.z,
    decreases ms.len(),
{
    if ms.len() > 0 {
        let pre = ms.drop_last();
        assert forall|k: int| 0 <= k < pre.len() implies (#[trigger] facing_of(pre[k], first)).x
            == 0 && facing_of(pre[k], first).z == 0 by {
            assert(pre[k] == ms[k]);
        }
        lemma_floor_contacts_keep_horizontal(c, pre, first, slope);
        let q = resolve_manifolds(c, pre, first, slope).position;
        let m = ms.last();
        assert(facing_of(ms[ms.len() - 1], first).x == 0);
        lemma_vertical_push_keeps_horizontal(q, facing_of(m, first), m.penetrations@);
    }
}

/// Two characters overlapping by depth `d > 0` along the vertical: one contact
/// between them, the first above the second, moves the first up by exactly `d`
/// and leaves the second where it is, so the corrections along the two
/// character-facing normals add up to the depth, within the one resolution pass.
pub proof fn lemma_overlap_resolves(
    ks: Seq<CharacterController>,
    limits: Seq<Option<MaxSlopeAngle>>,
    c: Contacts,
    i: usize,
    j: usize,
    d: i64,
)
    requires
        0 <= i < ks.len(),
        0 <= j < ks.len(),
        i != j,
        limits.len() == ks.len(),
        c.during_current_substep,
        !c.sensor,
        c.body1 == Some(i),
        c.body2 == Some(j),
        c.manifolds@.len() == 1,
        c.manifolds@[0].normal1.x == 0,
        c.manifolds@[0].normal1.y == -UNIT,
        c.manifolds@[0].normal1.z == 0,
        c.manifolds@[0].penetrations@ == seq![d],
        d > 0,
        abs(ks[i as int].position.x as int) <= MAX_EXTENT,
        abs(ks[i as int].position.z as int) <= MAX_EXTENT,
        abs(ks[i as int].position.y + d) <= MAX_EXTENT,
    ensures
        resolve_contacts(ks, limits, seq![c])[i as int].position == (FixedVec3 {
            x: ks[i as int].position.x,
            y: (ks[i as int].position.y + d) as i64,
            z: ks[i as int].position.z,
        }),
        resolve_contacts(ks, limits, seq![c])[j as int] == ks[j as int],
{
    let cs = seq![c];
    assert(cs.drop_last() =~= Seq::<Contacts>::empty());
    let m = c.manifolds@[0];
    let n = facing(m.normal1);
    assert(n == FixedVec3 { x: 0, y: UNIT, z: 0 });
    assert(c.manifolds@.drop_last() =~= Seq::<ContactManifold>::empty());
    assert(m.penetrations@.drop_last() =~= Seq::<i64>::empty());
    let p = ks[i as int].position;
    assert(push_out_all(p, n, Seq::<i64>::empty()) == p);
    assert(trunc_div(UNIT * d, UNIT as int) == d) by {
        lemma_div_multiples_vanish(d as int, UNIT as int);
        assert(UNIT * d == d * UNIT) by (nonlinear_arith);
    }
    assert(trunc_div(0int * d, UNIT as int) == 0);
    assert(push_out_all(p, n, m.penetrations@) == push_out(p, n, d as int));
    assert(resolve_manifolds(ks[i as int], Seq::<ContactManifold>::empty(), true, limits[i as int]) == ks[i as int]);
    let r = resolve_manifolds(ks[i as int], c.manifolds@, true, limits[i as int]);
    assert(r == resolve_manifold(ks[i as int], n, m.penetrations@, limits[i as int]));
    assert(r.position == push_out(p, n, d as int));
    assert(resolve_contacts(ks, limits, Seq::<Contacts>::empty()) == ks);
    assert(contact_side(c, ks.len() as int) == Some((i as int, true)));
    assert(resolve_contacts(ks, limits, cs) == ks.update(i as int, r));
}

/// A contact normal steeper than the slope limit never changes the velocity, so
/// the character may slide; a walkable one (with no limit, every one) turns a
/// fall into it into a vertical speed of zero and leaves any other velocity alone.
pub proof fn lemma_slope_clamp(
    c: CharacterController,
    n: FixedVec3,
    ds: Seq<i64>,
    slope: Option<MaxSlopeAngle>,
)
    ensures
        slope is None ==> walkable(n, slope),
        !walkable(n, slope) ==> resolve_manifold(c, n, ds, slope).velocity == c.velocity,
        walkable(n, slope) ==> {
            &&& resolve_manifold(c, n, ds, slope).velocity.y >= 0
            &&& c.velocity.y < 0 ==> resolve_manifold(c, n, ds, slope).velocity == (FixedVec3 {
                x: c.velocity.x,
                y: 0,
                z: c.velocity.z,
            })
            &&& c.velocity.y >= 0 ==> resolve_manifold(c, n, ds, slope).velocity == c.velocity
        },
{
}

} // verus!
