//! The position resolver: the displacement to ask of the collision service,
//! and what to make of its answer. The service itself is called by the
//! embedding program between the two halves.

use crate::fixed::{
    div_toward_zero, lemma_div_toward_zero, lemma_product_bound, magnitude, product, quotient,
    MAX_SPEED, SECOND, WORLD_LIMIT,
};
use crate::integrator::max_int;
use crate::state::{MovementState, Velocity};
use crate::vec3::{lemma_length_bounds_components, lemma_square_bounds, Vec3};
use vstd::prelude::*;

verus! {

/// Longest displacement accepted for one tick: 100 units.
pub const MAX_STEP: i64 = 100_000_000;

/// What the collision service answers to an attempted move.
#[derive(Clone, Copy, Debug, PartialEq, Eq, Structural)]
pub struct MoveOutcome {
    /// The displacement that was possible, which may be shorter than asked.
    pub resolved_delta: Vec3,
    /// Whether the character touches a floor after the move.
    pub grounded: bool,
}

/// The ground plane that stands in when no collision service is there.
#[derive(Clone, Copy, Debug, PartialEq, Eq, Structural)]
pub struct FloorPlane {
    /// Height of the plane.
    pub level: i64,
    /// How far above the plane the character still counts as grounded.
    pub epsilon: i64,
}

impl FloorPlane {
    /// The plane lies within the world, and the tolerance is not negative.
    pub open spec fn wf(self) -> bool {
        &&& magnitude(self.level as int) <= WORLD_LIMIT
        &&& 0 <= self.epsilon <= WORLD_LIMIT
    }

    /// Whether the plane is well-formed.
    pub fn is_valid(&self) -> (b: bool)
        ensures
            b == self.wf(),
    {
        -WORLD_LIMIT <= self.level && self.level <= WORLD_LIMIT && 0 <= self.epsilon
            && self.epsilon <= WORLD_LIMIT
    }

    /// Where a move by `delta` from `position` ends above this plane, and
    /// whether the character is grounded there.
    pub fn settle(&self, position: Vec3, delta: Vec3) -> (r: (Vec3, bool))
        requires
            self.wf(),
        ensures
            r == floor_contact(position, delta, *self),
            in_world(position) ==> in_world(r.0),
    {
        let target = advance(position, delta);
        let y = if target.y < self.level {
            self.level
        } else {
            target.y
        };
        let grounded = y as i128 <= self.level as i128 + self.epsilon as i128;
        (Vec3 { x: target.x, y, z: target.z }, grounded)
    }
}

/// One component of velocity times the tick, in fixed point.
pub open spec fn displaced(v: int, dt: int) -> int {
    div_toward_zero(v * dt, SECOND as int)
}

/// The displacement to attempt in a tick of `dt` microseconds: velocity times
/// `dt`, or zero if that is longer than `MAX_STEP`.
pub open spec fn spec_raw_delta(v: Vec3, dt: u64) -> Vec3 {
    let x = displaced(v.x as int, dt as int);
    let y = displaced(v.y as int, dt as int);
    let z = displaced(v.z as int, dt as int);
    if x * x + y * y + z * z <= MAX_STEP * MAX_STEP {
        Vec3 { x: x as i64, y: y as i64, z: z as i64 }
    } else {
        Vec3 { x: 0, y: 0, z: 0 }
    }
}

/// The position lies within the world: no coordinate exceeds `WORLD_LIMIT`.
pub open spec fn in_world(p: Vec3) -> bool {
    p.within(WORLD_LIMIT as int)
}

/// The position after a move by `delta`, if that lies within the world;
/// else the position as it was.
pub open spec fn advanced(p: Vec3, delta: Vec3) -> Vec3 {
    if magnitude(p.x + delta.x) <= WORLD_LIMIT && magnitude(p.y + delta.y) <= WORLD_LIMIT
        && magnitude(p.z + delta.z) <= WORLD_LIMIT {
        Vec3 { x: (p.x + delta.x) as i64, y: (p.y + delta.y) as i64, z: (p.z + delta.z) as i64 }
    } else {
        p
    }
}

/// The fallback without a collision service: the move is made, the height is
/// held at the floor level, and the character is grounded within `epsilon`
/// of the floor.
pub open spec fn floor_contact(p: Vec3, delta: Vec3, floor: FloorPlane) -> (Vec3, bool) {
    let target = advanced(p, delta);
    let y = max_int(target.y as int, floor.level as int);
    (Vec3 { x: target.x, y: y as i64, z: target.z }, y <= floor.level + floor.epsilon)
}

/// The position and the grounded signal after the tick: from the service's
/// answer where there is one, from the floor plane where there is none.
pub open spec fn contact_result(
    s: MovementState,
    position: Vec3,
    dt: u64,
    contact: Option<MoveOutcome>,
    floor: FloorPlane,
) -> (Vec3, bool) {
    match contact {
        Some(outcome) => (advanced(position, outcome.resolved_delta), outcome.grounded),
        None => floor_contact(position, spec_raw_delta(s.velocity.0, dt), floor),
    }
}

/// The state after the tick's move: the grounded signal is taken over, and a
/// downward or zero vertical velocity is zeroed on floor contact.
pub open spec fn landed(s: MovementState, grounded: bool) -> MovementState {
    MovementState {
        velocity: Velocity(
            Vec3 {
                y: if grounded && s.velocity.0.y <= 0 {
                    0
                } else {
                    s.velocity.0.y
                },
                ..s.velocity.0
            },
        ),
        grounded,
        ..s
    }
}

/// The displacement to attempt this tick.
pub fn raw_delta(state: &MovementState, dt: u64) -> (d: Vec3)
    requires
        state.wf(),
    ensures
        d == spec_raw_delta(state.velocity.0, dt),
        d.length_squared() <= MAX_STEP * MAX_STEP,
        d.within(MAX_STEP as int),
{
    let v = state.velocity.0;
    proof {
        lemma_product_bound(v.x as int, dt as int, MAX_SPEED as int, 0x1_0000_0000_0000_0000);
        lemma_product_bound(v.y as int, dt as int, MAX_SPEED as int, 0x1_0000_0000_0000_0000);
        lemma_product_bound(v.z as int, dt as int, MAX_SPEED as int, 0x1_0000_0000_0000_0000);
        lemma_div_toward_zero(v.x * dt, SECOND as int);
        lemma_div_toward_zero(v.y * dt, SECOND as int);
        lemma_div_toward_zero(v.z * dt, SECOND as int);
    }
    let x = quotient((v.x as i128) * (dt as i128), SECOND as i128);
    let y = quotient((v.y as i128) * (dt as i128), SECOND as i128);
    let z = quotient((v.z as i128) * (dt as i128), SECOND as i128);
    let limit = MAX_STEP as i128;
    proof {
        assert(MAX_STEP * MAX_STEP == 10_000_000_000_000_000) by (nonlinear_arith);
        if x * x + y * y + z * z <= MAX_STEP * MAX_STEP {
            lemma_length_bounds_components(x as int, y as int, z as int, MAX_STEP as int);
        }
    }
    if x < -limit || x > limit || y < -limit || y > limit || z < -limit || z > limit {
        return Vec3::zero();
    }
    let xx = product(x as i64, x as i64);
    let yy = product(y as i64, y as i64);
    let zz = product(z as i64, z as i64);
    proof {
        lemma_square_bounds(x as int, MAX_STEP as int);
        lemma_square_bounds(y as int, MAX_STEP as int);
        lemma_square_bounds(z as int, MAX_STEP as int);
    }
    if xx + yy + zz <= 10_000_000_000_000_000 {
        Vec3 { x: x as i64, y: y as i64, z: z as i64 }
    } else {
        Vec3::zero()
    }
}

/// The position after a move by `delta`, if that lies within the world.
pub fn advance(position: Vec3, delta: Vec3) -> (p: Vec3)
    ensures
        p == advanced(position, delta),
        in_world(position) ==> in_world(p),
{
    let x: i128 = position.x as i128 + delta.x as i128;
    let y: i128 = position.y as i128 + delta.y as i128;
    let z: i128 = position.z as i128 + delta.z as i128;
    let limit = WORLD_LIMIT as i128;
    if -limit <= x && x <= limit && -limit <= y && y <= limit && -limit <= z && z <= limit {
        Vec3 { x: x as i64, y: y as i64, z: z as i64 }
    } else {
        position
    }
}

/// Finish the tick's move. `contact` is the collision service's answer to
/// the attempt to move by `raw_delta`, or `None` where no service answered:
/// then the floor plane decides. Returns the new position; the state takes
/// the grounded signal, and loses its downward velocity on floor contact.
pub fn move_kinematic_player_by_velocity(
    state: &mut MovementState,
    position: Vec3,
    dt: u64,
    contact: Option<MoveOutcome>,
    floor: &FloorPlane,
) -> (new_position: Vec3)
    requires
        old(state).wf(),
        floor.wf(),
    ensures
        new_position == contact_result(*old(state), position, dt, contact, *floor).0,
        *final(state) == landed(
            *old(state),
            contact_result(*old(state), position, dt, contact, *floor).1,
        ),
        final(state).wf(),
        in_world(position) ==> in_world(new_position),
        final(state).velocity.0.x == old(state).velocity.0.x,
        final(state).velocity.0.z == old(state).velocity.0.z,
        final(state).velocity.0.within(MAX_SPEED as int),
{
    let (new_position, grounded) = match contact {
        Some(outcome) => (advance(position, outcome.resolved_delta), outcome.grounded),
        None => {
            let delta = raw_delta(state, dt);
            floor.settle(position, delta)
        },
    };
    if grounded && state.velocity.0.y <= 0 {
        state.velocity.0.y = 0;
    }
    state.grounded = grounded;
    new_position
}

} // verus!
