//! The per-character record that the movement components read and mutate.

use crate::fixed::{MAX_SPEED, UNIT};
use crate::vec3::Vec3;
use vstd::prelude::*;

verus! {

/// World-space linear velocity.
#[derive(Clone, Copy, Debug, PartialEq, Eq, Structural)]
pub struct Velocity(pub Vec3);

/// The desired direction of horizontal movement: zero, or horizontal and of
/// length one up to rounding.
#[derive(Clone, Copy, Debug, PartialEq, Eq, Structural)]
pub struct WishDirection(pub Vec3);

/// The desired horizontal speed.
#[derive(Clone, Copy, Debug, PartialEq, Eq, Structural)]
pub struct WishSpeed(pub i64);

/// Where the character stands in the jump cycle.
#[derive(Clone, Copy, Debug, PartialEq, Eq, Structural)]
pub enum JumpPhase {
    /// On the ground and free to jump.
    Grounded,
    /// Off the ground, after a jump or a ledge.
    Airborne,
    /// Back on the ground while the cooldown of the last jump still runs.
    CoolingDown,
}

/// The jump state machine's state.
#[derive(Clone, Copy, Debug, PartialEq, Eq, Structural)]
pub struct Jump {
    pub phase: JumpPhase,
    /// Microseconds until the next jump may be granted.
    pub cooldown_remaining: u64,
}

impl Jump {
    /// The `Grounded` phase is held only with the cooldown elapsed.
    pub open spec fn wf(self) -> bool {
        self.phase == JumpPhase::Grounded ==> self.cooldown_remaining == 0
    }

    /// The cooldown has elapsed.
    pub open spec fn spec_can_jump(&self) -> bool {
        self.cooldown_remaining == 0
    }

    /// Whether the cooldown has elapsed.
    #[verifier::when_used_as_spec(spec_can_jump)]
    pub fn can_jump(&self) -> (b: bool)
        ensures
            b == self.spec_can_jump(),
    {
        self.cooldown_remaining == 0
    }

    /// Whether the state is well-formed.
    pub fn is_valid(&self) -> (b: bool)
        ensures
            b == self.wf(),
    {
        match self.phase {
            JumpPhase::Grounded => self.cooldown_remaining == 0,
            _ => true,
        }
    }
}

impl Default for Jump {
    /// On the ground, with no cooldown running.
    fn default() -> (j: Jump)
        ensures
            j == (Jump { phase: JumpPhase::Grounded, cooldown_remaining: 0 }),
            j.wf(),
    {
        Jump { phase: JumpPhase::Grounded, cooldown_remaining: 0 }
    }
}

/// Everything the movement core keeps about one character between ticks.
#[derive(Clone, Copy, Debug, PartialEq, Eq, Structural)]
pub struct MovementState {
    pub velocity: Velocity,
    pub wish_direction: WishDirection,
    pub wish_speed: WishSpeed,
    /// Whether the character rests on a walkable surface this tick.
    pub grounded: bool,
    pub jump: Jump,
}

impl MovementState {
    /// The velocity is sane, the wish direction is horizontal and zero or of
    /// length one, the wish speed is sane and not negative, and the jump
    /// state is well-formed.
    pub open spec fn wf(self) -> bool {
        &&& self.velocity.0.within(MAX_SPEED as int)
        &&& self.wish_direction.0.within(UNIT as int)
        &&& self.wish_direction.0.is_unit_or_zero()
        &&& self.wish_direction.0.y == 0
        &&& 0 <= self.wish_speed.0 <= MAX_SPEED
        &&& self.jump.wf()
    }

    /// The state of a character that has just spawned: at rest on the ground,
    /// wishing nothing, free to jump.
    pub open spec fn initial() -> MovementState {
        MovementState {
            velocity: Velocity(Vec3 { x: 0, y: 0, z: 0 }),
            wish_direction: WishDirection(Vec3 { x: 0, y: 0, z: 0 }),
            wish_speed: WishSpeed(0),
            grounded: true,
            jump: Jump { phase: JumpPhase::Grounded, cooldown_remaining: 0 },
        }
    }

    /// The state of a character that has just spawned.
    pub fn spawn() -> (s: MovementState)
        ensures
            s == MovementState::initial(),
            s.wf(),
    {
        MovementState {
            velocity: Velocity(Vec3 { x: 0, y: 0, z: 0 }),
            wish_direction: WishDirection(Vec3 { x: 0, y: 0, z: 0 }),
            wish_speed: WishSpeed(0),
            grounded: true,
            jump: Jump { phase: JumpPhase::Grounded, cooldown_remaining: 0 },
        }
    }

    /// Whether the state is well-formed.
    pub fn is_valid(&self) -> (b: bool)
        ensures
            b == self.wf(),
    {
        self.velocity.0.is_within(MAX_SPEED) && self.wish_direction.0.is_direction()
            && self.wish_direction.0.y == 0 && 0 <= self.wish_speed.0 && self.wish_speed.0
            <= MAX_SPEED && self.jump.is_valid()
    }

    /// State the wish of this tick. The horizontal part of the direction is
    /// normalised, and the speed is brought into the range from zero to
    /// `MAX_SPEED`.
    pub fn set_wish(&mut self, direction: Vec3, speed: i64)
        requires
            old(self).wf(),
        ensures
            final(self).wf(),
            final(self).wish_direction.0 == direction.flattened().normalized(),
            final(self).wish_speed.0 == (if speed < 0 {
                0
            } else if speed > MAX_SPEED {
                MAX_SPEED
            } else {
                speed
            }),
            final(self).velocity == old(self).velocity,
            final(self).grounded == old(self).grounded,
            final(self).jump == old(self).jump,
    {
        self.wish_direction = WishDirection(direction.flattened().normalize_or_zero());
        self.wish_speed = WishSpeed(
            if speed < 0 {
                0
            } else if speed > MAX_SPEED {
                MAX_SPEED
            } else {
                speed
            },
        );
    }
}

} // verus!
