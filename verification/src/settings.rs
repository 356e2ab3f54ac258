//! Movement tuning, fixed for a session and handed to every component.

use crate::fixed::MAX_SPEED;
use vstd::prelude::*;

verus! {

/// The tuning of one character's movement. Speeds, accelerations and forces
/// are fixed-point scalars; the cooldown is in microseconds.
#[derive(Clone, Copy, Debug, PartialEq, Eq, Structural)]
pub struct GameSettings {
    /// Horizontal speed cap while grounded.
    pub max_ground_speed: i64,
    /// Horizontal speed cap while airborne.
    pub max_air_speed: i64,
    /// Acceleration rate while grounded.
    pub ground_accel: i64,
    /// Acceleration rate while airborne.
    pub air_accel: i64,
    /// Vertical acceleration; negative, since `y` points up.
    pub gravity: i64,
    /// Vertical velocity given by a jump.
    pub jump_force: i64,
    /// Time after a jump during which no further jump is granted.
    pub jump_cooldown: u64,
    /// Largest downward speed.
    pub terminal_fall_speed: i64,
    /// Rate of the decay of horizontal velocity on the ground.
    pub friction_coefficient: i64,
    /// Whether holding the jump key asks for a jump on every tick, so that
    /// the character jumps again the instant it may.
    pub auto_rejump: bool,
}

impl GameSettings {
    /// Every numeric option is positive, except gravity, which is negative,
    /// and no scalar exceeds `MAX_SPEED` in magnitude.
    pub open spec fn wf(self) -> bool {
        &&& 0 < self.max_ground_speed <= MAX_SPEED
        &&& 0 < self.max_air_speed <= MAX_SPEED
        &&& 0 < self.ground_accel <= MAX_SPEED
        &&& 0 < self.air_accel <= MAX_SPEED
        &&& -MAX_SPEED <= self.gravity < 0
        &&& 0 < self.jump_force <= MAX_SPEED
        &&& 0 < self.jump_cooldown
        &&& 0 < self.terminal_fall_speed <= MAX_SPEED
        &&& 0 < self.friction_coefficient <= MAX_SPEED
    }

    /// The speed cap that applies in the given grounded state.
    pub open spec fn spec_speed_cap(&self, grounded: bool) -> i64 {
        if grounded {
            self.max_ground_speed
        } else {
            self.max_air_speed
        }
    }

    /// The acceleration rate that applies in the given grounded state.
    pub open spec fn spec_accel(&self, grounded: bool) -> i64 {
        if grounded {
            self.ground_accel
        } else {
            self.air_accel
        }
    }

    /// Whether the settings are well-formed.
    pub fn is_valid(&self) -> (b: bool)
        ensures
            b == self.wf(),
    {
        0 < self.max_ground_speed && self.max_ground_speed <= MAX_SPEED && 0 < self.max_air_speed
            && self.max_air_speed <= MAX_SPEED && 0 < self.ground_accel && self.ground_accel
            <= MAX_SPEED && 0 < self.air_accel && self.air_accel <= MAX_SPEED && -MAX_SPEED
            <= self.gravity && self.gravity < 0 && 0 < self.jump_force && self.jump_force
            <= MAX_SPEED && 0 < self.jump_cooldown && 0 < self.terminal_fall_speed
            && self.terminal_fall_speed <= MAX_SPEED && 0 < self.friction_coefficient
            && self.friction_coefficient <= MAX_SPEED
    }

    /// The settings, if they are well-formed; `None` for an invalid
    /// configuration.
    pub fn validated(self) -> (r: Option<GameSettings>)
        ensures
            self.wf() ==> r == Some(self),
            !self.wf() ==> r.is_none(),
    {
        if self.is_valid() {
            Some(self)
        } else {
            None
        }
    }

    /// The speed cap that applies in the given grounded state.
    #[verifier::when_used_as_spec(spec_speed_cap)]
    pub fn speed_cap(&self, grounded: bool) -> (cap: i64)
        ensures
            cap == self.spec_speed_cap(grounded),
    {
        if grounded {
            self.max_ground_speed
        } else {
            self.max_air_speed
        }
    }

    /// The acceleration rate that applies in the given grounded state.
    #[verifier::when_used_as_spec(spec_accel)]
    pub fn accel(&self, grounded: bool) -> (rate: i64)
        ensures
            rate == self.spec_accel(grounded),
    {
        if grounded {
            self.ground_accel
        } else {
            self.air_accel
        }
    }
}

impl Default for GameSettings {
    /// Ground and air speed 8, ground acceleration 10, air acceleration 7,
    /// gravity -9.81, jump force 5, a quarter of a second of cooldown,
    /// terminal fall speed 50, friction 6, and no jump without a fresh key
    /// press.
    fn default() -> (s: GameSettings)
        ensures
            s.wf(),
            s.max_ground_speed == 8_000_000,
            s.max_air_speed == 8_000_000,
            s.ground_accel == 10_000_000,
            s.air_accel == 7_000_000,
            s.gravity == -9_810_000,
            s.jump_force == 5_000_000,
            s.jump_cooldown == 250_000,
            s.terminal_fall_speed == 50_000_000,
            s.friction_coefficient == 6_000_000,
            !s.auto_rejump,
    {
        GameSettings {
            max_ground_speed: 8_000_000,
            max_air_speed: 8_000_000,
            ground_accel: 10_000_000,
            air_accel: 7_000_000,
            gravity: -9_810_000,
            jump_force: 5_000_000,
            jump_cooldown: 250_000,
            terminal_fall_speed: 50_000_000,
            friction_coefficient: 6_000_000,
            auto_rejump: false,
        }
    }
}

} // verus!
