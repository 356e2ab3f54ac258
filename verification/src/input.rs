//! From held keys to the wish of a tick.

use crate::fixed::UNIT;
use crate::settings::GameSettings;
use crate::state::{MovementState, WishDirection, WishSpeed};
use crate::vec3::Vec3;
use vstd::prelude::*;

verus! {

/// The movement keys as the input device reports them for one tick.
#[derive(Clone, Copy, Debug, PartialEq, Eq, Structural)]
pub struct InputKeys {
    /// Held: move toward negative `z`.
    pub forward: bool,
    /// Held: move toward positive `z`.
    pub back: bool,
    /// Held: move toward negative `x`.
    pub left: bool,
    /// Held: move toward positive `x`.
    pub right: bool,
    /// The jump key went down this tick.
    pub jump: bool,
    /// The jump key is held.
    pub jump_held: bool,
}

/// The pull of a pair of opposed keys along their axis: one unit toward the
/// key that is held, nothing if both or neither are.
pub open spec fn key_axis(negative: bool, positive: bool) -> int {
    if positive && !negative {
        UNIT as int
    } else if negative && !positive {
        -UNIT
    } else {
        0
    }
}

/// The direction the held keys point in, before it is normalised.
pub open spec fn key_direction(keys: InputKeys) -> Vec3 {
    Vec3 {
        x: key_axis(keys.left, keys.right) as i64,
        y: 0,
        z: key_axis(keys.forward, keys.back) as i64,
    }
}

/// A jump is asked for this tick: the jump key went down, or it is held and
/// the settings let a held key ask again.
pub open spec fn jump_requested(keys: InputKeys, cfg: GameSettings) -> bool {
    keys.jump || (cfg.auto_rejump && keys.jump_held)
}

/// The state with the wish that the held keys express: their normalised
/// direction, and as wish speed the speed cap of the current grounded state,
/// or zero where the keys give no direction.
pub open spec fn wished(s: MovementState, keys: InputKeys, cfg: GameSettings) -> MovementState {
    MovementState {
        wish_direction: WishDirection(key_direction(keys).normalized()),
        wish_speed: WishSpeed(
            if key_direction(keys).is_zero() {
                0
            } else {
                cfg.speed_cap(s.grounded)
            },
        ),
        ..s
    }
}

/// The pull of a pair of opposed keys along their axis.
pub fn axis(negative: bool, positive: bool) -> (a: i64)
    ensures
        a == key_axis(negative, positive),
{
    if positive && !negative {
        UNIT
    } else if negative && !positive {
        -UNIT
    } else {
        0
    }
}

/// Write the wish of this tick into the state: the normalised direction of
/// the held keys, and as wish speed the speed cap of the current grounded
/// state, or zero where the keys give no direction. Returns whether a jump
/// is asked for.
pub fn handle_input(keys: &InputKeys, settings: &GameSettings, state: &mut MovementState) -> (
    requested: bool
)
    requires
        old(state).wf(),
        settings.wf(),
    ensures
        requested == jump_requested(*keys, *settings),
        *final(state) == wished(*old(state), *keys, *settings),
        final(state).wish_direction.0 == key_direction(*keys).normalized(),
        final(state).wish_speed.0 == (if key_direction(*keys).is_zero() {
            0
        } else {
            settings.speed_cap(old(state).grounded)
        }),
        final(state).velocity == old(state).velocity,
        final(state).grounded == old(state).grounded,
        final(state).jump == old(state).jump,
        final(state).wf(),
{
    let direction = Vec3 { x: axis(keys.left, keys.right), y: 0, z: axis(keys.forward, keys.back) };
    let speed = if direction.is_zero() {
        0
    } else {
        settings.speed_cap(state.grounded)
    };
    state.wish_direction = WishDirection(direction.normalize_or_zero());
    state.wish_speed = WishSpeed(speed);
    keys.jump || (settings.auto_rejump && keys.jump_held)
}

} // verus!
