//! The jump controller: a three-phase state machine that grants a jump
//! impulse and runs the cooldown that follows it.

use crate::settings::GameSettings;
use crate::state::{Jump, JumpPhase, MovementState, Velocity};
use crate::vec3::Vec3;
use vstd::prelude::*;

verus! {

/// A requested jump is granted: the character is in the `Grounded` phase and
/// no cooldown is running.
pub open spec fn jump_fires(s: MovementState, jump_requested: bool) -> bool {
    jump_requested && s.jump.phase == JumpPhase::Grounded && s.jump.cooldown_remaining == 0
}

/// The cooldown after a tick of `dt` microseconds: it runs down, to zero at
/// the least, in every phase but `Grounded`.
pub open spec fn cooled(j: Jump, dt: u64) -> u64 {
    if j.phase == JumpPhase::Grounded {
        j.cooldown_remaining
    } else if j.cooldown_remaining > dt {
        (j.cooldown_remaining - dt) as u64
    } else {
        0
    }
}

/// The phase after a tick in which no jump was granted: `Airborne` off the
/// ground; on the ground `Grounded` once the cooldown has elapsed, and
/// `CoolingDown` until then.
pub open spec fn settled_phase(grounded: bool, remaining: u64) -> JumpPhase {
    if !grounded {
        JumpPhase::Airborne
    } else if remaining == 0 {
        JumpPhase::Grounded
    } else {
        JumpPhase::CoolingDown
    }
}

/// The state after one tick of the jump controller. A granted jump sets the
/// vertical velocity to the jump force, starts the cooldown and enters
/// `Airborne`; otherwise the cooldown runs and the phase follows the grounded
/// signal, and the velocity is left alone.
pub open spec fn jump_stepped(
    s: MovementState,
    cfg: GameSettings,
    jump_requested: bool,
    dt: u64,
) -> MovementState {
    if jump_fires(s, jump_requested) {
        MovementState {
            velocity: Velocity(Vec3 { y: cfg.jump_force, ..s.velocity.0 }),
            jump: Jump { phase: JumpPhase::Airborne, cooldown_remaining: cfg.jump_cooldown },
            ..s
        }
    } else {
        let remaining = cooled(s.jump, dt);
        MovementState {
            jump: Jump {
                phase: settled_phase(s.grounded, remaining),
                cooldown_remaining: remaining,
            },
            ..s
        }
    }
}

/// Run the jump controller for one tick of `dt` microseconds, with the jump
/// input edge of this tick. Returns whether the jump impulse was applied.
pub fn update_jump(
    state: &mut MovementState,
    settings: &GameSettings,
    jump_requested: bool,
    dt: u64,
) -> (fired: bool)
    requires
        old(state).wf(),
        settings.wf(),
    ensures
        *final(state) == jump_stepped(*old(state), *settings, jump_requested, dt),
        fired == jump_fires(*old(state), jump_requested),
        fired ==> final(state).jump.phase == JumpPhase::Airborne && final(state).velocity.0.y
            == settings.jump_force,
        !fired ==> final(state).velocity == old(state).velocity,
        final(state).wf(),
{
    let grounded_phase = match state.jump.phase {
        JumpPhase::Grounded => true,
        _ => false,
    };
    if jump_requested && grounded_phase && state.jump.can_jump() {
        state.velocity.0.y = settings.jump_force;
        state.jump =
            Jump { phase: JumpPhase::Airborne, cooldown_remaining: settings.jump_cooldown };
        return true;
    }
    let remaining = if grounded_phase {
        state.jump.cooldown_remaining
    } else if state.jump.cooldown_remaining > dt {
        state.jump.cooldown_remaining - dt
    } else {
        0
    };
    let phase = if !state.grounded {
        JumpPhase::Airborne
    } else if remaining == 0 {
        JumpPhase::Grounded
    } else {
        JumpPhase::CoolingDown
    };
    state.jump = Jump { phase, cooldown_remaining: remaining };
    false
}

/// A jump request made while the cooldown runs changes nothing: the tick
/// ends in the same state as it would without the request.
pub proof fn lemma_request_during_cooldown_is_ignored(
    s: MovementState,
    cfg: GameSettings,
    dt: u64,
)
    requires
        s.jump.cooldown_remaining > 0,
    ensures
        !jump_fires(s, true),
        jump_stepped(s, cfg, true, dt) == jump_stepped(s, cfg, false, dt),
{
}

/// The impulse is granted only out of the `Grounded` phase, and it leaves
/// that phase: the tick after a granted jump grants none, whatever is
/// requested.
pub proof fn lemma_no_impulse_right_after_jump(
    s: MovementState,
    cfg: GameSettings,
    first_request: bool,
    second_request: bool,
    dt: u64,
)
    requires
        jump_fires(s, first_request),
    ensures
        jump_stepped(s, cfg, first_request, dt).jump.phase == JumpPhase::Airborne,
        !jump_fires(jump_stepped(s, cfg, first_request, dt), second_request),
{
}

/// Outside the `Grounded` phase no impulse is granted, and a tick without an
/// impulse reaches `Grounded` only with the grounded signal set and the
/// cooldown elapsed: between two impulses the character has landed.
pub proof fn lemma_impulse_needs_landing(
    s: MovementState,
    cfg: GameSettings,
    jump_requested: bool,
    dt: u64,
)
    requires
        s.jump.phase != JumpPhase::Grounded,
    ensures
        !jump_fires(s, jump_requested),
        jump_stepped(s, cfg, jump_requested, dt).velocity == s.velocity,
        jump_stepped(s, cfg, jump_requested, dt).jump.phase == JumpPhase::Grounded ==> s.grounded
            && cooled(s.jump, dt) == 0,
{
}

/// The cooldown never grows in a tick that grants no jump, and the
/// well-formedness of the jump state is kept by every tick.
pub proof fn lemma_cooldown_runs_down(
    s: MovementState,
    cfg: GameSettings,
    jump_requested: bool,
    dt: u64,
)
    requires
        s.jump.wf(),
    ensures
        jump_stepped(s, cfg, jump_requested, dt).jump.wf(),
        !jump_fires(s, jump_requested) ==> jump_stepped(
            s,
            cfg,
            jump_requested,
            dt,
        ).jump.cooldown_remaining <= s.jump.cooldown_remaining,
        !jump_fires(s, jump_requested) && s.jump.phase == JumpPhase::Grounded ==> jump_stepped(
            s,
            cfg,
            jump_requested,
            dt,
        ).jump.cooldown_remaining == s.jump.cooldown_remaining,
{
}

} // verus!
