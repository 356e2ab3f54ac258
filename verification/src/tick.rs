//! The fixed order of one tick, and what holds of every tick.

use crate::fixed::{magnitude, MAX_SPEED, UNIT};
use crate::input::{handle_input, jump_requested, key_direction, wished, InputKeys};
use crate::integrator::{
    accel_speed, apply_acceleration_cpma, clamped, friction_factor, integrated,
    integrated_velocity, lemma_accel_speed_bounds, lemma_accelerated_bounds,
    lemma_clamped_bounds, lemma_friction_factor_bounds, lemma_integrated_is_sane_and_capped,
    lemma_slowed_bounds, lemma_smaller_square, slowed,
};
use crate::jump::{jump_stepped, update_jump};
use crate::resolver::{
    contact_result, in_world, landed, move_kinematic_player_by_velocity, raw_delta,
    spec_raw_delta, FloorPlane, MoveOutcome,
};
use crate::settings::GameSettings;
use crate::state::MovementState;
use crate::vec3::{lemma_normalized_is_unit, lemma_normalized_stays_level, Vec3};
use vstd::prelude::*;

verus! {

/// The state once the jump controller and then the integrator have run.
pub open spec fn steered(
    s: MovementState,
    cfg: GameSettings,
    jump_requested: bool,
    dt: u64,
) -> MovementState {
    integrated(jump_stepped(s, cfg, jump_requested, dt), cfg, dt)
}

/// The position and the state at the end of a whole tick, for a given
/// answer of the collision service.
pub open spec fn ticked(
    s: MovementState,
    cfg: GameSettings,
    jump_requested: bool,
    dt: u64,
    position: Vec3,
    contact: Option<MoveOutcome>,
    floor: FloorPlane,
) -> (Vec3, MovementState) {
    let moving = steered(s, cfg, jump_requested, dt);
    let r = contact_result(moving, position, dt, contact, floor);
    (r.0, landed(moving, r.1))
}

/// What one tick takes from outside: the keys, the time that has passed,
/// and the collision service's answer, if there is one.
#[derive(Clone, Copy, Debug, PartialEq, Eq, Structural)]
pub struct TickInput {
    pub keys: InputKeys,
    /// Microseconds since the last tick.
    pub dt: u64,
    pub contact: Option<MoveOutcome>,
}

/// The position and the state at the end of a whole tick that starts with
/// the wish of the keys.
pub open spec fn stepped(
    s: MovementState,
    position: Vec3,
    cfg: GameSettings,
    floor: FloorPlane,
    input: TickInput,
) -> (Vec3, MovementState) {
    ticked(
        wished(s, input.keys, cfg),
        cfg,
        jump_requested(input.keys, cfg),
        input.dt,
        position,
        input.contact,
        floor,
    )
}

/// The position and the state after a run of ticks, one for each input in
/// turn.
pub open spec fn ran(
    s: MovementState,
    position: Vec3,
    cfg: GameSettings,
    floor: FloorPlane,
    inputs: Seq<TickInput>,
) -> (Vec3, MovementState)
    decreases inputs.len(),
{
    if inputs.len() == 0 {
        (position, s)
    } else {
        let before = ran(s, position, cfg, floor, inputs.drop_last());
        stepped(before.1, before.0, cfg, floor, inputs.last())
    }
}

/// The state after `ticks` ticks of the integrator alone.
pub open spec fn coasted(s: MovementState, cfg: GameSettings, dt: u64, ticks: nat) -> MovementState
    decreases ticks,
{
    if ticks == 0 {
        s
    } else {
        coasted(integrated(s, cfg, dt), cfg, dt, (ticks - 1) as nat)
    }
}

/// The sum of the magnitudes of the two horizontal velocity components.
pub open spec fn horizontal_size(s: MovementState) -> int {
    magnitude(s.velocity.0.x as int) + magnitude(s.velocity.0.z as int)
}

/// Run the first half of a tick in its fixed order: take the wish from the
/// keys, run the jump controller, integrate the velocity. Returns the
/// displacement to ask of the collision service.
pub fn begin_tick(
    state: &mut MovementState,
    settings: &GameSettings,
    keys: &InputKeys,
    dt: u64,
) -> (delta: Vec3)
    requires
        old(state).wf(),
        settings.wf(),
    ensures
        *final(state) == steered(
            wished(*old(state), *keys, *settings),
            *settings,
            jump_requested(*keys, *settings),
            dt,
        ),
        delta == spec_raw_delta(final(state).velocity.0, dt),
        final(state).wf(),
{
    let requested = handle_input(keys, settings, state);
    update_jump(state, settings, requested, dt);
    apply_acceleration_cpma(state, settings, dt);
    raw_delta(state, dt)
}

/// Run a whole tick in its fixed order, with the collision service's answer
/// given beforehand: wish, jump controller, integrator, position resolver.
/// Returns the new position.
pub fn tick(
    state: &mut MovementState,
    position: Vec3,
    settings: &GameSettings,
    floor: &FloorPlane,
    input: &TickInput,
) -> (new_position: Vec3)
    requires
        old(state).wf(),
        settings.wf(),
        floor.wf(),
    ensures
        new_position == stepped(*old(state), position, *settings, *floor, *input).0,
        *final(state) == stepped(*old(state), position, *settings, *floor, *input).1,
        final(state).wf(),
        in_world(position) ==> in_world(new_position),
{
    begin_tick(state, settings, &input.keys, input.dt);
    move_kinematic_player_by_velocity(state, position, input.dt, input.contact, floor)
}

/// After every tick the state is well-formed, the velocity is no longer
/// than `MAX_SPEED`, and a position that was within the world still is,
/// whatever the collision service answered.
pub proof fn lemma_tick_stays_sane(
    s: MovementState,
    cfg: GameSettings,
    jump_requested: bool,
    dt: u64,
    position: Vec3,
    contact: Option<MoveOutcome>,
    floor: FloorPlane,
)
    requires
        s.wf(),
        cfg.wf(),
        floor.wf(),
    ensures
        ticked(s, cfg, jump_requested, dt, position, contact, floor).1.wf(),
        ticked(s, cfg, jump_requested, dt, position, contact, floor).1.velocity.0.length_squared()
            <= MAX_SPEED * MAX_SPEED,
        in_world(position) ==> in_world(
            ticked(s, cfg, jump_requested, dt, position, contact, floor).0,
        ),
{
    let jumped = jump_stepped(s, cfg, jump_requested, dt);
    lemma_integrated_is_sane_and_capped(jumped, cfg, dt);
    let moving = steered(s, cfg, jump_requested, dt);
    let end = ticked(s, cfg, jump_requested, dt, position, contact, floor).1;
    lemma_smaller_square(end.velocity.0.x as int, moving.velocity.0.x as int);
    lemma_smaller_square(end.velocity.0.y as int, moving.velocity.0.y as int);
    lemma_smaller_square(end.velocity.0.z as int, moving.velocity.0.z as int);
}

/// After every tick the horizontal speed is within the cap of the grounded
/// state the tick began in; so it is within the cap of the grounded state
/// at the end of the tick whenever the collision service did not change
/// that state.
pub proof fn lemma_tick_respects_speed_cap(
    s: MovementState,
    cfg: GameSettings,
    jump_requested: bool,
    dt: u64,
    position: Vec3,
    contact: Option<MoveOutcome>,
    floor: FloorPlane,
)
    requires
        s.wf(),
        cfg.wf(),
        floor.wf(),
    ensures
        ({
            let end = ticked(s, cfg, jump_requested, dt, position, contact, floor).1;
            &&& end.velocity.0.horizontal_squared() <= cfg.speed_cap(s.grounded) * cfg.speed_cap(
                s.grounded,
            )
            &&& end.grounded == s.grounded ==> end.velocity.0.horizontal_squared()
                <= cfg.speed_cap(end.grounded) * cfg.speed_cap(end.grounded)
        }),
{
    let jumped = jump_stepped(s, cfg, jump_requested, dt);
    lemma_integrated_is_sane_and_capped(jumped, cfg, dt);
    let moving = steered(s, cfg, jump_requested, dt);
    let end = ticked(s, cfg, jump_requested, dt, position, contact, floor).1;
    lemma_smaller_square(end.velocity.0.x as int, moving.velocity.0.x as int);
    lemma_smaller_square(end.velocity.0.z as int, moving.velocity.0.z as int);
}

/// Taking the wish from the keys keeps the state well-formed and leaves the
/// grounded signal alone.
pub proof fn lemma_wished_is_well_formed(s: MovementState, keys: InputKeys, cfg: GameSettings)
    requires
        s.wf(),
        cfg.wf(),
    ensures
        wished(s, keys, cfg).wf(),
        wished(s, keys, cfg).grounded == s.grounded,
{
    let direction = key_direction(keys);
    lemma_normalized_stays_level(direction);
    if !direction.spec_is_zero() {
        lemma_normalized_is_unit(direction);
    }
}

/// Over any run of ticks, whatever the keys, the tick lengths and the
/// collision service's answers: the state stays well-formed, the velocity
/// no longer than `MAX_SPEED`, and the position within the world.
pub proof fn lemma_every_tick_stays_sane(
    s: MovementState,
    position: Vec3,
    cfg: GameSettings,
    floor: FloorPlane,
    inputs: Seq<TickInput>,
)
    requires
        s.wf(),
        cfg.wf(),
        floor.wf(),
        in_world(position),
    ensures
        ran(s, position, cfg, floor, inputs).1.wf(),
        inputs.len() > 0 ==> ran(s, position, cfg, floor, inputs).1.velocity.0.length_squared()
            <= MAX_SPEED * MAX_SPEED,
        in_world(ran(s, position, cfg, floor, inputs).0),
    decreases inputs.len(),
{
    if inputs.len() > 0 {
        lemma_every_tick_stays_sane(s, position, cfg, floor, inputs.drop_last());
        let before = ran(s, position, cfg, floor, inputs.drop_last());
        let input = inputs.last();
        lemma_wished_is_well_formed(before.1, input.keys, cfg);
        lemma_tick_stays_sane(
            wished(before.1, input.keys, cfg),
            cfg,
            jump_requested(input.keys, cfg),
            input.dt,
            before.0,
            input.contact,
            floor,
        );
    }
}

/// After the last tick of any run, the horizontal speed is within the cap
/// of the grounded state that tick began in.
pub proof fn lemma_every_tick_respects_speed_cap(
    s: MovementState,
    position: Vec3,
    cfg: GameSettings,
    floor: FloorPlane,
    inputs: Seq<TickInput>,
)
    requires
        s.wf(),
        cfg.wf(),
        floor.wf(),
        in_world(position),
        inputs.len() > 0,
    ensures
        ({
            let before = ran(s, position, cfg, floor, inputs.drop_last()).1;
            let end = ran(s, position, cfg, floor, inputs).1;
            &&& end.velocity.0.horizontal_squared() <= cfg.speed_cap(before.grounded)
                * cfg.speed_cap(before.grounded)
            &&& end.grounded == before.grounded ==> end.velocity.0.horizontal_squared()
                <= cfg.speed_cap(end.grounded) * cfg.speed_cap(end.grounded)
        }),
{
    lemma_every_tick_stays_sane(s, position, cfg, floor, inputs.drop_last());
    let before = ran(s, position, cfg, floor, inputs.drop_last());
    let input = inputs.last();
    lemma_wished_is_well_formed(before.1, input.keys, cfg);
    lemma_tick_respects_speed_cap(
        wished(before.1, input.keys, cfg),
        cfg,
        jump_requested(input.keys, cfg),
        input.dt,
        before.0,
        input.contact,
        floor,
    );
}

/// With no wish on the ground the integrator never lets a horizontal
/// component grow or change sign, and where friction acts at all
/// (its factor is below one) a horizontal velocity that is not zero loses
/// size.
pub proof fn lemma_friction_never_oscillates(s: MovementState, cfg: GameSettings, dt: u64)
    requires
        s.wf(),
        cfg.wf(),
        s.grounded,
        s.wish_direction.0.is_zero(),
    ensures
        ({
            let t = integrated(s, cfg, dt);
            &&& t.wf()
            &&& t.grounded
            &&& t.wish_direction.0.is_zero()
            &&& magnitude(t.velocity.0.x as int) <= magnitude(s.velocity.0.x as int)
            &&& magnitude(t.velocity.0.z as int) <= magnitude(s.velocity.0.z as int)
            &&& s.velocity.0.x >= 0 ==> t.velocity.0.x >= 0
            &&& s.velocity.0.x <= 0 ==> t.velocity.0.x <= 0
            &&& s.velocity.0.z >= 0 ==> t.velocity.0.z >= 0
            &&& s.velocity.0.z <= 0 ==> t.velocity.0.z <= 0
            &&& friction_factor(cfg.friction_coefficient as int, dt as int) < UNIT
                && horizontal_size(s) > 0 ==> horizontal_size(t) < horizontal_size(s)
        }),
{
    let v = s.velocity.0;
    let w = s.wish_direction.0;
    let cap = cfg.max_ground_speed as int;
    lemma_integrated_is_sane_and_capped(s, cfg, dt);
    lemma_accel_speed_bounds(
        v.x as int,
        v.z as int,
        0,
        0,
        s.wish_speed.0 as int,
        cfg.ground_accel as int,
        dt as int,
    );
    let gain = accel_speed(
        v.x as int,
        v.z as int,
        0,
        0,
        s.wish_speed.0 as int,
        cfg.ground_accel as int,
        dt as int,
    );
    lemma_accelerated_bounds(v.x as int, 0, gain);
    lemma_accelerated_bounds(v.z as int, 0, gain);
    lemma_clamped_bounds(v.x as int, v.z as int, cap);
    let capped = clamped(v.x as int, v.z as int, cap);
    let factor = friction_factor(cfg.friction_coefficient as int, dt as int);
    lemma_friction_factor_bounds(cfg.friction_coefficient as int, dt as int);
    lemma_slowed_bounds(capped.0, capped.1, factor);
    let rubbed = slowed(capped.0, capped.1, factor);
    let next = integrated_velocity(s, cfg, dt as int);
    assert(next == (rubbed.0, v.y as int, rubbed.1) || next == (0int, 0int, 0int));
}

/// With no wish on the ground, and friction acting at all, the horizontal
/// velocity is exactly zero after as many ticks as its two components have
/// millionths between them, and stays zero.
pub proof fn lemma_friction_converges(s: MovementState, cfg: GameSettings, dt: u64, ticks: nat)
    requires
        s.wf(),
        cfg.wf(),
        s.grounded,
        s.wish_direction.0.is_zero(),
        friction_factor(cfg.friction_coefficient as int, dt as int) < UNIT,
        ticks >= horizontal_size(s),
    ensures
        coasted(s, cfg, dt, ticks).velocity.0.x == 0,
        coasted(s, cfg, dt, ticks).velocity.0.z == 0,
    decreases ticks,
{
    if ticks > 0 {
        lemma_friction_never_oscillates(s, cfg, dt);
        lemma_friction_converges(integrated(s, cfg, dt), cfg, dt, (ticks - 1) as nat);
    }
}

} // verus!
