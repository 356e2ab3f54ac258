use movement_core::fixed::{MAX_SPEED, UNIT, WORLD_LIMIT};
use movement_core::input::InputKeys;
use movement_core::integrator::apply_acceleration_cpma;
use movement_core::jump::update_jump;
use movement_core::resolver::{move_kinematic_player_by_velocity, FloorPlane, MoveOutcome};
use movement_core::settings::GameSettings;
use movement_core::state::{JumpPhase, MovementState, Velocity, WishDirection, WishSpeed};
use movement_core::tick::{begin_tick, tick, TickInput};
use movement_core::vec3::Vec3;

fn horizontal_squared(v: Vec3) -> i128 {
    (v.x as i128) * (v.x as i128) + (v.z as i128) * (v.z as i128)
}

fn length_squared(v: Vec3) -> i128 {
    horizontal_squared(v) + (v.y as i128) * (v.y as i128)
}

const NO_KEYS: InputKeys = InputKeys {
    forward: false,
    back: false,
    left: false,
    right: false,
    jump: false,
    jump_held: false,
};

#[test]
fn friction_brings_the_character_to_rest_without_oscillating() {
    let settings = GameSettings::default();
    let mut state = MovementState::spawn();
    state.velocity = Velocity(Vec3::new(3 * UNIT, 2 * UNIT, -4 * UNIT));
    apply_acceleration_cpma(&mut state, &settings, 16_667);
    assert_eq!(state.velocity, Velocity(Vec3::new(2_699_994, 2 * UNIT, -3_599_992)));
    apply_acceleration_cpma(&mut state, &settings, 16_667);
    assert_eq!(state.velocity, Velocity(Vec3::new(2_429_989, 2 * UNIT, -3_239_985)));
    let mut ticks = 2;
    while state.velocity.0.x != 0 || state.velocity.0.z != 0 {
        let before = state.velocity.0;
        apply_acceleration_cpma(&mut state, &settings, 16_667);
        let after = state.velocity.0;
        assert!(0 <= after.x && after.x < before.x);
        assert!(before.z < after.z && after.z <= 0);
        ticks += 1;
        assert!(ticks <= 81);
    }
    assert_eq!(ticks, 81);
    assert_eq!(state.velocity, Velocity(Vec3::new(0, 2 * UNIT, 0)));
    apply_acceleration_cpma(&mut state, &settings, 16_667);
    assert_eq!(state.velocity, Velocity(Vec3::new(0, 2 * UNIT, 0)));
}

#[test]
fn speed_stays_within_the_cap_over_many_ticks_of_turning() {
    let settings = GameSettings::default();
    let mut state = MovementState::spawn();
    let turns = [
        Vec3::new(0, 0, -UNIT),
        Vec3::new(707_106, 0, -707_106),
        Vec3::new(UNIT, 0, 0),
        Vec3::new(707_106, 0, 707_106),
        Vec3::new(0, 0, UNIT),
        Vec3::new(-707_106, 0, 707_106),
        Vec3::new(-UNIT, 0, 0),
        Vec3::new(-707_106, 0, -707_106),
    ];
    let cap = settings.max_ground_speed as i128;
    for tick in 0..400 {
        state.wish_direction = WishDirection(turns[(tick / 7) % turns.len()]);
        state.wish_speed = WishSpeed(settings.max_ground_speed);
        apply_acceleration_cpma(&mut state, &settings, 16_667);
        assert!(horizontal_squared(state.velocity.0) <= cap * cap);
        assert!(state.is_valid());
    }
    assert!(horizontal_squared(state.velocity.0) > 0);
}

#[test]
fn air_cap_holds_while_airborne_over_many_ticks() {
    let settings = GameSettings { max_air_speed: 3 * UNIT, ..GameSettings::default() };
    let mut state = MovementState::spawn();
    state.grounded = false;
    state.velocity = Velocity(Vec3::new(8 * UNIT, 0, 0));
    state.wish_direction = WishDirection(Vec3::new(0, 0, UNIT));
    state.wish_speed = WishSpeed(3 * UNIT);
    let cap = settings.max_air_speed as i128;
    for _ in 0..200 {
        apply_acceleration_cpma(&mut state, &settings, 16_667);
        assert!(horizontal_squared(state.velocity.0) <= cap * cap);
        assert!(state.velocity.0.y >= -settings.terminal_fall_speed);
    }
    assert_eq!(state.velocity.0.y, -32_700_600);
}

#[test]
fn whole_ticks_with_an_erratic_service_stay_sane() {
    let settings = GameSettings::default();
    let floor = FloorPlane { level: 0, epsilon: 10_000 };
    let mut state = MovementState::spawn();
    let mut position = Vec3::new(0, UNIT, 0);
    let answers = [
        Some(MoveOutcome { resolved_delta: Vec3::new(i64::MAX, 0, 0), grounded: true }),
        None,
        Some(MoveOutcome { resolved_delta: Vec3::new(0, i64::MIN, 0), grounded: false }),
        Some(MoveOutcome { resolved_delta: Vec3::new(WORLD_LIMIT, WORLD_LIMIT, 0), grounded: true }),
        None,
        Some(MoveOutcome { resolved_delta: Vec3::new(-5, 7, 11), grounded: false }),
    ];
    let dts = [0, 1, 16_667, 1_000_000, u64::MAX, 33_333];
    for tick in 0..120usize {
        let keys = InputKeys {
            forward: tick % 2 == 0,
            back: tick % 5 == 0,
            left: tick % 3 == 0,
            right: tick % 7 == 0,
            jump: tick % 4 == 0,
            jump_held: tick % 8 < 5,
        };
        let dt = dts[tick % dts.len()];
        begin_tick(&mut state, &settings, &keys, dt);
        position = move_kinematic_player_by_velocity(
            &mut state,
            position,
            dt,
            answers[tick % answers.len()],
            &floor,
        );
        assert!(state.is_valid());
        assert!(length_squared(state.velocity.0) <= (MAX_SPEED as i128) * (MAX_SPEED as i128));
        assert!(position.is_within(WORLD_LIMIT));
    }
}

#[test]
fn begin_tick_runs_wish_then_jump_then_integrator() {
    let settings = GameSettings::default();
    let mut state = MovementState::spawn();
    let keys = InputKeys { forward: true, jump: true, jump_held: true, ..NO_KEYS };
    let delta = begin_tick(&mut state, &settings, &keys, 10_000);
    assert_eq!(state.wish_direction, WishDirection(Vec3::new(0, 0, -UNIT)));
    assert_eq!(state.wish_speed, WishSpeed(8 * UNIT));
    assert_eq!(state.jump.phase, JumpPhase::Airborne);
    assert_eq!(state.jump.cooldown_remaining, 250_000);
    // Still grounded by the signal, so ground acceleration and no gravity.
    assert_eq!(state.velocity, Velocity(Vec3::new(0, 5 * UNIT, -800_000)));
    assert_eq!(delta, Vec3::new(0, 50_000, -8_000));
}

#[test]
fn a_jump_and_its_landing_grant_one_impulse() {
    let settings = GameSettings::default();
    let floor = FloorPlane { level: 0, epsilon: 1_000 };
    let mut state = MovementState::spawn();
    let mut position = Vec3::zero();
    let mut impulses = 0;
    let mut landed_again = false;
    for tick in 0..200 {
        // The jump key goes down anew on every tick until the character is back.
        if update_jump(&mut state, &settings, true, 16_667) {
            impulses += 1;
        }
        apply_acceleration_cpma(&mut state, &settings, 16_667);
        position =
            move_kinematic_player_by_velocity(&mut state, position, 16_667, None, &floor);
        if tick > 0 && state.grounded {
            landed_again = true;
            break;
        }
    }
    assert!(landed_again);
    assert_eq!(impulses, 1);
    assert_eq!(position.y, 0);
    assert_eq!(state.velocity.0.y, 0);
}

#[test]
fn no_keys_on_the_ground_keep_a_resting_character_at_rest() {
    let settings = GameSettings::default();
    let floor = FloorPlane { level: 0, epsilon: 1_000 };
    let mut state = MovementState::spawn();
    let mut position = Vec3::zero();
    for _ in 0..10 {
        begin_tick(&mut state, &settings, &NO_KEYS, 16_667);
        position =
            move_kinematic_player_by_velocity(&mut state, position, 16_667, None, &floor);
    }
    assert_eq!(state, MovementState::spawn());
    assert_eq!(position, Vec3::zero());
}

#[test]
fn a_whole_tick_is_its_two_halves_in_order() {
    let settings = GameSettings::default();
    let floor = FloorPlane { level: 0, epsilon: 1_000 };
    let keys = InputKeys { right: true, jump: true, jump_held: true, ..NO_KEYS };
    let contact = Some(MoveOutcome { resolved_delta: Vec3::new(700, 40_000, 0), grounded: false });
    let input = TickInput { keys, dt: 10_000, contact };

    let mut whole = MovementState::spawn();
    let position = tick(&mut whole, Vec3::new(1, 2, 3), &settings, &floor, &input);

    let mut halves = MovementState::spawn();
    let delta = begin_tick(&mut halves, &settings, &keys, 10_000);
    assert_eq!(delta, Vec3::new(8_000, 50_000, 0));
    let expected =
        move_kinematic_player_by_velocity(&mut halves, Vec3::new(1, 2, 3), 10_000, contact, &floor);

    assert_eq!(whole, halves);
    assert_eq!(position, expected);
    assert_eq!(position, Vec3::new(701, 40_002, 3));
    assert_eq!(whole.velocity, Velocity(Vec3::new(800_000, 5 * UNIT, 0)));
    assert!(!whole.grounded);
    assert_eq!(whole.jump.phase, JumpPhase::Airborne);
}

#[test]
fn a_whole_tick_without_a_service_uses_the_floor_plane() {
    let settings = GameSettings::default();
    let floor = FloorPlane { level: 0, epsilon: 1_000 };
    let input = TickInput { keys: NO_KEYS, dt: 100_000, contact: None };
    let mut state = MovementState::spawn();
    state.grounded = false;
    state.velocity = Velocity(Vec3::new(UNIT, 0, 0));
    let position = tick(&mut state, Vec3::new(0, 40_000, 0), &settings, &floor, &input);
    // Falls 0.0981 in the tick, more than the height left.
    assert_eq!(position, Vec3::new(100_000, 0, 0));
    assert!(state.grounded);
    assert_eq!(state.velocity, Velocity(Vec3::new(UNIT, 0, 0)));
}

#[test]
fn holding_the_jump_key_with_rejump_jumps_again_on_landing() {
    let settings = GameSettings { auto_rejump: true, ..GameSettings::default() };
    let floor = FloorPlane { level: 0, epsilon: 1_000 };
    let held = InputKeys { jump_held: true, ..NO_KEYS };
    let mut state = MovementState::spawn();
    let mut position = Vec3::zero();
    let mut take_offs = 0;
    for _ in 0..200 {
        let was_grounded = state.grounded;
        let input = TickInput { keys: held, dt: 16_667, contact: None };
        position = tick(&mut state, position, &settings, &floor, &input);
        if was_grounded && !state.grounded {
            take_offs += 1;
        }
    }
    // A jump lasts about a second, and 200 ticks a little over three.
    assert_eq!(take_offs, 4);

    let mut state = MovementState::spawn();
    let mut position = Vec3::zero();
    let edge_only = GameSettings::default();
    for _ in 0..200 {
        let input = TickInput { keys: held, dt: 16_667, contact: None };
        position = tick(&mut state, position, &edge_only, &floor, &input);
        assert!(state.grounded);
    }
    assert_eq!(position, Vec3::zero());
}
