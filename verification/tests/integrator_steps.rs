use movement_core::fixed::UNIT;
use movement_core::integrator::{
    accelerate, apply_acceleration_cpma, clamp_horizontal, fall, friction_scale, is_sane,
    slow_down, wish_gain,
};
use movement_core::settings::GameSettings;
use movement_core::state::{Jump, JumpPhase, MovementState, Velocity, WishDirection, WishSpeed};
use movement_core::vec3::Vec3;

fn units(n: i64) -> i64 {
    n * UNIT
}

fn airborne(velocity: Vec3) -> MovementState {
    let mut state = MovementState::spawn();
    state.grounded = false;
    state.jump = Jump { phase: JumpPhase::Airborne, cooldown_remaining: 0 };
    state.velocity = Velocity(velocity);
    state
}

#[test]
fn gain_is_capped_by_what_is_missing_to_wish_speed() {
    let wish = Vec3::new(UNIT, 0, 0);
    // 10 * 8 * 0.1 = 8, but only 3 are missing.
    assert_eq!(wish_gain(units(5), 0, &wish, units(8), units(10), 100_000), units(3));
    // 10 * 8 * 0.01 = 0.8
    assert_eq!(wish_gain(units(5), 0, &wish, units(8), units(10), 10_000), 800_000);
    // Already faster along the wish direction.
    assert_eq!(wish_gain(units(9), 0, &wish, units(8), units(10), 100_000), 0);
    // No tick, no gain.
    assert_eq!(wish_gain(0, 0, &wish, units(8), units(10), 0), 0);
}

#[test]
fn gain_with_the_longest_tick_does_not_overflow() {
    let wish = Vec3::new(UNIT, 0, 0);
    assert_eq!(
        wish_gain(0, 0, &wish, 1_000_000_000, 1_000_000_000, u64::MAX),
        1_000_000_000
    );
}

#[test]
fn accelerate_adds_gain_along_the_wish_component() {
    assert_eq!(accelerate(units(1), UNIT, units(2)), units(3));
    assert_eq!(accelerate(units(1), -UNIT, units(2)), units(-1));
    assert_eq!(accelerate(units(1), 0, units(2)), units(1));
    assert_eq!(accelerate(0, 707_106, units(8)), 5_656_848);
}

#[test]
fn clamp_rescales_to_the_cap_and_keeps_direction() {
    assert_eq!(clamp_horizontal(units(6), units(8), units(5)), (units(3), units(4)));
    assert_eq!(clamp_horizontal(units(3), units(4), units(5)), (units(3), units(4)));
    assert_eq!(clamp_horizontal(units(10), 0, units(8)), (units(8), 0));
    assert_eq!(clamp_horizontal(units(-9), units(9), units(8)), (-5_656_853, 5_656_853));
}

#[test]
fn fall_adds_gravity_and_stops_at_terminal_speed() {
    assert_eq!(fall(0, -9_810_000, units(50), 100_000), -981_000);
    assert_eq!(fall(units(-25), -9_810_000, units(20), 16_667), units(-20));
    assert_eq!(fall(units(5), -9_810_000, units(50), 0), units(5));
    assert_eq!(fall(units(5), -9_810_000, units(50), u64::MAX), units(-50));
}

#[test]
fn friction_factor_is_one_less_coefficient_times_dt() {
    assert_eq!(friction_scale(units(6), 100_000), 400_000);
    assert_eq!(friction_scale(units(6), 16_667), 899_998);
    assert_eq!(friction_scale(units(6), 0), UNIT);
    assert_eq!(friction_scale(units(6), 1_000_000), 0);
    assert_eq!(friction_scale(units(6), u64::MAX), 0);
}

#[test]
fn slow_down_scales_and_snaps_to_rest() {
    assert_eq!(slow_down(units(4), units(-2), 400_000), (1_600_000, -800_000));
    assert_eq!(slow_down(2_000, 0, 400_000), (0, 0));
    assert_eq!(slow_down(2_500, 0, 400_000), (1_000, 0));
    assert_eq!(slow_down(units(4), units(4), 0), (0, 0));
}

#[test]
fn sanity_check_is_on_the_length() {
    assert!(is_sane(1_000_000_000, 0, 0));
    assert!(!is_sane(1_000_000_000, 1, 0));
    assert!(is_sane(600_000_000, 0, 800_000_000));
    assert!(!is_sane(600_000_000, 1_000, 800_000_000));
}

#[test]
fn airborne_tick_uses_air_acceleration_and_gravity() {
    let settings = GameSettings::default();
    let mut state = airborne(Vec3::zero());
    state.wish_direction = WishDirection(Vec3::new(0, 0, -UNIT));
    state.wish_speed = WishSpeed(units(8));
    apply_acceleration_cpma(&mut state, &settings, 10_000);
    // 7 * 8 * 0.01 = 0.56 along the wish; -9.81 * 0.01 = -0.0981 down.
    assert_eq!(state.velocity, Velocity(Vec3::new(0, -98_100, -560_000)));
}

#[test]
fn airborne_tick_without_wish_has_no_friction() {
    let settings = GameSettings::default();
    let mut state = airborne(Vec3::new(units(4), 0, 0));
    apply_acceleration_cpma(&mut state, &settings, 100_000);
    assert_eq!(state.velocity, Velocity(Vec3::new(units(4), -981_000, 0)));
}

#[test]
fn grounded_tick_without_wish_applies_friction_and_no_gravity() {
    let settings = GameSettings::default();
    let mut state = MovementState::spawn();
    state.velocity = Velocity(Vec3::new(units(4), 0, 0));
    apply_acceleration_cpma(&mut state, &settings, 100_000);
    assert_eq!(state.velocity, Velocity(Vec3::new(1_600_000, 0, 0)));
}

#[test]
fn grounded_tick_with_wish_has_no_friction() {
    let settings = GameSettings::default();
    let mut state = MovementState::spawn();
    state.velocity = Velocity(Vec3::new(units(4), 0, 0));
    state.wish_direction = WishDirection(Vec3::new(0, 0, UNIT));
    state.wish_speed = WishSpeed(units(8));
    apply_acceleration_cpma(&mut state, &settings, 10_000);
    assert_eq!(state.velocity, Velocity(Vec3::new(units(4), 0, 800_000)));
}

#[test]
fn diagonal_wish_accelerates_both_components() {
    let settings = GameSettings::default();
    let mut state = MovementState::spawn();
    state.wish_direction = WishDirection(Vec3::new(707_106, 0, -707_106));
    state.wish_speed = WishSpeed(units(8));
    apply_acceleration_cpma(&mut state, &settings, 1_000_000);
    assert_eq!(state.velocity, Velocity(Vec3::new(5_656_848, 0, -5_656_848)));
}

#[test]
fn speed_above_the_cap_is_rescaled_to_the_cap() {
    let settings = GameSettings::default();
    let mut state = MovementState::spawn();
    state.velocity = Velocity(Vec3::new(units(9), 0, units(9)));
    state.wish_direction = WishDirection(Vec3::new(707_106, 0, 707_106));
    state.wish_speed = WishSpeed(units(8));
    apply_acceleration_cpma(&mut state, &settings, 16_667);
    assert_eq!(state.velocity, Velocity(Vec3::new(5_656_853, 0, 5_656_853)));
    let v = state.velocity.0;
    assert!((v.x as i128) * (v.x as i128) + (v.z as i128) * (v.z as i128) <= 64_000_000_000_000);
}

#[test]
fn air_cap_applies_while_airborne() {
    let settings = GameSettings { max_air_speed: units(6), ..GameSettings::default() };
    let mut state = airborne(Vec3::new(units(10), 0, 0));
    apply_acceleration_cpma(&mut state, &settings, 0);
    assert_eq!(state.velocity, Velocity(Vec3::new(units(6), 0, 0)));
}

#[test]
fn velocity_that_is_not_sane_is_reset_to_zero() {
    let settings = GameSettings::default();
    let mut state = MovementState::spawn();
    state.velocity = Velocity(Vec3::new(0, 1_000_000_000, 0));
    state.wish_direction = WishDirection(Vec3::new(UNIT, 0, 0));
    state.wish_speed = WishSpeed(units(8));
    apply_acceleration_cpma(&mut state, &settings, 100_000);
    assert_eq!(state.velocity, Velocity(Vec3::zero()));
}

#[test]
fn integrator_touches_only_the_velocity() {
    let settings = GameSettings::default();
    let mut state = airborne(Vec3::new(units(1), units(1), units(1)));
    state.wish_direction = WishDirection(Vec3::new(UNIT, 0, 0));
    state.wish_speed = WishSpeed(units(8));
    state.jump = Jump { phase: JumpPhase::Airborne, cooldown_remaining: 77 };
    let before = state;
    apply_acceleration_cpma(&mut state, &settings, 16_667);
    assert_eq!(state.wish_direction, before.wish_direction);
    assert_eq!(state.wish_speed, before.wish_speed);
    assert_eq!(state.grounded, before.grounded);
    assert_eq!(state.jump, before.jump);
    assert_ne!(state.velocity, before.velocity);
}
