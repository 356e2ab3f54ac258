use movement_core::fixed::{UNIT, WORLD_LIMIT};
use movement_core::resolver::{
    advance, move_kinematic_player_by_velocity, raw_delta, FloorPlane, MoveOutcome, MAX_STEP,
};
use movement_core::state::{MovementState, Velocity};
use movement_core::vec3::Vec3;

fn units(n: i64) -> i64 {
    n * UNIT
}

fn moving(velocity: Vec3, grounded: bool) -> MovementState {
    let mut state = MovementState::spawn();
    state.velocity = Velocity(velocity);
    state.grounded = grounded;
    state
}

fn floor() -> FloorPlane {
    FloorPlane { level: 0, epsilon: 10_000 }
}

#[test]
fn raw_delta_is_velocity_times_dt() {
    let state = moving(Vec3::new(units(8), units(-3), 0), false);
    assert_eq!(raw_delta(&state, 16_667), Vec3::new(133_336, -50_001, 0));
    assert_eq!(raw_delta(&state, 0), Vec3::zero());
    assert_eq!(raw_delta(&state, 1_000_000), Vec3::new(units(8), units(-3), 0));
}

#[test]
fn raw_delta_beyond_the_step_bound_is_treated_as_zero() {
    let state = moving(Vec3::new(1_000_000_000, 0, 0), false);
    assert_eq!(raw_delta(&state, 100_000), Vec3::new(MAX_STEP, 0, 0));
    assert_eq!(raw_delta(&state, 100_001), Vec3::zero());
    assert_eq!(raw_delta(&state, u64::MAX), Vec3::zero());
    let diagonal = moving(Vec3::new(800_000_000, 0, 800_000_000), false);
    // Each component is within the bound, the length is not.
    assert_eq!(raw_delta(&diagonal, 100_000), Vec3::zero());
}

#[test]
fn advance_moves_within_the_world_only() {
    assert_eq!(advance(Vec3::new(1, 2, 3), Vec3::new(10, 20, 30)), Vec3::new(11, 22, 33));
    assert_eq!(
        advance(Vec3::new(WORLD_LIMIT - 1, 0, 0), Vec3::new(1, 0, 0)),
        Vec3::new(WORLD_LIMIT, 0, 0)
    );
    assert_eq!(
        advance(Vec3::new(WORLD_LIMIT, 0, 0), Vec3::new(1, 5, 5)),
        Vec3::new(WORLD_LIMIT, 0, 0)
    );
    assert_eq!(
        advance(Vec3::new(i64::MAX, 0, 0), Vec3::new(i64::MAX, 0, 0)),
        Vec3::new(i64::MAX, 0, 0)
    );
    assert_eq!(
        advance(Vec3::new(0, i64::MIN, 0), Vec3::new(0, i64::MIN, 0)),
        Vec3::new(0, i64::MIN, 0)
    );
}

#[test]
fn service_answer_is_applied_as_given() {
    let mut state = moving(Vec3::new(units(8), 0, 0), true);
    let contact = MoveOutcome { resolved_delta: Vec3::new(100_000, 0, 0), grounded: false };
    let position = move_kinematic_player_by_velocity(
        &mut state,
        Vec3::new(0, units(1), 0),
        16_667,
        Some(contact),
        &floor(),
    );
    // Stopped short of the 133336 asked for, and no longer on the ground.
    assert_eq!(position, Vec3::new(100_000, units(1), 0));
    assert!(!state.grounded);
    assert_eq!(state.velocity, Velocity(Vec3::new(units(8), 0, 0)));
}

#[test]
fn floor_contact_keeps_upward_velocity() {
    let mut state = moving(Vec3::new(0, units(5), 0), false);
    let contact = MoveOutcome { resolved_delta: Vec3::new(0, 5_000, 0), grounded: true };
    move_kinematic_player_by_velocity(&mut state, Vec3::zero(), 1_000, Some(contact), &floor());
    assert!(state.grounded);
    assert_eq!(state.velocity.0.y, units(5));
}

#[test]
fn floor_contact_zeroes_zero_velocity_too() {
    let mut state = moving(Vec3::new(units(1), 0, 0), false);
    let contact = MoveOutcome { resolved_delta: Vec3::zero(), grounded: true };
    move_kinematic_player_by_velocity(&mut state, Vec3::zero(), 1_000, Some(contact), &floor());
    assert_eq!(state.velocity, Velocity(Vec3::new(units(1), 0, 0)));
}

#[test]
fn absurd_service_answer_leaves_the_position_where_it_was() {
    let mut state = moving(Vec3::new(units(8), units(-3), 0), false);
    let contact =
        MoveOutcome { resolved_delta: Vec3::new(i64::MAX, i64::MIN, i64::MAX), grounded: false };
    let start = Vec3::new(units(3), units(1), units(-2));
    let position =
        move_kinematic_player_by_velocity(&mut state, start, 16_667, Some(contact), &floor());
    assert_eq!(position, start);
    assert!(position.is_within(WORLD_LIMIT));
    assert!(state.is_valid());
}

#[test]
fn without_a_service_the_character_falls_freely_above_the_floor() {
    let mut state = moving(Vec3::new(units(2), units(-5), 0), false);
    let position = move_kinematic_player_by_velocity(
        &mut state,
        Vec3::new(0, units(1), 0),
        100_000,
        None,
        &floor(),
    );
    assert_eq!(position, Vec3::new(200_000, 500_000, 0));
    assert!(!state.grounded);
    assert_eq!(state.velocity, Velocity(Vec3::new(units(2), units(-5), 0)));
}

#[test]
fn without_a_service_the_floor_plane_stops_the_fall() {
    let mut state = moving(Vec3::new(units(2), units(-5), 0), false);
    let position = move_kinematic_player_by_velocity(
        &mut state,
        Vec3::new(0, 100_000, 0),
        100_000,
        None,
        &floor(),
    );
    assert_eq!(position, Vec3::new(200_000, 0, 0));
    assert!(state.grounded);
    assert_eq!(state.velocity, Velocity(Vec3::new(units(2), 0, 0)));
}

#[test]
fn without_a_service_grounded_reaches_up_to_epsilon_above_the_floor() {
    let plane = FloorPlane { level: units(2), epsilon: 10_000 };
    let rising = Vec3::new(0, units(5), 0);
    let mut state = moving(rising, true);
    let position =
        move_kinematic_player_by_velocity(&mut state, Vec3::new(0, units(2), 0), 2_000, None, &plane);
    assert_eq!(position, Vec3::new(0, 2_010_000, 0));
    assert!(state.grounded);
    assert_eq!(state.velocity, Velocity(rising));
    let position = move_kinematic_player_by_velocity(&mut state, position, 1, None, &plane);
    assert_eq!(position, Vec3::new(0, 2_010_005, 0));
    assert!(!state.grounded);
}

#[test]
fn without_a_service_a_position_below_the_floor_is_lifted() {
    let mut state = moving(Vec3::zero(), false);
    let position = move_kinematic_player_by_velocity(
        &mut state,
        Vec3::new(7, units(-4), 9),
        16_667,
        None,
        &floor(),
    );
    assert_eq!(position, Vec3::new(7, 0, 9));
    assert!(state.grounded);
}

#[test]
fn floor_plane_validity() {
    assert!(floor().is_valid());
    assert!(FloorPlane { level: -WORLD_LIMIT, epsilon: 0 }.is_valid());
    assert!(!FloorPlane { level: WORLD_LIMIT + 1, epsilon: 0 }.is_valid());
    assert!(!FloorPlane { level: 0, epsilon: -1 }.is_valid());
}

#[test]
fn floor_plane_settle_reports_position_and_contact() {
    let plane = floor();
    assert_eq!(
        plane.settle(Vec3::new(0, 50_000, 0), Vec3::new(1, -20_000, 2)),
        (Vec3::new(1, 30_000, 2), false)
    );
    assert_eq!(
        plane.settle(Vec3::new(0, 50_000, 0), Vec3::new(1, -40_000, 2)),
        (Vec3::new(1, 10_000, 2), true)
    );
    assert_eq!(
        plane.settle(Vec3::new(0, 50_000, 0), Vec3::new(1, -90_000, 2)),
        (Vec3::new(1, 0, 2), true)
    );
}
