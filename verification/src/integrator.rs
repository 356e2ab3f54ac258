//! The velocity integrator: one tick of wish-direction acceleration, speed
//! cap, gravity and friction.

use crate::fixed::{
    ceil_sqrt, div_toward_zero, lemma_ceil_sqrt_exists, lemma_div_toward_zero,
    lemma_product_bound, lemma_rescaled_length, magnitude, mul_div, product, quotient, sqrt_ceil,
    MAX_SPEED, SECOND, UNIT,
};
use crate::settings::GameSettings;
use crate::state::{MovementState, Velocity};
use crate::vec3::{
    lemma_length_bounds_components, lemma_rounded_down_square, lemma_square_bounds, Vec3,
};
use vstd::prelude::*;

verus! {

/// Horizontal speed below which friction brings the character to rest: a
/// thousandth of a unit per second.
pub const STOP_SPEED: i64 = 1_000;

/// The lesser of two integers.
pub open spec fn min_int(a: int, b: int) -> int {
    if a <= b {
        a
    } else {
        b
    }
}

/// The greater of two integers.
pub open spec fn max_int(a: int, b: int) -> int {
    if a >= b {
        a
    } else {
        b
    }
}

/// The horizontal velocity `(vx, vz)` projected onto the wish direction
/// `(wx, wz)`.
pub open spec fn projected_speed(vx: int, vz: int, wx: int, wz: int) -> int {
    div_toward_zero(vx * wx + vz * wz, UNIT as int)
}

/// The speed gained along the wish direction in a tick of `dt` microseconds:
/// nothing if the projected speed has reached the wish speed, else the lesser
/// of `accel * wish_speed * dt` and what is missing to the wish speed.
pub open spec fn accel_speed(
    vx: int,
    vz: int,
    wx: int,
    wz: int,
    wish_speed: int,
    accel: int,
    dt: int,
) -> int {
    let add_speed = wish_speed - projected_speed(vx, vz, wx, wz);
    if add_speed <= 0 {
        0
    } else {
        min_int(div_toward_zero(accel * wish_speed * dt, UNIT * SECOND), add_speed)
    }
}

/// A velocity component after the gain along the wish direction was added.
pub open spec fn accelerated(v: int, w: int, gain: int) -> int {
    v + div_toward_zero(gain * w, UNIT as int)
}

/// The horizontal velocity brought back to the cap: unchanged if it is no
/// longer than `cap`, else rescaled by `cap` over its length rounded up.
pub open spec fn clamped(vx: int, vz: int, cap: int) -> (int, int) {
    if vx * vx + vz * vz > cap * cap {
        let len = ceil_sqrt(vx * vx + vz * vz);
        (div_toward_zero(vx * cap, len), div_toward_zero(vz * cap, len))
    } else {
        (vx, vz)
    }
}

/// The vertical velocity after gravity acted for `dt` microseconds, held at
/// the terminal fall speed.
pub open spec fn fallen(vy: int, gravity: int, terminal: int, dt: int) -> int {
    max_int(vy + div_toward_zero(gravity * dt, SECOND as int), -terminal)
}

/// The factor by which friction scales the horizontal velocity in a tick of
/// `dt` microseconds, in fixed point: one less `coefficient * dt`, floored at
/// zero.
pub open spec fn friction_factor(coefficient: int, dt: int) -> int {
    max_int(0, UNIT - div_toward_zero(coefficient * dt, SECOND as int))
}

/// The horizontal velocity scaled by `factor`, and set to rest once it is
/// slower than `STOP_SPEED`.
pub open spec fn slowed(vx: int, vz: int, factor: int) -> (int, int) {
    let x = div_toward_zero(vx * factor, UNIT as int);
    let z = div_toward_zero(vz * factor, UNIT as int);
    if x * x + z * z < STOP_SPEED * STOP_SPEED {
        (0, 0)
    } else {
        (x, z)
    }
}

/// The velocity is no longer than `MAX_SPEED`.
pub open spec fn sane(x: int, y: int, z: int) -> bool {
    x * x + y * y + z * z <= MAX_SPEED * MAX_SPEED
}

/// The velocity after one tick of the integrator, as three integers: the
/// gain along the wish direction, the cap, gravity while airborne, friction
/// while grounded with no wish, and zero if the result is not sane.
pub open spec fn integrated_velocity(s: MovementState, cfg: GameSettings, dt: int) -> (
    int,
    int,
    int,
) {
    let v = s.velocity.0;
    let w = s.wish_direction.0;
    let gain = accel_speed(
        v.x as int,
        v.z as int,
        w.x as int,
        w.z as int,
        s.wish_speed.0 as int,
        cfg.accel(s.grounded) as int,
        dt,
    );
    let pushed_x = accelerated(v.x as int, w.x as int, gain);
    let pushed_z = accelerated(v.z as int, w.z as int, gain);
    let capped = clamped(pushed_x, pushed_z, cfg.speed_cap(s.grounded) as int);
    let y = if s.grounded {
        v.y as int
    } else {
        fallen(v.y as int, cfg.gravity as int, cfg.terminal_fall_speed as int, dt)
    };
    let rubbed = if s.grounded && w.is_zero() {
        slowed(capped.0, capped.1, friction_factor(cfg.friction_coefficient as int, dt))
    } else {
        capped
    };
    if sane(rubbed.0, y, rubbed.1) {
        (rubbed.0, y, rubbed.1)
    } else {
        (0, 0, 0)
    }
}

/// The state after one tick of the integrator: only the velocity changes.
pub open spec fn integrated(s: MovementState, cfg: GameSettings, dt: u64) -> MovementState {
    let v = integrated_velocity(s, cfg, dt as int);
    MovementState {
        velocity: Velocity(Vec3 { x: v.0 as i64, y: v.1 as i64, z: v.2 as i64 }),
        ..s
    }
}

/// The gain along the wish direction is never negative and stays within
/// three times `MAX_SPEED`.
pub proof fn lemma_accel_speed_bounds(
    vx: int,
    vz: int,
    wx: int,
    wz: int,
    wish_speed: int,
    accel: int,
    dt: int,
)
    requires
        magnitude(vx) <= MAX_SPEED,
        magnitude(vz) <= MAX_SPEED,
        magnitude(wx) <= UNIT,
        magnitude(wz) <= UNIT,
        0 <= wish_speed <= MAX_SPEED,
        0 <= accel,
        0 <= dt,
    ensures
        0 <= accel_speed(vx, vz, wx, wz, wish_speed, accel, dt) <= 3 * MAX_SPEED,
{
    lemma_product_bound(vx, wx, MAX_SPEED as int, UNIT as int);
    lemma_product_bound(vz, wz, MAX_SPEED as int, UNIT as int);
    lemma_div_toward_zero(vx * wx + vz * wz, UNIT as int);
    assert(accel * wish_speed * dt >= 0) by (nonlinear_arith)
        requires
            accel >= 0,
            wish_speed >= 0,
            dt >= 0,
    ;
    lemma_div_toward_zero(accel * wish_speed * dt, UNIT * SECOND);
}

/// A component after acceleration stays within four times `MAX_SPEED`, and
/// is unchanged where the wish direction has no part along it.
pub proof fn lemma_accelerated_bounds(v: int, w: int, gain: int)
    requires
        magnitude(v) <= MAX_SPEED,
        magnitude(w) <= UNIT,
        0 <= gain <= 3 * MAX_SPEED,
    ensures
        magnitude(accelerated(v, w, gain)) <= 4 * MAX_SPEED,
        w == 0 ==> accelerated(v, w, gain) == v,
{
    lemma_product_bound(gain, w, 3 * MAX_SPEED, UNIT as int);
    lemma_div_toward_zero(gain * w, UNIT as int);
    if w == 0 {
        assert(gain * w == 0) by (nonlinear_arith)
            requires
                w == 0,
        ;
    }
}

/// The capped horizontal velocity is no longer than the cap; no component
/// grows or changes sign.
pub proof fn lemma_clamped_bounds(vx: int, vz: int, cap: int)
    requires
        cap > 0,
    ensures
        clamped(vx, vz, cap).0 * clamped(vx, vz, cap).0 + clamped(vx, vz, cap).1 * clamped(
            vx,
            vz,
            cap,
        ).1 <= cap * cap,
        magnitude(clamped(vx, vz, cap).0) <= magnitude(vx),
        magnitude(clamped(vx, vz, cap).1) <= magnitude(vz),
        magnitude(clamped(vx, vz, cap).0) <= cap,
        magnitude(clamped(vx, vz, cap).1) <= cap,
        vx >= 0 ==> clamped(vx, vz, cap).0 >= 0,
        vx <= 0 ==> clamped(vx, vz, cap).0 <= 0,
        vz >= 0 ==> clamped(vx, vz, cap).1 >= 0,
        vz <= 0 ==> clamped(vx, vz, cap).1 <= 0,
{
    let speed_sq = vx * vx + vz * vz;
    let c = clamped(vx, vz, cap);
    if speed_sq > cap * cap {
        let len = ceil_sqrt(speed_sq);
        lemma_ceil_sqrt_exists(speed_sq);
        assert(len > cap) by (nonlinear_arith)
            requires
                len >= 0,
                cap > 0,
                len * len > cap * cap,
        ;
        let c2 = cap * cap;
        let l2 = len * len;
        assert((vx * vx + 0 * 0 + vz * vz) * c2 <= l2 * c2) by (nonlinear_arith)
            requires
                vx * vx + vz * vz <= l2,
                c2 >= 0,
        ;
        lemma_rescaled_length(vx, 0, vz, cap, len, cap);
        assert(0 * cap == 0);
        assert(div_toward_zero(0, len) == 0);
        lemma_rescaled_component(vx, cap, len);
        lemma_rescaled_component(vz, cap, len);
    }
    lemma_length_bounds_components(c.0, 0, c.1, cap);
}

/// Where the cap cuts the horizontal velocity, it cuts it to the cap and not
/// below, up to rounding: the squared length that is left falls short of the
/// squared cap by less than six caps and two.
pub proof fn lemma_clamped_reaches_cap(vx: int, vz: int, cap: int)
    requires
        cap > 0,
        vx * vx + vz * vz > cap * cap,
    ensures
        clamped(vx, vz, cap).0 * clamped(vx, vz, cap).0 + clamped(vx, vz, cap).1 * clamped(
            vx,
            vz,
            cap,
        ).1 + 6 * cap + 2 > cap * cap,
{
    let speed_sq = vx * vx + vz * vz;
    let len = ceil_sqrt(speed_sq);
    lemma_ceil_sqrt_exists(speed_sq);
    lemma_clamped_bounds(vx, vz, cap);
    assert(len > cap) by (nonlinear_arith)
        requires
            len >= 0,
            cap > 0,
            len * len > cap * cap,
    ;
    let c = clamped(vx, vz, cap);
    let mx = magnitude(c.0);
    let mz = magnitude(c.1);
    lemma_rounded_down_square(vx, cap, len);
    lemma_rounded_down_square(vz, cap, len);
    let t = (mx + 1) * (mx + 1) + (mz + 1) * (mz + 1);
    let l2 = len * len;
    let c2 = cap * cap;
    let q = (len - 1) * (len - 1);
    assert(t * l2 == ((mx + 1) * (mx + 1)) * l2 + ((mz + 1) * (mz + 1)) * l2)
        by (nonlinear_arith)
        requires
            t == (mx + 1) * (mx + 1) + (mz + 1) * (mz + 1),
    ;
    assert(speed_sq * c2 == (vx * vx) * c2 + (vz * vz) * c2) by (nonlinear_arith)
        requires
            speed_sq == vx * vx + vz * vz,
    ;
    assert(q * c2 <= speed_sq * c2) by (nonlinear_arith)
        requires
            q < speed_sq,
            c2 == cap * cap,
    ;
    assert(q * c2 == l2 * c2 - 2 * (len * c2) + c2) by (nonlinear_arith)
        requires
            q == (len - 1) * (len - 1),
            l2 == len * len,
    ;
    assert(len * c2 <= cap * l2) by (nonlinear_arith)
        requires
            0 < cap <= len,
            c2 == cap * cap,
            l2 == len * len,
    ;
    assert(c2 > 0) by (nonlinear_arith)
        requires
            c2 == cap * cap,
            cap > 0,
    ;
    assert(t * l2 > (c2 - 2 * cap) * l2) by (nonlinear_arith)
        requires
            t * l2 > l2 * c2 - 2 * (len * c2),
            len * c2 <= cap * l2,
    ;
    assert(t > c2 - 2 * cap) by (nonlinear_arith)
        requires
            t * l2 > (c2 - 2 * cap) * l2,
            l2 > 0,
    ;
    assert(t == c.0 * c.0 + c.1 * c.1 + 2 * (mx + mz) + 2) by (nonlinear_arith)
        requires
            t == (mx + 1) * (mx + 1) + (mz + 1) * (mz + 1),
            mx == c.0 || mx == -c.0,
            mz == c.1 || mz == -c.1,
    ;
}

/// A component rescaled by `num / len` with `num` at most `len` does not
/// grow and keeps its sign.
pub proof fn lemma_rescaled_component(a: int, num: int, len: int)
    requires
        0 <= num <= len,
        len > 0,
    ensures
        magnitude(div_toward_zero(a * num, len)) <= magnitude(a),
        a >= 0 ==> div_toward_zero(a * num, len) >= 0,
        a <= 0 ==> div_toward_zero(a * num, len) <= 0,
        num < len && a != 0 ==> magnitude(div_toward_zero(a * num, len)) < magnitude(a),
{
    let p = a * num;
    let m = magnitude(a);
    lemma_div_toward_zero(p, len);
    assert(magnitude(p) == m * num && (a >= 0 ==> p >= 0) && (a <= 0 ==> p <= 0))
        by (nonlinear_arith)
        requires
            p == a * num,
            num >= 0,
            m == magnitude(a),
    ;
    let q = magnitude(div_toward_zero(p, len));
    assert(q <= m && (num < len && m > 0 ==> q < m)) by (nonlinear_arith)
        requires
            q * len <= m * num,
            0 <= num <= len,
            len > 0,
            m >= 0,
            q >= 0,
    ;
}

/// The vertical velocity after gravity does not rise, and stays between the
/// terminal fall speed and `MAX_SPEED`.
pub proof fn lemma_fallen_bounds(vy: int, gravity: int, terminal: int, dt: int)
    requires
        magnitude(vy) <= MAX_SPEED,
        gravity <= 0,
        0 < terminal <= MAX_SPEED,
        0 <= dt,
    ensures
        -terminal <= fallen(vy, gravity, terminal, dt),
        fallen(vy, gravity, terminal, dt) <= vy || fallen(vy, gravity, terminal, dt) == -terminal,
        magnitude(fallen(vy, gravity, terminal, dt)) <= MAX_SPEED,
{
    assert(gravity * dt <= 0) by (nonlinear_arith)
        requires
            gravity <= 0,
            dt >= 0,
    ;
    lemma_div_toward_zero(gravity * dt, SECOND as int);
}

/// The friction factor lies between zero and one.
pub proof fn lemma_friction_factor_bounds(coefficient: int, dt: int)
    requires
        0 <= coefficient,
        0 <= dt,
    ensures
        0 <= friction_factor(coefficient, dt) <= UNIT,
{
    assert(coefficient * dt >= 0) by (nonlinear_arith)
        requires
            coefficient >= 0,
            dt >= 0,
    ;
    lemma_div_toward_zero(coefficient * dt, SECOND as int);
}

/// Friction never lets a component grow or change sign, and with a factor
/// below one every component that is not zero shrinks.
pub proof fn lemma_slowed_bounds(vx: int, vz: int, factor: int)
    requires
        0 <= factor <= UNIT,
    ensures
        magnitude(slowed(vx, vz, factor).0) <= magnitude(vx),
        magnitude(slowed(vx, vz, factor).1) <= magnitude(vz),
        vx >= 0 ==> slowed(vx, vz, factor).0 >= 0,
        vx <= 0 ==> slowed(vx, vz, factor).0 <= 0,
        vz >= 0 ==> slowed(vx, vz, factor).1 >= 0,
        vz <= 0 ==> slowed(vx, vz, factor).1 <= 0,
        factor < UNIT && vx != 0 ==> magnitude(slowed(vx, vz, factor).0) < magnitude(vx),
        factor < UNIT && vz != 0 ==> magnitude(slowed(vx, vz, factor).1) < magnitude(vz),
{
    lemma_rescaled_component(vx, factor, UNIT as int);
    lemma_rescaled_component(vz, factor, UNIT as int);
}

/// One tick of the integrator keeps the state well-formed, leaves a velocity
/// no longer than `MAX_SPEED`, and a horizontal velocity no longer than the
/// cap of the grounded state it ran in.
pub proof fn lemma_integrated_is_sane_and_capped(s: MovementState, cfg: GameSettings, dt: u64)
    requires
        s.wf(),
        cfg.wf(),
    ensures
        integrated(s, cfg, dt).wf(),
        integrated(s, cfg, dt).velocity.0.x == integrated_velocity(s, cfg, dt as int).0,
        integrated(s, cfg, dt).velocity.0.y == integrated_velocity(s, cfg, dt as int).1,
        integrated(s, cfg, dt).velocity.0.z == integrated_velocity(s, cfg, dt as int).2,
        integrated(s, cfg, dt).velocity.0.length_squared() <= MAX_SPEED * MAX_SPEED,
        integrated(s, cfg, dt).velocity.0.horizontal_squared() <= cfg.speed_cap(s.grounded)
            * cfg.speed_cap(s.grounded),
{
    let v = s.velocity.0;
    let w = s.wish_direction.0;
    let cap = cfg.speed_cap(s.grounded) as int;
    let gain = accel_speed(
        v.x as int,
        v.z as int,
        w.x as int,
        w.z as int,
        s.wish_speed.0 as int,
        cfg.accel(s.grounded) as int,
        dt as int,
    );
    lemma_accel_speed_bounds(
        v.x as int,
        v.z as int,
        w.x as int,
        w.z as int,
        s.wish_speed.0 as int,
        cfg.accel(s.grounded) as int,
        dt as int,
    );
    lemma_accelerated_bounds(v.x as int, w.x as int, gain);
    lemma_accelerated_bounds(v.z as int, w.z as int, gain);
    let pushed_x = accelerated(v.x as int, w.x as int, gain);
    let pushed_z = accelerated(v.z as int, w.z as int, gain);
    lemma_clamped_bounds(pushed_x, pushed_z, cap);
    let capped = clamped(pushed_x, pushed_z, cap);
    lemma_fallen_bounds(
        v.y as int,
        cfg.gravity as int,
        cfg.terminal_fall_speed as int,
        dt as int,
    );
    let factor = friction_factor(cfg.friction_coefficient as int, dt as int);
    lemma_friction_factor_bounds(cfg.friction_coefficient as int, dt as int);
    lemma_slowed_bounds(capped.0, capped.1, factor);
    let rubbed = if s.grounded && w.is_zero() {
        slowed(capped.0, capped.1, factor)
    } else {
        capped
    };
    lemma_smaller_square(rubbed.0, capped.0);
    lemma_smaller_square(rubbed.1, capped.1);
    lemma_square_bounds(cap, 1_000_000_000);
    assert(MAX_SPEED * MAX_SPEED == 1_000_000_000_000_000_000) by (nonlinear_arith);
    let y = if s.grounded {
        v.y as int
    } else {
        fallen(v.y as int, cfg.gravity as int, cfg.terminal_fall_speed as int, dt as int)
    };
    let next = if sane(rubbed.0, y, rubbed.1) {
        (rubbed.0, y, rubbed.1)
    } else {
        (0int, 0int, 0int)
    };
    assert(next == integrated_velocity(s, cfg, dt as int));
    if sane(rubbed.0, y, rubbed.1) {
        lemma_smaller_square(next.0, rubbed.0);
        lemma_smaller_square(next.1, y);
        lemma_smaller_square(next.2, rubbed.1);
    } else {
        lemma_square_bounds(next.0, 0);
        lemma_square_bounds(next.1, 0);
        lemma_square_bounds(next.2, 0);
    }
    lemma_length_bounds_components(next.0, next.1, next.2, MAX_SPEED as int);
}

/// The speed to add along the wish direction this tick.
pub fn wish_gain(vx: i64, vz: i64, wish: &Vec3, wish_speed: i64, accel: i64, dt: u64) -> (gain:
    i64)
    requires
        magnitude(vx as int) <= MAX_SPEED,
        magnitude(vz as int) <= MAX_SPEED,
        wish.within(UNIT as int),
        0 <= wish_speed <= MAX_SPEED,
        0 < accel <= MAX_SPEED,
    ensures
        gain == accel_speed(
            vx as int,
            vz as int,
            wish.x as int,
            wish.z as int,
            wish_speed as int,
            accel as int,
            dt as int,
        ),
        0 <= gain <= 3 * MAX_SPEED,
{
    let along_x = product(vx, wish.x);
    let along_z = product(vz, wish.z);
    proof {
        lemma_product_bound(vx as int, wish.x as int, MAX_SPEED as int, UNIT as int);
        lemma_product_bound(vz as int, wish.z as int, MAX_SPEED as int, UNIT as int);
        lemma_div_toward_zero(vx * wish.x + vz * wish.z, UNIT as int);
    }
    let current_speed = quotient(along_x + along_z, UNIT as i128);
    let add_speed: i128 = wish_speed as i128 - current_speed;
    if add_speed <= 0 {
        return 0;
    }
    let rate = product(accel, wish_speed);
    proof {
        lemma_product_bound(accel as int, wish_speed as int, MAX_SPEED as int, MAX_SPEED as int);
        lemma_product_bound(
            rate as int,
            dt as int,
            MAX_SPEED * MAX_SPEED,
            0x1_0000_0000_0000_0000,
        );
        assert(rate >= 0) by (nonlinear_arith)
            requires
                rate == accel * wish_speed,
                accel > 0,
                wish_speed >= 0,
        ;
        assert(rate * dt >= 0) by (nonlinear_arith)
            requires
                rate >= 0,
                dt >= 0,
        ;
        lemma_div_toward_zero(rate * dt, UNIT * SECOND);
    }
    let max_accel = quotient(rate * (dt as i128), 1_000_000_000_000);
    if max_accel < add_speed {
        max_accel as i64
    } else {
        add_speed as i64
    }
}

/// One velocity component with the gain along the wish direction added.
pub fn accelerate(v: i64, w: i64, gain: i64) -> (r: i64)
    requires
        magnitude(v as int) <= MAX_SPEED,
        magnitude(w as int) <= UNIT,
        0 <= gain <= 3 * MAX_SPEED,
    ensures
        r == accelerated(v as int, w as int, gain as int),
        magnitude(r as int) <= 4 * MAX_SPEED,
{
    proof {
        lemma_product_bound(gain as int, w as int, 3 * MAX_SPEED, UNIT as int);
        lemma_div_toward_zero(gain * w, UNIT as int);
    }
    let push = mul_div(gain, w, UNIT);
    (v as i128 + push) as i64
}

/// The horizontal velocity, rescaled to the cap if it is longer.
pub fn clamp_horizontal(vx: i64, vz: i64, cap: i64) -> (r: (i64, i64))
    requires
        magnitude(vx as int) <= 4 * MAX_SPEED,
        magnitude(vz as int) <= 4 * MAX_SPEED,
        0 < cap <= MAX_SPEED,
    ensures
        r.0 == clamped(vx as int, vz as int, cap as int).0,
        r.1 == clamped(vx as int, vz as int, cap as int).1,
        r.0 * r.0 + r.1 * r.1 <= cap * cap,
        magnitude(r.0 as int) <= cap,
        magnitude(r.1 as int) <= cap,
{
    let xx = product(vx, vx);
    let zz = product(vz, vz);
    let cc = product(cap, cap);
    proof {
        lemma_square_bounds(vx as int, 4_000_000_000);
        lemma_square_bounds(vz as int, 4_000_000_000);
        lemma_square_bounds(cap as int, 1_000_000_000);
        lemma_clamped_bounds(vx as int, vz as int, cap as int);
    }
    let speed_sq: i128 = xx + zz;
    if speed_sq > cc {
        let len = sqrt_ceil(speed_sq as u128) as i128;
        let x = quotient(product(vx, cap), len);
        let z = quotient(product(vz, cap), len);
        (x as i64, z as i64)
    } else {
        (vx, vz)
    }
}

/// The vertical velocity after gravity, held at the terminal fall speed.
pub fn fall(vy: i64, gravity: i64, terminal: i64, dt: u64) -> (y: i64)
    requires
        magnitude(vy as int) <= MAX_SPEED,
        -MAX_SPEED <= gravity < 0,
        0 < terminal <= MAX_SPEED,
    ensures
        y == fallen(vy as int, gravity as int, terminal as int, dt as int),
        -terminal <= y,
        y <= vy || y == -terminal,
        magnitude(y as int) <= MAX_SPEED,
{
    proof {
        lemma_product_bound(
            gravity as int,
            dt as int,
            MAX_SPEED as int,
            0x1_0000_0000_0000_0000,
        );
        assert(gravity * dt <= 0) by (nonlinear_arith)
            requires
                gravity < 0,
                dt >= 0,
        ;
        lemma_div_toward_zero(gravity * dt, SECOND as int);
    }
    let pull = quotient((gravity as i128) * (dt as i128), SECOND as i128);
    let y: i128 = vy as i128 + pull;
    if y < -(terminal as i128) {
        -terminal
    } else {
        y as i64
    }
}

/// The factor by which friction scales the horizontal velocity this tick.
pub fn friction_scale(coefficient: i64, dt: u64) -> (factor: i64)
    requires
        0 < coefficient <= MAX_SPEED,
    ensures
        factor == friction_factor(coefficient as int, dt as int),
        0 <= factor <= UNIT,
{
    proof {
        lemma_product_bound(
            coefficient as int,
            dt as int,
            MAX_SPEED as int,
            0x1_0000_0000_0000_0000,
        );
        assert(coefficient * dt >= 0) by (nonlinear_arith)
            requires
                coefficient > 0,
                dt >= 0,
        ;
        lemma_div_toward_zero(coefficient * dt, SECOND as int);
    }
    let drop = quotient((coefficient as i128) * (dt as i128), SECOND as i128);
    if drop >= UNIT as i128 {
        0
    } else {
        (UNIT as i128 - drop) as i64
    }
}

/// The horizontal velocity scaled by a friction factor, at rest once it is
/// slower than `STOP_SPEED`.
pub fn slow_down(vx: i64, vz: i64, factor: i64) -> (r: (i64, i64))
    requires
        magnitude(vx as int) <= MAX_SPEED,
        magnitude(vz as int) <= MAX_SPEED,
        0 <= factor <= UNIT,
    ensures
        r.0 == slowed(vx as int, vz as int, factor as int).0,
        r.1 == slowed(vx as int, vz as int, factor as int).1,
        magnitude(r.0 as int) <= magnitude(vx as int),
        magnitude(r.1 as int) <= magnitude(vz as int),
{
    proof {
        lemma_product_bound(vx as int, factor as int, magnitude(vx as int), UNIT as int);
        lemma_product_bound(vz as int, factor as int, magnitude(vz as int), UNIT as int);
        lemma_div_toward_zero(vx * factor, UNIT as int);
        lemma_div_toward_zero(vz * factor, UNIT as int);
    }
    let x = mul_div(vx, factor, UNIT) as i64;
    let z = mul_div(vz, factor, UNIT) as i64;
    let xx = product(x, x);
    let zz = product(z, z);
    proof {
        lemma_square_bounds(x as int, MAX_SPEED as int);
        lemma_square_bounds(z as int, MAX_SPEED as int);
    }
    if xx + zz < 1_000_000 {
        (0, 0)
    } else {
        (x, z)
    }
}

/// Whether a velocity is no longer than `MAX_SPEED`.
pub fn is_sane(x: i64, y: i64, z: i64) -> (b: bool)
    requires
        magnitude(x as int) <= MAX_SPEED,
        magnitude(y as int) <= MAX_SPEED,
        magnitude(z as int) <= MAX_SPEED,
    ensures
        b == sane(x as int, y as int, z as int),
{
    let xx = product(x, x);
    let yy = product(y, y);
    let zz = product(z, z);
    proof {
        lemma_square_bounds(x as int, MAX_SPEED as int);
        lemma_square_bounds(y as int, MAX_SPEED as int);
        lemma_square_bounds(z as int, MAX_SPEED as int);
    }
    xx + yy + zz <= 1_000_000_000_000_000_000
}

/// A magnitude that does not grow keeps the square from growing.
pub proof fn lemma_smaller_square(a: int, b: int)
    requires
        magnitude(a) <= magnitude(b),
    ensures
        a * a <= b * b,
{
    assert(a * a <= b * b) by (nonlinear_arith)
        requires
            magnitude(a) <= magnitude(b),
    ;
}

/// Advance the velocity by one tick of `dt` microseconds: accelerate along
/// the wish direction at the ground or air rate, cap the horizontal speed,
/// apply gravity while airborne and friction while grounded with no wish, and
/// reset a velocity that is not sane to zero.
pub fn apply_acceleration_cpma(state: &mut MovementState, settings: &GameSettings, dt: u64)
    requires
        old(state).wf(),
        settings.wf(),
    ensures
        *final(state) == integrated(*old(state), *settings, dt),
        final(state).velocity.0.x == integrated_velocity(*old(state), *settings, dt as int).0,
        final(state).velocity.0.y == integrated_velocity(*old(state), *settings, dt as int).1,
        final(state).velocity.0.z == integrated_velocity(*old(state), *settings, dt as int).2,
        final(state).wf(),
        final(state).velocity.0.length_squared() <= MAX_SPEED * MAX_SPEED,
        final(state).velocity.0.horizontal_squared() <= settings.speed_cap(old(state).grounded)
            * settings.speed_cap(old(state).grounded),
{
    let v = state.velocity.0;
    let w = state.wish_direction.0;
    let grounded = state.grounded;
    let cap = settings.speed_cap(grounded);
    let gain = wish_gain(v.x, v.z, &w, state.wish_speed.0, settings.accel(grounded), dt);
    let pushed_x = accelerate(v.x, w.x, gain);
    let pushed_z = accelerate(v.z, w.z, gain);
    let capped = clamp_horizontal(pushed_x, pushed_z, cap);
    let y = if grounded {
        v.y
    } else {
        fall(v.y, settings.gravity, settings.terminal_fall_speed, dt)
    };
    let rubbed = if grounded && w.is_zero() {
        slow_down(capped.0, capped.1, friction_scale(settings.friction_coefficient, dt))
    } else {
        capped
    };
    let next = if is_sane(rubbed.0, y, rubbed.1) {
        Vec3 { x: rubbed.0, y, z: rubbed.1 }
    } else {
        Vec3 { x: 0, y: 0, z: 0 }
    };
    proof {
        lemma_integrated_is_sane_and_capped(*state, *settings, dt);
    }
    state.velocity = Velocity(next);
}

} // verus!
