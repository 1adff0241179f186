//! Angle wrapping and critically damped smoothing of scalars.
//!
//! Angles are in radians, in fixed point like every other quantity.
use vstd::prelude::*;
use crate::fixed::{
    clamp_int, clamp_range, div_floor, fx_mul_t, in_range, lemma_div_range, mul_fx_t, saturate, LIMIT,
    ONE,
};

verus! {

/// A half turn, `π` rounded to the nearest millionth.
pub const PI: i64 = 3_141_593;

/// A full turn, exactly twice `PI`.
pub const TAU: i64 = 6_283_186;

/// The shortest smoothing time that the damping honours (`1e-5` s).
pub const MIN_SMOOTH_TIME: i64 = 10;

/// `t` wrapped into `[0, length)` when `t >= 0`, and into `(-length, 0]`
/// when `t < 0`: negative values repeat symmetrically to positive ones.
pub open spec fn repeat_spec(t: int, length: int) -> int {
    if t >= 0 {
        t % length
    } else {
        -((-t) % length)
    }
}

/// The signed difference from `current` to `target`, wrapped by whole
/// turns: `repeat(target - current, TAU)`, less a turn when that exceeds a
/// half turn and, symmetrically, plus a turn when it falls below minus a
/// half turn.
pub open spec fn delta_angle_spec(current: int, target: int) -> int {
    let d = repeat_spec(target - current, TAU as int);
    if d > PI {
        d - TAU
    } else if d < -PI {
        d + TAU
    } else {
        d
    }
}

fn repeat_wide(t: i128, length: i128) -> (r: i128)
    requires
        length > 0,
        t > i128::MIN,
    ensures
        r == repeat_spec(t as int, length as int),
        -length < r < length,
{
    if t >= 0 {
        t % length
    } else {
        -((-t) % length)
    }
}

/// Wraps `t` by whole multiples of `length`, keeping its sign: the result
/// lies in `[0, length)` for `t >= 0` and in `(-length, 0]` for `t < 0`.
pub fn repeat(t: i64, length: i64) -> (r: i64)
    requires
        length > 0,
    ensures
        r == repeat_spec(t as int, length as int),
        t >= 0 ==> 0 <= r < length,
        t < 0 ==> -length < r <= 0,
{
    repeat_wide(t as i128, length as i128) as i64
}

/// The shortest signed turn from `current` to `target`: the difference of
/// the two angles, wrapped by whole turns into `[-π, π]`.
pub fn delta_angle(current: i64, target: i64) -> (r: i64)
    ensures
        r == delta_angle_spec(current as int, target as int),
        -PI <= r <= PI,
        (r - (target - current)) % (TAU as int) == 0,
{
    let mut delta = repeat_wide(target as i128 - current as i128, TAU as i128);
    if delta > PI as i128 {
        delta = delta - TAU as i128;
    } else if delta < -(PI as i128) {
        delta = delta + TAU as i128;
    }
    proof {
        let t = target - current;
        let m = TAU as int;
        let k: int = if t >= 0 {
            vstd::arithmetic::div_mod::lemma_fundamental_div_mod(t, m);
            if t % m > PI {
                -(t / m) - 1
            } else {
                -(t / m)
            }
        } else {
            vstd::arithmetic::div_mod::lemma_fundamental_div_mod(-t, m);
            if -((-t) % m) < -PI {
                (-t) / m + 1
            } else {
                (-t) / m
            }
        };
        assert(delta - t == k * m) by (nonlinear_arith)
            requires
                t >= 0 ==> t == m * (t / m) + t % m,
                t < 0 ==> -t == m * ((-t) / m) + (-t) % m,
                t >= 0 ==> delta == t % m || delta == t % m - m,
                t >= 0 && t % m > PI ==> delta == t % m - m && k == -(t / m) - 1,
                t >= 0 && t % m <= PI ==> delta == t % m && k == -(t / m),
                t < 0 && -((-t) % m) < -PI ==> delta == -((-t) % m) + m && k == (-t) / m + 1,
                t < 0 && -((-t) % m) >= -PI ==> delta == -((-t) % m) && k == (-t) / m,
        ;
        vstd::arithmetic::div_mod::lemma_mod_multiples_basic(k, m);
    }
    delta as i64
}

/// The decay over a step of `x = omega * dt` (fixed point) of a critically
/// damped spring, `1 / (1 + x + 0.48 x² + 0.235 x³)`, rounded down; numerator
/// and denominator are scaled by `1000 * ONE³` to stay in integers.
pub open spec fn damp_factor(x: int) -> int {
    1_000_000_000_000_000_000_000_000_000int / (1_000_000_000_000_000_000_000 + 1_000_000_000_000_000
        * x + 480_000_000 * (x * x) + 235 * (x * x * x))
}

/// One step of the damped approach of `current` towards `target`, as the
/// pair (new value, new velocity). The smoothing time is at least
/// `MIN_SMOOTH_TIME`; the distance that the spring pulls across is capped at
/// `max_speed * smooth_time`. Products round towards zero, so that the step
/// mirrors exactly when every input changes sign. A step that would end
/// strictly beyond the target, on the far side from `current`, lands on it
/// and stops there; when `current` already equals `target` no step is
/// treated as crossing it.
pub open spec fn smooth_damp_spec(
    current: int,
    target: int,
    velocity: int,
    smooth_time: int,
    max_speed: int,
    dt: int,
) -> (int, int) {
    let st = if smooth_time > MIN_SMOOTH_TIME {
        smooth_time
    } else {
        MIN_SMOOTH_TIME as int
    };
    let omega = (2 * ONE * ONE) / st;
    let x = fx_mul_t(omega, dt);
    let e = damp_factor(x);
    let max_change = fx_mul_t(max_speed, st);
    let change = clamp_int(current - target, -max_change, max_change);
    let target_rel = current - change;
    let temp = fx_mul_t(velocity, dt) + fx_mul_t(x, change);
    let velocity_new = fx_mul_t(velocity - fx_mul_t(omega, temp), e);
    let output = target_rel + fx_mul_t(change + temp, e);
    if (target > current && output > target) || (target < current && output < target) {
        (target, 0)
    } else {
        (clamp_range(output), clamp_range(velocity_new))
    }
}

/// The smoothing time that the damping uses: `smooth_time`, but at least
/// `MIN_SMOOTH_TIME`.
pub open spec fn effective_smooth_time(smooth_time: int) -> int {
    if smooth_time > MIN_SMOOTH_TIME {
        smooth_time
    } else {
        MIN_SMOOTH_TIME as int
    }
}

/// The decay never exceeds `1 / (1 + x)`.
proof fn lemma_damp_factor_bound(x: int)
    requires
        x >= 0,
    ensures
        damp_factor(x) >= 0,
        damp_factor(x) * (ONE + x) <= ONE * ONE,
{
    let n = 1_000_000_000_000_000_000_000_000_000int;
    let d = 1_000_000_000_000_000_000_000 + 1_000_000_000_000_000 * x + 480_000_000 * (x * x) + 235 * (
    x * x * x);
    assert(x * x >= 0 && x * x * x >= 0) by (nonlinear_arith)
        requires
            x >= 0,
    ;
    let e = n / d;
    vstd::arithmetic::div_mod::lemma_fundamental_div_mod(n, d);
    vstd::arithmetic::div_mod::lemma_mod_bound(n, d);
    vstd::arithmetic::div_mod::lemma_div_pos_is_pos(n, d);
    assert(e * (1_000_000 + x) <= 1_000_000_000_000) by (nonlinear_arith)
        requires
            n == d * e + n % d,
            n % d >= 0,
            e >= 0,
            d >= 1_000_000_000_000_000 * (1_000_000 + x),
            n == 1_000_000_000_000_000_000_000_000_000,
    ;
}

/// From rest, the spring moves a value `a >= 0` away from the target back
/// by a share of `a` that lies in `[0, a]`.
proof fn lemma_rest_step(a: int, x: int, e: int)
    requires
        a >= 0,
        x >= 0,
        e >= 0,
        e * (ONE + x) <= ONE * ONE,
    ensures
        0 <= fx_mul_t(a + fx_mul_t(x, a), e) <= a,
{
    let s = ONE as int;
    assert(x * a >= 0) by (nonlinear_arith)
        requires
            x >= 0,
            a >= 0,
    ;
    let f = (x * a) / s;
    vstd::arithmetic::div_mod::lemma_fundamental_div_mod(x * a, s);
    vstd::arithmetic::div_mod::lemma_div_pos_is_pos(x * a, s);
    assert(f * s <= x * a);
    let b = a + f;
    assert(0 <= b * e <= a * s) by (nonlinear_arith)
        requires
            f * s <= x * a,
            f >= 0,
            b == a + f,
            a >= 0,
            e >= 0,
            e * (s + x) <= s * s,
            s > 0,
    {
        assert(b * e * s == (a * s + f * s) * e);
        assert((a * s + f * s) * e <= (a * s + x * a) * e);
        assert((a * s + x * a) * e == a * (e * (s + x)));
        assert(a * (e * (s + x)) <= a * (s * s));
    }
    vstd::arithmetic::div_mod::lemma_div_pos_is_pos(b * e, s);
    lemma_div_range(b * e, s, a);
}

fn damp_factor_exec(x: i128) -> (e: i128)
    requires
        0 <= x,
    ensures
        e == damp_factor(x as int),
        0 <= e <= ONE,
{
    let ghost xi = x as int;
    let ghost d = 1_000_000_000_000_000_000_000 + 1_000_000_000_000_000 * xi + 480_000_000 * (xi * xi)
        + 235 * (xi * xi * xi);
    proof {
        assert(xi * xi >= 0 && xi * xi * xi >= 0) by (nonlinear_arith)
            requires
                xi >= 0,
        ;
        vstd::arithmetic::div_mod::lemma_div_is_ordered_by_denominator(
            1_000_000_000_000_000_000_000_000_000,
            1_000_000_000_000_000_000_000,
            d,
        );
    }
    if x > 1_000_000_000 {
        proof {
            assert(xi * xi * xi > 1_000_000_000_000_000_000_000_000_000) by (nonlinear_arith)
                requires
                    xi > 1_000_000_000,
            ;
            vstd::arithmetic::div_mod::lemma_basic_div(1_000_000_000_000_000_000_000_000_000, d);
        }
        0
    } else {
        proof {
            assert(xi * xi <= 1_000_000_000_000_000_000) by (nonlinear_arith)
                requires
                    0 <= xi <= 1_000_000_000,
            ;
            assert(xi * xi * xi <= 1_000_000_000_000_000_000_000_000_000) by (nonlinear_arith)
                requires
                    0 <= xi <= 1_000_000_000,
                    xi * xi <= 1_000_000_000_000_000_000,
            ;
        }
        let x2 = x * x;
        let x3 = x2 * x;
        let den = 1_000_000_000_000_000_000_000 + 1_000_000_000_000_000 * x + 480_000_000 * x2 + 235 * x3;
        1_000_000_000_000_000_000_000_000_000 / den
    }
}

/// One step of a critically damped spring that carries `current` towards
/// `target` in about `smooth_time` seconds, with `velocity` the rate of
/// change from the previous step. Returns the new value and the new
/// velocity (see `smooth_damp_spec`). The new value never passes the target:
/// a step that would cross it lands on it, with velocity zero. From rest the
/// step moves towards the target, never past it, and by at most
/// `max_speed * smooth_time`.
pub fn smooth_damp(
    current: i64,
    target: i64,
    velocity: i64,
    smooth_time: i64,
    max_speed: i64,
    delta_time: i64,
) -> (r: (i64, i64))
    requires
        in_range(current as int),
        in_range(target as int),
        in_range(velocity as int),
        in_range(smooth_time as int),
        0 <= max_speed <= LIMIT,
        0 <= delta_time <= LIMIT,
    ensures
        (r.0 as int, r.1 as int) == smooth_damp_spec(
            current as int,
            target as int,
            velocity as int,
            smooth_time as int,
            max_speed as int,
            delta_time as int,
        ),
        in_range(r.0 as int),
        in_range(r.1 as int),
        target > current ==> r.0 <= target,
        target < current ==> r.0 >= target,
        velocity == 0 && current <= target ==> current <= r.0 <= target,
        velocity == 0 && target <= current ==> target <= r.0 <= current,
        velocity == 0 ==> -fx_mul_t(max_speed as int, effective_smooth_time(smooth_time as int)) <= r.0
            - current <= fx_mul_t(max_speed as int, effective_smooth_time(smooth_time as int)),
{
    let st: i128 = if smooth_time > MIN_SMOOTH_TIME {
        smooth_time as i128
    } else {
        MIN_SMOOTH_TIME as i128
    };
    let omega = div_floor(2_000_000_000_000, st);
    proof {
        vstd::arithmetic::div_mod::lemma_div_is_ordered_by_denominator(2_000_000_000_000, 10, st as int);
        vstd::arithmetic::div_mod::lemma_div_pos_is_pos(2_000_000_000_000, st as int);
    }
    assert(0 <= omega <= 200_000_000_000);
    let dt = delta_time as i128;
    let x = mul_fx_t(omega, dt, Ghost(200_000_000_000), Ghost(LIMIT as int), Ghost(200_000_000_000_000_000));
    proof {
        assert(omega * dt >= 0) by (nonlinear_arith)
            requires
                omega >= 0,
                dt >= 0,
        ;
        vstd::arithmetic::div_mod::lemma_div_pos_is_pos(omega * dt, ONE as int);
    }
    let e = damp_factor_exec(x);
    let max_change = mul_fx_t(
        max_speed as i128,
        st,
        Ghost(LIMIT as int),
        Ghost(LIMIT as int),
        Ghost(1_000_000_000_000_000_000),
    );
    proof {
        assert(max_speed * st >= 0) by (nonlinear_arith)
            requires
                max_speed >= 0,
                st >= 0,
        ;
        vstd::arithmetic::div_mod::lemma_div_pos_is_pos(max_speed * st, ONE as int);
    }
    let ch = current as i128 - target as i128;
    let change = if ch < -max_change {
        -max_change
    } else if ch > max_change {
        max_change
    } else {
        ch
    };
    let target_rel = current as i128 - change;
    let vd = mul_fx_t(
        velocity as i128,
        dt,
        Ghost(LIMIT as int),
        Ghost(LIMIT as int),
        Ghost(1_000_000_000_000_000_000),
    );
    let xc = mul_fx_t(
        x,
        change,
        Ghost(200_000_000_000_000_000),
        Ghost(2_000_000_000_000),
        Ghost(400_000_000_000_000_000_000_000),
    );
    let temp = vd + xc;
    let ot = mul_fx_t(
        omega,
        temp,
        Ghost(200_000_000_000),
        Ghost(500_000_000_000_000_000_000_000),
        Ghost(100_000_000_000_000_000_000_000_000_000),
    );
    let velocity_new = mul_fx_t(
        velocity as i128 - ot,
        e,
        Ghost(200_000_000_000_000_000_000_000_000_000),
        Ghost(ONE as int),
        Ghost(200_000_000_000_000_000_000_000_000_000),
    );
    let pull = mul_fx_t(
        change + temp,
        e,
        Ghost(600_000_000_000_000_000_000_000),
        Ghost(ONE as int),
        Ghost(600_000_000_000_000_000_000_000),
    );
    let output = target_rel + pull;
    proof {
        if velocity == 0 {
            lemma_damp_factor_bound(x as int);
            assert((velocity as int) * (dt as int) == 0) by (nonlinear_arith)
                requires
                    velocity == 0,
            ;
            assert(vd == 0);
            if change >= 0 {
                lemma_rest_step(change as int, x as int, e as int);
            } else {
                let a = -change;
                lemma_rest_step(a as int, x as int, e as int);
                assert(fx_mul_t(x as int, change as int) == -fx_mul_t(x as int, a as int)) by (nonlinear_arith)
                    requires
                        change == -a,
                        a > 0,
                        x >= 0,
                ;
                assert(pull == -fx_mul_t(a + fx_mul_t(x as int, a as int), e as int)) by (nonlinear_arith)
                    requires
                        change + temp == -(a + fx_mul_t(x as int, a as int)),
                        pull == fx_mul_t(change + temp, e as int),
                        e >= 0,
                        a + fx_mul_t(x as int, a as int) >= 0,
                ;
            }
        }
    }
    let t = target as i128;
    let c = current as i128;
    if (t > c && output > t) || (t < c && output < t) {
        (target, 0)
    } else {
        (saturate(output), saturate(velocity_new))
    }
}

/// The target of an angular approach from `current`: `target` moved by whole
/// turns to lie within half a turn of `current`, so that the approach never goes
/// the long way round.
pub open spec fn unwrapped_target(current: int, target: int) -> int {
    clamp_range(current + delta_angle_spec(current, target))
}

/// `smooth_damp` for an angle: the approach of `current` towards `target`
/// takes the turn given by `delta_angle` rather than the raw difference, so
/// it aims at a target within half a turn of `current`; from rest it moves
/// towards that target, never past it and never the long way round.
pub fn smooth_damp_angle(
    current: i64,
    target: i64,
    velocity: i64,
    smooth_time: i64,
    max_speed: i64,
    delta_time: i64,
) -> (r: (i64, i64))
    requires
        in_range(current as int),
        in_range(target as int),
        in_range(velocity as int),
        in_range(smooth_time as int),
        0 <= max_speed <= LIMIT,
        0 <= delta_time <= LIMIT,
    ensures
        (r.0 as int, r.1 as int) == smooth_damp_spec(
            current as int,
            unwrapped_target(current as int, target as int),
            velocity as int,
            smooth_time as int,
            max_speed as int,
            delta_time as int,
        ),
        in_range(r.0 as int),
        in_range(r.1 as int),
        -PI <= unwrapped_target(current as int, target as int) - current <= PI,
        ({
            let u = unwrapped_target(current as int, target as int);
            let m = fx_mul_t(max_speed as int, effective_smooth_time(smooth_time as int));
            &&& u > current ==> r.0 <= u
            &&& u < current ==> r.0 >= u
            &&& velocity == 0 && current <= u ==> current <= r.0 <= u
            &&& velocity == 0 && u <= current ==> u <= r.0 <= current
            &&& velocity == 0 ==> -m <= r.0 - current <= m
            &&& velocity == 0 ==> -PI <= r.0 - current <= PI
        }),
{
    let target_fixed = saturate(current as i128 + delta_angle(current, target) as i128);
    smooth_damp(current, target_fixed, velocity, smooth_time, max_speed, delta_time)
}

} // verus!
