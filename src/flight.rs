//! Flight steering: an agent that pursues a goal velocity by smoothing its
//! forward speed, pitch and yaw, each towards its own target.
use vstd::prelude::*;
use crate::fixed::{
    clamp_int, clamp_range, div_floor, floor_sqrt, fx_mul, in_range, is_floor_sqrt, lemma_div_range,
    lemma_floor_sqrt_unique, mul_fx, saturate, LIMIT, ONE,
};
use crate::jaymath::{smooth_damp, smooth_damp_angle, smooth_damp_spec, unwrapped_target};
use crate::vector::{
    dot, length, lemma_component_within_length, lemma_components_within_norm, norm_sq, Vec3,
};

verus! {

/// The smoothing time of speed, pitch and yaw (a tenth of a second).
pub const SMOOTH_TIME: i64 = 100_000;

/// A flying agent: its forward speed, pitch (`ang_x`) and yaw (`ang_y`),
/// each with its rate of change.
#[derive(Clone, Copy, Debug)]
pub struct Flyer {
    pub speed_linear: i64,
    pub accel_linear: i64,
    pub ang_x: i64,
    pub ang_y: i64,
    pub ang_x_vel: i64,
    pub ang_y_vel: i64,
}

/// The limits of a flyer's motion.
#[derive(Clone, Copy, Debug)]
pub struct FlyerProps {
    pub accel_max: i64,
    pub spd_min: i64,
    pub spd_max: i64,
    pub ang_spd_x_max: i64,
    pub ang_spd_y_max: i64,
}

/// The velocity that a flyer would like to reach.
#[derive(Clone, Copy, Debug)]
pub struct FlyerGoalVelocity {
    pub velocity: Vec3,
}

/// The goal velocity reduced to a target speed, pitch and yaw.
#[derive(Clone, Copy, Debug)]
pub struct FlyerGoalComponents {
    pub speed_linear: i64,
    pub ang_x: i64,
    pub ang_y: i64,
}

impl Flyer {
    pub open spec fn valid(self) -> bool {
        &&& in_range(self.speed_linear as int)
        &&& in_range(self.accel_linear as int)
        &&& in_range(self.ang_x as int)
        &&& in_range(self.ang_y as int)
        &&& in_range(self.ang_x_vel as int)
        &&& in_range(self.ang_y_vel as int)
    }
}

impl FlyerProps {
    pub open spec fn valid(self) -> bool {
        &&& 0 <= self.accel_max <= LIMIT
        &&& in_range(self.spd_min as int)
        &&& in_range(self.spd_max as int)
        &&& 0 <= self.ang_spd_x_max <= LIMIT
        &&& 0 <= self.ang_spd_y_max <= LIMIT
    }
}

impl FlyerGoalComponents {
    pub open spec fn valid(self) -> bool {
        &&& in_range(self.speed_linear as int)
        &&& in_range(self.ang_x as int)
        &&& in_range(self.ang_y as int)
    }
}

/// The flyer after one steering step of `dt` seconds towards `goal`: speed,
/// pitch and yaw each take one `smooth_damp` step (the two angles the short
/// way round), with `SMOOTH_TIME` and the limits of `props`.
pub open spec fn steered_flyer(f: Flyer, props: FlyerProps, goal: FlyerGoalComponents, dt: int) -> Flyer {
    let s = smooth_damp_spec(
        f.speed_linear as int,
        goal.speed_linear as int,
        f.accel_linear as int,
        SMOOTH_TIME as int,
        props.accel_max as int,
        dt,
    );
    let ax = smooth_damp_spec(
        f.ang_x as int,
        unwrapped_target(f.ang_x as int, goal.ang_x as int),
        f.ang_x_vel as int,
        SMOOTH_TIME as int,
        props.ang_spd_x_max as int,
        dt,
    );
    let ay = smooth_damp_spec(
        f.ang_y as int,
        unwrapped_target(f.ang_y as int, goal.ang_y as int),
        f.ang_y_vel as int,
        SMOOTH_TIME as int,
        props.ang_spd_y_max as int,
        dt,
    );
    Flyer {
        speed_linear: s.0 as i64,
        accel_linear: s.1 as i64,
        ang_x: ax.0 as i64,
        ang_x_vel: ax.1 as i64,
        ang_y: ay.0 as i64,
        ang_y_vel: ay.1 as i64,
    }
}

/// One steering step of `dt` seconds (see `steered_flyer`).
pub fn flyer_steering(flyer: &mut Flyer, props: &FlyerProps, goal: &FlyerGoalComponents, dt: i64)
    requires
        old(flyer).valid(),
        props.valid(),
        goal.valid(),
        0 <= dt <= LIMIT,
    ensures
        *final(flyer) == steered_flyer(*old(flyer), *props, *goal, dt as int),
        final(flyer).valid(),
{
    let (spd_new, accel_new) = smooth_damp(
        flyer.speed_linear,
        goal.speed_linear,
        flyer.accel_linear,
        SMOOTH_TIME,
        props.accel_max,
        dt,
    );
    let (ang_x_new, ang_x_vel_new) = smooth_damp_angle(
        flyer.ang_x,
        goal.ang_x,
        flyer.ang_x_vel,
        SMOOTH_TIME,
        props.ang_spd_x_max,
        dt,
    );
    let (ang_y_new, ang_y_vel_new) = smooth_damp_angle(
        flyer.ang_y,
        goal.ang_y,
        flyer.ang_y_vel,
        SMOOTH_TIME,
        props.ang_spd_y_max,
        dt,
    );
    *flyer = Flyer {
        speed_linear: spd_new,
        accel_linear: accel_new,
        ang_x: ang_x_new,
        ang_x_vel: ang_x_vel_new,
        ang_y: ang_y_new,
        ang_y_vel: ang_y_vel_new,
    };
}

/// The direction of `v` scaled to length `ONE` (each component rounded
/// down), or zero when `v` is zero and has no direction.
pub open spec fn direction_spec(v: Vec3) -> Vec3 {
    let len = floor_sqrt(norm_sq(v));
    if len == 0 {
        Vec3 { x: 0, y: 0, z: 0 }
    } else {
        Vec3 {
            x: ((v.x * ONE) / len) as i64,
            y: ((v.y * ONE) / len) as i64,
            z: ((v.z * ONE) / len) as i64,
        }
    }
}

/// The target speed for the goal velocity `goal` of a flyer facing
/// `forward` (a unit vector): the goal's speed when the flyer faces the goal,
/// falling linearly to `spd_min` as the angle between them grows to a right
/// angle and beyond, and never above `spd_max`.
pub open spec fn goal_speed_spec(goal: Vec3, forward: Vec3, props: FlyerProps) -> int {
    let speed = floor_sqrt(norm_sq(goal));
    let t = clamp_int(dot(direction_spec(goal), forward) / (ONE as int), 0, ONE as int);
    let blended = props.spd_min + fx_mul(speed - props.spd_min, t);
    if blended < props.spd_max {
        blended
    } else {
        props.spd_max as int
    }
}

fn unit_component(c: i64, len: i64, Ghost(n): Ghost<int>) -> (r: i64)
    requires
        in_range(c as int),
        len > 0,
        c * c <= n,
        is_floor_sqrt(n, len as int),
    ensures
        r == (c * ONE) / (len as int),
        -ONE <= r <= ONE,
{
    proof {
        lemma_component_within_length(c as int, n, len as int);
        let ci = c as int;
        let li = len as int;
        assert(-(li * ONE) <= ci * ONE <= li * ONE) by (nonlinear_arith)
            requires
                -li <= ci <= li,
        ;
        lemma_div_range(ci * ONE, li, ONE as int);
    }
    div_floor(c as i128 * ONE as i128, len as i128) as i64
}

/// The direction of the goal velocity `goal`, scaled to length `ONE`; zero
/// for a zero goal.
pub fn flyer_goal_direction(goal: Vec3) -> (r: Vec3)
    requires
        goal.valid(),
    ensures
        r == direction_spec(goal),
        -ONE <= r.x <= ONE,
        -ONE <= r.y <= ONE,
        -ONE <= r.z <= ONE,
{
    let len = length(&goal);
    if len == 0 {
        return Vec3::zero();
    }
    let ghost n = norm_sq(goal);
    proof {
        lemma_components_within_norm(goal);
    }
    Vec3 {
        x: unit_component(goal.x, len, Ghost(n)),
        y: unit_component(goal.y, len, Ghost(n)),
        z: unit_component(goal.z, len, Ghost(n)),
    }
}

proof fn lemma_lerp_between(a: int, b: int, t: int)
    requires
        0 <= t <= ONE,
    ensures
        a <= b ==> a <= a + fx_mul(b - a, t) <= b,
        b < a ==> b <= a + fx_mul(b - a, t) <= a,
{
    let d = b - a;
    let s = ONE as int;
    assert(d >= 0 ==> 0 <= d * t <= d * s) by (nonlinear_arith)
        requires
            0 <= t <= s,
    ;
    assert(d < 0 ==> d * s <= d * t <= 0) by (nonlinear_arith)
        requires
            0 <= t <= s,
    ;
    if d >= 0 {
        vstd::arithmetic::div_mod::lemma_div_is_ordered(0, d * t, s);
        vstd::arithmetic::div_mod::lemma_div_is_ordered(d * t, d * s, s);
        vstd::arithmetic::div_mod::lemma_div_multiples_vanish(d, s);
    } else {
        vstd::arithmetic::div_mod::lemma_div_is_ordered(d * t, 0, s);
        vstd::arithmetic::div_mod::lemma_div_is_ordered(d * s, d * t, s);
        vstd::arithmetic::div_mod::lemma_div_multiples_vanish(d, s);
    }
}

/// The target speed of a flyer facing `forward` (a unit vector, components
/// in `[-ONE, ONE]`) for the goal velocity `goal` (see `goal_speed_spec`).
pub fn flyer_goal_speed(goal: &FlyerGoalVelocity, forward: Vec3, props: &FlyerProps) -> (r: i64)
    requires
        goal.velocity.valid(),
        -ONE <= forward.x <= ONE,
        -ONE <= forward.y <= ONE,
        -ONE <= forward.z <= ONE,
        props.valid(),
    ensures
        r == goal_speed_spec(goal.velocity, forward, *props),
        r <= props.spd_max,
        in_range(r as int),
{
    let speed = length(&goal.velocity);
    let dir = flyer_goal_direction(goal.velocity);
    proof {
        lemma_floor_sqrt_unique(norm_sq(goal.velocity), speed as int);
        let (dx, dy, dz) = (dir.x as int, dir.y as int, dir.z as int);
        let (fx, fy, fz) = (forward.x as int, forward.y as int, forward.z as int);
        assert(-ONE * ONE <= dx * fx <= ONE * ONE) by (nonlinear_arith)
            requires
                -ONE <= dx <= ONE,
                -ONE <= fx <= ONE,
        ;
        assert(-ONE * ONE <= dy * fy <= ONE * ONE) by (nonlinear_arith)
            requires
                -ONE <= dy <= ONE,
                -ONE <= fy <= ONE,
        ;
        assert(-ONE * ONE <= dz * fz <= ONE * ONE) by (nonlinear_arith)
            requires
                -ONE <= dz <= ONE,
                -ONE <= fz <= ONE,
        ;
    }
    let d = dir.x as i128 * forward.x as i128 + dir.y as i128 * forward.y as i128 + dir.z as i128
        * forward.z as i128;
    let q = div_floor(d, ONE as i128);
    let t = if q < 0 {
        0
    } else if q > ONE as i128 {
        ONE as i128
    } else {
        q
    };
    let spd_min = props.spd_min as i128;
    let blended = spd_min + mul_fx(
        speed as i128 - spd_min,
        t,
        Ghost(3_000_000_000_000),
        Ghost(ONE as int),
        Ghost(3_000_000_000_000),
    );
    proof {
        lemma_lerp_between(spd_min as int, speed as int, t as int);
    }
    if blended < props.spd_max as i128 {
        blended as i64
    } else {
        props.spd_max
    }
}

/// Advances a flyer at `position` facing `forward` (a unit vector) at
/// `speed` for `dt` seconds.
pub open spec fn advanced(position: Vec3, forward: Vec3, speed: int, dt: int) -> Vec3 {
    Vec3 {
        x: clamp_range(position.x + fx_mul(fx_mul(forward.x as int, speed), dt)) as i64,
        y: clamp_range(position.y + fx_mul(fx_mul(forward.y as int, speed), dt)) as i64,
        z: clamp_range(position.z + fx_mul(fx_mul(forward.z as int, speed), dt)) as i64,
    }
}

fn advance_component(p: i64, f: i64, speed: i64, dt: i64) -> (r: i64)
    requires
        in_range(p as int),
        -ONE <= f <= ONE,
        in_range(speed as int),
        0 <= dt <= LIMIT,
    ensures
        r == clamp_range(p + fx_mul(fx_mul(f as int, speed as int), dt as int)),
{
    let step = mul_fx(f as i128, speed as i128, Ghost(ONE as int), Ghost(LIMIT as int), Ghost(LIMIT as int));
    let moved = mul_fx(
        step,
        dt as i128,
        Ghost(LIMIT as int),
        Ghost(LIMIT as int),
        Ghost(1_000_000_000_000_000_000),
    );
    saturate(p as i128 + moved)
}

/// Moves a flyer at `position`, facing `forward` (a unit vector), forwards
/// at `speed` for `dt` seconds.
pub fn flyer_movement(position: &mut Vec3, forward: Vec3, speed: i64, dt: i64)
    requires
        old(position).valid(),
        -ONE <= forward.x <= ONE,
        -ONE <= forward.y <= ONE,
        -ONE <= forward.z <= ONE,
        in_range(speed as int),
        0 <= dt <= LIMIT,
    ensures
        *final(position) == advanced(*old(position), forward, speed as int, dt as int),
        final(position).valid(),
{
    let p = *position;
    *position = Vec3 {
        x: advance_component(p.x, forward.x, speed, dt),
        y: advance_component(p.y, forward.y, speed, dt),
        z: advance_component(p.z, forward.z, speed, dt),
    };
}

} // verus!
