use flocking::fixed::ONE;
use flocking::flight::{
    flyer_goal_direction, flyer_goal_speed, flyer_movement, flyer_steering, Flyer, FlyerGoalComponents,
    FlyerGoalVelocity, FlyerProps, SMOOTH_TIME,
};
use flocking::vector::Vec3;

fn v(x: i64, y: i64, z: i64) -> Vec3 {
    Vec3::new(x * ONE, y * ONE, z * ONE)
}

fn props(accel_max: i64) -> FlyerProps {
    FlyerProps {
        accel_max: accel_max * ONE,
        spd_min: ONE,
        spd_max: 7 * ONE,
        ang_spd_x_max: 2 * ONE,
        ang_spd_y_max: 2 * ONE,
    }
}

fn at_rest() -> Flyer {
    Flyer { speed_linear: 0, accel_linear: 0, ang_x: 0, ang_y: 0, ang_x_vel: 0, ang_y_vel: 0 }
}

#[test]
fn goal_direction_is_a_unit_vector() {
    assert_eq!(flyer_goal_direction(v(0, 0, -5)), v(0, 0, -1));
    assert_eq!(flyer_goal_direction(v(3, 4, 0)), Vec3::new(600_000, 800_000, 0));
    assert_eq!(flyer_goal_direction(Vec3::zero()), Vec3::zero());
}

#[test]
fn goal_speed_follows_the_facing() {
    let goal = FlyerGoalVelocity { velocity: v(0, 0, -5) };
    assert_eq!(flyer_goal_speed(&goal, v(0, 0, -1), &props(3)), 5 * ONE);
    // facing away or sideways: the minimum speed
    assert_eq!(flyer_goal_speed(&goal, v(0, 0, 1), &props(3)), ONE);
    assert_eq!(flyer_goal_speed(&goal, v(1, 0, 0), &props(3)), ONE);
    // at cos = 0.8: 1 + (5 - 1) * 0.8
    assert_eq!(flyer_goal_speed(&goal, Vec3::new(600_000, 0, -800_000), &props(3)), 4_200_000);
}

#[test]
fn goal_speed_never_exceeds_the_maximum() {
    let fast = FlyerGoalVelocity { velocity: v(0, 0, -10) };
    assert_eq!(flyer_goal_speed(&fast, v(0, 0, -1), &props(3)), 7 * ONE);
    let none = FlyerGoalVelocity { velocity: Vec3::zero() };
    assert_eq!(flyer_goal_speed(&none, v(0, 0, -1), &props(3)), ONE);
}

#[test]
fn steering_takes_one_damped_step() {
    let mut flyer = at_rest();
    let goal = FlyerGoalComponents { speed_linear: 5 * ONE, ang_x: 0, ang_y: 0 };
    flyer_steering(&mut flyer, &props(100), &goal, ONE / 100);
    assert_eq!((flyer.speed_linear, flyer.accel_linear), (86_318, 16_378_940));
    assert_eq!((flyer.ang_x, flyer.ang_y, flyer.ang_x_vel, flyer.ang_y_vel), (0, 0, 0, 0));
    assert_eq!(SMOOTH_TIME, ONE / 10);
}

#[test]
fn steering_turns_the_short_way() {
    let mut flyer = Flyer { ang_y: 3 * ONE, ..at_rest() };
    let goal = FlyerGoalComponents { speed_linear: 0, ang_x: 0, ang_y: -3 * ONE };
    flyer_steering(&mut flyer, &props(3), &goal, ONE / 100);
    assert!(flyer.ang_y > 3 * ONE);
}

#[test]
fn reaches_goal_speed_within_five_smoothing_times() {
    let goal = FlyerGoalVelocity { velocity: v(0, 0, -5) };
    let p = props(100);
    let mut flyer = at_rest();
    let dt = ONE / 100;
    let ticks = 5 * SMOOTH_TIME / dt;
    for _ in 0..ticks {
        let target = flyer_goal_speed(&goal, v(0, 0, -1), &p);
        let components = FlyerGoalComponents { speed_linear: target, ang_x: 0, ang_y: 0 };
        flyer_steering(&mut flyer, &p, &components, dt);
    }
    assert!((flyer.speed_linear - 5 * ONE).abs() <= 5 * ONE / 100, "{}", flyer.speed_linear);
}

#[test]
fn movement_goes_forward() {
    let mut pos = v(1, 2, 3);
    flyer_movement(&mut pos, v(0, 0, -1), 5 * ONE, ONE / 10);
    assert_eq!(pos, Vec3::new(ONE, 2 * ONE, 3 * ONE - ONE / 2));
}
