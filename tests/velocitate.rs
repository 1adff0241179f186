use flocking::boids::{Alignment, Cohesion, Separation};
use flocking::fixed::ONE;
use flocking::vector::Vec3;
use flocking::velocitate::{
    keep_in_bounds, keep_in_bounds_system, velocitate, velocitate_system, velocitator_limit,
    velocitator_limit_system, velocitator_update, velocitator_update_system, Bounds, Velocitator,
};

fn v(x: i64, y: i64, z: i64) -> Vec3 {
    Vec3::new(x * ONE, y * ONE, z * ONE)
}

fn still(max_speed: i64) -> Velocitator {
    Velocitator { velocity: Vec3::zero(), max_speed }
}

fn bounds(lo: i64, hi: i64, margin: i64) -> Bounds {
    Bounds {
        x_min: lo * ONE,
        x_max: hi * ONE,
        y_min: lo * ONE,
        y_max: hi * ONE,
        z_min: lo * ONE,
        z_max: hi * ONE,
        margin: margin * ONE,
        turn_factor: ONE,
    }
}

#[test]
fn update_blends_the_weighted_factors() {
    let sep = Separation { separation_factor: v(10, 0, 0) };
    let ali = Alignment { alignment_factor: v(0, 5, 0) };
    let coh = Cohesion { cohesion_factor: v(0, 0, 100) };
    let mut vel = still(5 * ONE);
    velocitator_update(&mut vel, &sep, &ali, &coh, ONE);
    assert_eq!(vel.velocity, v(4, 2, 4));
    assert_eq!(vel.max_speed, 5 * ONE);
    velocitator_update(&mut vel, &sep, &ali, &coh, ONE / 2);
    assert_eq!(vel.velocity, v(6, 3, 6));
}

#[test]
fn update_rounds_down() {
    let sep = Separation { separation_factor: Vec3::new(-1, 1, 0) };
    let ali = Alignment { alignment_factor: Vec3::zero() };
    let coh = Cohesion { cohesion_factor: Vec3::zero() };
    let mut vel = still(ONE);
    velocitator_update(&mut vel, &sep, &ali, &coh, ONE);
    assert_eq!(vel.velocity, Vec3::new(-1, 0, 0));
}

#[test]
fn limit_rescales_to_the_maximum_speed() {
    let mut vel = Velocitator { velocity: v(3, 4, 0), max_speed: 10 * ONE };
    velocitator_limit(&mut vel);
    assert_eq!(vel.velocity, v(6, 8, 0));
    let mut slow = Velocitator { velocity: v(0, 0, -20), max_speed: 2 * ONE };
    velocitator_limit(&mut slow);
    assert_eq!(slow.velocity, v(0, 0, -2));
    let mut diagonal = Velocitator { velocity: v(1, 1, 1), max_speed: 3 * ONE };
    velocitator_limit(&mut diagonal);
    assert_eq!(diagonal.velocity, Vec3::new(1_732_051, 1_732_051, 1_732_051));
}

#[test]
fn limit_leaves_a_still_agent_still() {
    let mut vel = still(5 * ONE);
    velocitator_limit(&mut vel);
    assert_eq!(vel.velocity, Vec3::zero());
}

#[test]
fn velocitate_moves_by_velocity_times_time() {
    let mut pos = v(1, 2, 3);
    velocitate(&mut pos, v(2, 0, -4), ONE / 2);
    assert_eq!(pos, v(2, 2, 1));
}

#[test]
fn keep_in_bounds_turns_back_near_the_edges() {
    let mut vel = still(ONE);
    keep_in_bounds(&v(10, 50, 90), &mut vel, &bounds(0, 100, 20));
    assert_eq!(vel.velocity, v(1, 0, -1));
    // outside the domain the nudge still points inwards
    let mut out = Velocitator { velocity: v(3, 3, 3), max_speed: ONE };
    keep_in_bounds(&v(-50, 150, 50), &mut out, &bounds(0, 100, 20));
    assert_eq!(out.velocity, v(4, 2, 3));
    // both margins at once cancel
    let mut both = still(ONE);
    keep_in_bounds(&v(15, 15, 15), &mut both, &bounds(0, 30, 20));
    assert_eq!(both.velocity, Vec3::zero());
}

#[test]
fn systems_apply_each_stage_to_every_agent() {
    let mut vels = vec![still(10 * ONE), Velocitator { velocity: v(0, 1, 0), max_speed: 2 * ONE }];
    let seps = vec![
        Separation { separation_factor: v(10, 0, 0) },
        Separation { separation_factor: Vec3::zero() },
    ];
    let alis = vec![
        Alignment { alignment_factor: Vec3::zero() },
        Alignment { alignment_factor: Vec3::zero() },
    ];
    let cohs = vec![
        Cohesion { cohesion_factor: Vec3::zero() },
        Cohesion { cohesion_factor: v(0, 25, 0) },
    ];
    velocitator_update_system(&mut vels, &seps, &alis, &cohs, ONE);
    assert_eq!(vels[0].velocity, v(4, 0, 0));
    assert_eq!(vels[1].velocity, v(0, 2, 0));
    velocitator_limit_system(&mut vels);
    assert_eq!(vels[0].velocity, v(10, 0, 0));
    assert_eq!(vels[1].velocity, v(0, 2, 0));
    let mut positions = vec![v(50, 50, 50), v(95, 50, 50)];
    velocitate_system(&mut positions, &vels, ONE / 10);
    assert_eq!(positions[0], v(51, 50, 50));
    assert_eq!(positions[1], Vec3::new(95 * ONE, 50 * ONE + ONE / 5, 50 * ONE));
    keep_in_bounds_system(&positions, &mut vels, &bounds(0, 100, 20));
    assert_eq!(vels[0].velocity, v(10, 0, 0));
    assert_eq!(vels[1].velocity, v(-1, 2, 0));
}
