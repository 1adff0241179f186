use flocking::boids::{
    alignment_of, alignment_system, cohesion_of, cohesion_system, separation_of, separation_system,
    SEPARATION_RADIUS,
};
use flocking::fixed::ONE;
use flocking::flock::Flock;
use flocking::observe::{Observable, StuffsToObserve};
use flocking::vector::Vec3;
use flocking::velocitate::{Bounds, Velocitator};

fn v(x: i64, y: i64, z: i64) -> Vec3 {
    Vec3::new(x * ONE, y * ONE, z * ONE)
}

fn zero() -> Vec3 {
    Vec3::zero()
}

#[test]
fn alone_means_no_steering() {
    let positions = vec![v(1, 2, 3), v(4, 5, 6)];
    let velocities = vec![v(1, 0, 0), v(0, 1, 0)];
    let observed = vec![0, 0];
    assert_eq!(separation_of(0, &observed, &positions), zero());
    assert_eq!(alignment_of(0, &observed, &velocities), zero());
    assert_eq!(cohesion_of(0, &observed, &positions), zero());
    let empty: Vec<usize> = Vec::new();
    assert_eq!(separation_of(1, &empty, &positions), zero());
    assert_eq!(alignment_of(1, &empty, &velocities), zero());
    assert_eq!(cohesion_of(1, &empty, &positions), zero());
}

#[test]
fn alignment_with_one_neighbour_is_the_velocity_difference() {
    let velocities = vec![v(1, -2, 3), v(-4, 5, 7)];
    assert_eq!(alignment_of(0, &vec![0, 1], &velocities), v(-5, 7, 4));
    assert_eq!(alignment_of(0, &vec![1, 0, 0], &velocities), v(-5, 7, 4));
    assert_eq!(alignment_of(1, &vec![0, 1], &velocities), v(5, -7, -4));
}

#[test]
fn alignment_and_cohesion_average() {
    let positions = vec![zero(), v(2, 0, 0), v(0, 4, 0), v(1, 1, 1)];
    // the others' mean (2/3, 4/3, 0), rounded down to millionths, minus (1, 1, 1)
    assert_eq!(cohesion_of(3, &vec![0, 1, 2, 3], &positions), Vec3::new(-333_334, 333_333, -ONE));
    let velocities = vec![v(3, 0, 0), v(0, 3, 0), v(0, 0, 3)];
    assert_eq!(alignment_of(0, &vec![0, 1, 2], &velocities), Vec3::new(-3 * ONE, 3 * ONE / 2, 3 * ONE / 2));
}

#[test]
fn separation_counts_only_close_neighbours() {
    let positions = vec![zero(), v(5, 0, 0), v(0, -3, 4), v(20, 0, 0), v(0, 15, 0)];
    // (0,0,0) - (5,0,0) + (0,0,0) - (0,-3,4); the agent 20 away and the
    // one exactly 15 away do not count
    assert_eq!(separation_of(0, &vec![0, 1, 2, 3, 4], &positions), v(-5, 3, -4));
    assert_eq!(SEPARATION_RADIUS, 15 * ONE);
    let just_inside = vec![zero(), Vec3::new(15 * ONE - 1, 0, 0)];
    assert_eq!(separation_of(0, &vec![1], &just_inside), Vec3::new(-(15 * ONE - 1), 0, 0));
}

#[test]
fn missing_neighbours_are_skipped() {
    let positions = vec![zero(), v(1, 0, 0)];
    let velocities = vec![zero(), v(2, 0, 0)];
    let observed = vec![0, 7, 1, 9];
    assert_eq!(separation_of(0, &observed, &positions), v(-1, 0, 0));
    assert_eq!(cohesion_of(0, &observed, &positions), v(1, 0, 0));
    assert_eq!(alignment_of(0, &observed, &velocities), v(2, 0, 0));
}

#[test]
fn two_agents_push_apart() {
    let mut grid = StuffsToObserve::new(10, 10, 10 * ONE);
    let positions = vec![v(10, 10, 0), v(15, 10, 0)];
    let velocitators = vec![
        Velocitator { velocity: zero(), max_speed: 5 * ONE },
        Velocitator { velocity: zero(), max_speed: 5 * ONE },
    ];
    let mut obs: Vec<Observable> = (0..2).map(|_| Observable { cell: 0, observed: Vec::new() }).collect();
    // the first tick fills the buckets, the second sees them
    grid.update(&mut obs, &positions);
    grid.update(&mut obs, &positions);
    let sep = separation_system(&positions, &obs);
    let ali = alignment_system(&velocitators, &obs);
    let coh = cohesion_system(&positions, &obs);
    assert_eq!(sep[0].separation_factor, v(-5, 0, 0));
    assert_eq!(sep[1].separation_factor, v(5, 0, 0));
    assert_eq!(ali[0].alignment_factor, zero());
    assert_eq!(ali[1].alignment_factor, zero());
    assert_eq!(coh[0].cohesion_factor, v(5, 0, 0));
    assert_eq!(coh[1].cohesion_factor, v(-5, 0, 0));
}

#[test]
fn flock_tick_runs_the_stages_in_order() {
    let bounds = Bounds {
        x_min: 0,
        x_max: 100 * ONE,
        y_min: 0,
        y_max: 100 * ONE,
        z_min: -100 * ONE,
        z_max: 100 * ONE,
        margin: 5 * ONE,
        turn_factor: ONE,
    };
    let mut flock = Flock::new(StuffsToObserve::new(10, 10, 10 * ONE), bounds);
    let a = flock.spawn(v(10, 10, 0), Velocitator { velocity: zero(), max_speed: 5 * ONE });
    let b = flock.spawn(v(15, 10, 0), Velocitator { velocity: zero(), max_speed: 5 * ONE });
    assert_eq!((a, b), (0, 1));
    // first tick: nobody is in the buckets yet, so nobody steers
    flock.tick(ONE / 10);
    assert_eq!(flock.separations[0].separation_factor, zero());
    assert_eq!(flock.positions[0], v(10, 10, 0));
    // second tick: each sees the other and they push apart
    flock.tick(ONE / 10);
    assert_eq!(flock.separations[0].separation_factor, v(-5, 0, 0));
    assert_eq!(flock.separations[1].separation_factor, v(5, 0, 0));
    assert_eq!(flock.cohesions[0].cohesion_factor, v(5, 0, 0));
    assert_eq!(flock.alignments[0].alignment_factor, zero());
    // dv = 0.1 * (0.4 * -5 + 0.04 * 5) = -0.18, renormalised to speed 5
    assert_eq!(flock.positions[0], Vec3::new(10 * ONE - ONE / 2, 10 * ONE, 0));
    assert_eq!(flock.positions[1], Vec3::new(15 * ONE + ONE / 2, 10 * ONE, 0));
    assert_eq!(flock.velocitators[0].velocity, v(-5, 0, 0));
}
