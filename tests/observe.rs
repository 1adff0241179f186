use flocking::fixed::ONE;
use flocking::observe::{hash_function, Observable, StuffsToObserve};
use flocking::vector::Vec3;

fn at(x: i64, y: i64) -> Vec3 {
    Vec3::new(x * ONE, y * ONE, 0)
}

fn fresh(n: usize) -> Vec<Observable> {
    (0..n).map(|_| Observable { cell: 0, observed: Vec::new() }).collect()
}

#[test]
fn cell_of_floors_each_axis() {
    assert_eq!(hash_function(at(25, 37), 10 * ONE, 10, 10), 32);
    assert_eq!(hash_function(Vec3::new(10 * ONE - 1, 0, 0), 10 * ONE, 10, 10), 0);
    assert_eq!(hash_function(at(10, 0), 10 * ONE, 10, 10), 1);
}

#[test]
fn cell_of_clamps_off_grid_positions() {
    assert_eq!(hash_function(at(-5, -5), 10 * ONE, 10, 10), 0);
    assert_eq!(hash_function(at(500, 5), 10 * ONE, 10, 10), 9);
    assert_eq!(hash_function(at(5, 500), 10 * ONE, 10, 10), 90);
    assert_eq!(hash_function(at(-500, 500), 10 * ONE, 10, 10), 90);
    assert_eq!(hash_function(at(500, 500), 10 * ONE, 10, 10), 99);
}

#[test]
fn cell_of_with_a_degenerate_cell_size() {
    assert_eq!(hash_function(at(55, 55), 0, 10, 10), 0);
    assert_eq!(hash_function(at(55, 55), -ONE, 10, 10), 0);
}

#[test]
fn cell_of_stays_on_the_grid_and_maps_corners_back() {
    let grid = StuffsToObserve::new(7, 5, 3 * ONE);
    for x in -10..40i64 {
        for y in -10..30i64 {
            let c = grid.cell_of(Vec3::new(x * ONE / 2, y * ONE / 2, 99));
            assert!(c < 35);
            let corner = Vec3::new((c % 7) as i64 * 3 * ONE, (c / 7) as i64 * 3 * ONE, 0);
            assert_eq!(grid.cell_of(corner), c);
        }
    }
}

#[test]
fn neighbors_of_an_inner_cell() {
    let grid = StuffsToObserve::new(10, 10, 10 * ONE);
    assert_eq!(grid.collect_cells(55), vec![55, 54, 56, 65, 45, 66, 64, 46, 44]);
}

#[test]
fn neighbors_of_edge_and_corner_cells() {
    let grid = StuffsToObserve::new(10, 10, 10 * ONE);
    assert_eq!(grid.collect_cells(0), vec![0, 1, 10, 11]);
    assert_eq!(grid.collect_cells(99), vec![99, 98, 89, 88]);
    // no wrapping across a row
    assert_eq!(grid.collect_cells(10), vec![10, 11, 20, 0, 21, 1]);
    assert_eq!(grid.collect_cells(19), vec![19, 18, 29, 9, 28, 8]);
}

#[test]
fn neighbors_hold_the_cell_and_at_most_nine() {
    let grid = StuffsToObserve::new(6, 4, ONE);
    for c in 0..24usize {
        let n = grid.collect_cells(c);
        assert_eq!(n[0], c);
        assert!(n.len() <= 9);
        assert!(n.iter().all(|&m| m < 24));
        let (col, row) = (c % 6, c / 6);
        if col > 0 && col < 5 && row > 0 && row < 3 {
            assert_eq!(n.len(), 9);
        }
    }
}

#[test]
fn neighbors_on_a_single_cell_grid() {
    let grid = StuffsToObserve::new(1, 1, ONE);
    assert_eq!(grid.collect_cells(0), vec![0]);
}

#[test]
fn observed_lists_see_the_previous_tick() {
    let mut grid = StuffsToObserve::new(10, 10, 10 * ONE);
    let positions = vec![at(15, 15), at(25, 15), at(85, 85)];
    let mut obs = fresh(3);
    grid.update(&mut obs, &positions);
    assert_eq!(obs.iter().map(|o| o.cell).collect::<Vec<_>>(), vec![11, 12, 88]);
    assert!(obs.iter().all(|o| o.observed.is_empty()));
    grid.update(&mut obs, &positions);
    assert_eq!(obs[0].observed, vec![0, 1]);
    assert_eq!(obs[1].observed, vec![1, 0]);
    assert_eq!(obs[2].observed, vec![2]);
}

#[test]
fn buckets_are_rebuilt_not_patched() {
    let mut grid = StuffsToObserve::new(10, 10, 10 * ONE);
    let mut obs = fresh(2);
    grid.update(&mut obs, &vec![at(15, 15), at(16, 16)]);
    // both agents move far away: the old bucket must not keep them
    grid.update(&mut obs, &vec![at(95, 95), at(96, 96)]);
    assert_eq!(grid.observed_of(11), Vec::<usize>::new());
    assert_eq!(grid.observed_of(99), vec![0, 1]);
    assert_eq!(grid.observed_of(88), vec![0, 1]);
}

#[test]
fn update_steps_one_by_one() {
    let mut grid = StuffsToObserve::new(4, 4, ONE);
    let positions = vec![Vec3::new(ONE / 2, ONE / 2, 0), Vec3::new(3 * ONE + 1, 3 * ONE + 1, 0)];
    let mut obs = fresh(2);
    grid.observation_system_update_cells(&mut obs, &positions);
    assert_eq!((obs[0].cell, obs[1].cell), (0, 15));
    grid.observation_system_update_hashmap(&obs);
    grid.observation_system_update_observed(&mut obs);
    assert_eq!(obs[0].observed, vec![0]);
    assert_eq!(obs[1].observed, vec![1]);
    // an agent whose cell is off the grid observes nothing and is in no bucket
    obs[1].cell = 16;
    grid.observation_system_update_hashmap(&obs);
    grid.observation_system_update_observed(&mut obs);
    assert!(obs[1].observed.is_empty());
    assert_eq!(grid.observed_of(15), Vec::<usize>::new());
}

#[test]
fn grid_keeps_its_configuration() {
    let grid = StuffsToObserve::new(3, 8, 5 * ONE);
    assert_eq!((grid.width(), grid.depth(), grid.cell_size()), (3, 8, 5 * ONE));
}
