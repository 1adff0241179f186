//! A whole flock and its tick: the spatial index, the flocking rules and the
//! velocity integrator, run in their fixed order over every agent.
use vstd::prelude::*;
use crate::boids::{
    alignment_system, all_valid, cohesion_system, mean_offset_spec, separation_spec,
    separation_system, velocities_of, Alignment, Cohesion, Separation,
};
use crate::fixed::in_range;
use crate::observe::{cell_of, cells_of, members, observed_spec, Observable, StuffsToObserve};
use crate::vector::Vec3;
use crate::velocitate::{
    all_valid_vel, keep_in_bounds_system, limit_spec, moved_spec, nudged_spec, steer_spec,
    velocitate_system, velocitator_limit_system, velocitator_update_system, Bounds, Velocitator,
};

verus! {

/// The agents of a flock, each named by its index in every array, with the
/// grid that indexes them and the domain that they are kept in.
pub struct Flock {
    pub grid: StuffsToObserve,
    pub bounds: Bounds,
    pub positions: Vec<Vec3>,
    pub velocitators: Vec<Velocitator>,
    pub observables: Vec<Observable>,
    pub separations: Vec<Separation>,
    pub alignments: Vec<Alignment>,
    pub cohesions: Vec<Cohesion>,
}

/// The velocitator after the flocking factors are blended in and the speed
/// is held at its maximum.
pub open spec fn flown(vel: Velocitator, s: Vec3, a: Vec3, c: Vec3, dt: int) -> Velocitator {
    limit_spec(steer_spec(vel, s, a, c, dt))
}

impl Flock {
    /// One record per agent in every array, each value valid.
    pub open spec fn wf(&self) -> bool {
        let n = self.positions@.len();
        &&& self.grid.wf()
        &&& self.bounds.valid()
        &&& all_valid(self.positions@)
        &&& all_valid_vel(self.velocitators@)
        &&& self.velocitators@.len() == n
        &&& self.observables@.len() == n
        &&& self.separations@.len() == n
        &&& self.alignments@.len() == n
        &&& self.cohesions@.len() == n
    }

    /// A flock without agents.
    pub fn new(grid: StuffsToObserve, bounds: Bounds) -> (r: Flock)
        requires
            grid.wf(),
            bounds.valid(),
        ensures
            r.wf(),
            r.positions@.len() == 0,
            r.grid == grid,
            r.bounds == bounds,
    {
        Flock {
            grid,
            bounds,
            positions: Vec::new(),
            velocitators: Vec::new(),
            observables: Vec::new(),
            separations: Vec::new(),
            alignments: Vec::new(),
            cohesions: Vec::new(),
        }
    }

    /// Adds an agent at `position` with `velocitator`, seeing nobody and
    /// feeling no steering yet; returns its index.
    pub fn spawn(&mut self, position: Vec3, velocitator: Velocitator) -> (r: usize)
        requires
            old(self).wf(),
            position.valid(),
            velocitator.valid(),
            old(self).positions@.len() < usize::MAX,
        ensures
            final(self).wf(),
            r == old(self).positions@.len(),
            final(self).positions@ == old(self).positions@.push(position),
            final(self).velocitators@ == old(self).velocitators@.push(velocitator),
            final(self).observables@.len() == r + 1,
            final(self).observables@[r as int].observed@.len() == 0,
            final(self).grid == old(self).grid,
            final(self).bounds == old(self).bounds,
    {
        let r = self.positions.len();
        let cell = self.grid.cell_of(position);
        self.positions.push(position);
        self.velocitators.push(velocitator);
        self.observables.push(Observable { cell, observed: Vec::new() });
        self.separations.push(Separation { separation_factor: Vec3::zero() });
        self.alignments.push(Alignment { alignment_factor: Vec3::zero() });
        self.cohesions.push(Cohesion { cohesion_factor: Vec3::zero() });
        proof {
            assert(all_valid(self.positions@));
            assert(all_valid_vel(self.velocitators@));
        }
        r
    }

    /// The first part of a tick of `dt` seconds, in this order: the spatial
    /// index; the separation, alignment and cohesion of every agent from what
    /// it now observes; the blend of those into its velocity; the speed held
    /// at its maximum; the move. Facings are taken from the velocities at
    /// this point, before `keep_in_bounds`.
    pub fn advance(&mut self, dt: i64)
        requires
            old(self).wf(),
            in_range(dt as int),
        ensures
            final(self).wf(),
            final(self).bounds == old(self).bounds,
            final(self).grid.spec_width() == old(self).grid.spec_width(),
            final(self).grid.spec_depth() == old(self).grid.spec_depth(),
            final(self).grid.spec_cell_size() == old(self).grid.spec_cell_size(),
            final(self).positions@.len() == old(self).positions@.len(),
            forall|b: int|
                0 <= b < final(self).grid.spec_cells() ==> #[trigger] final(self).grid.buckets()[b]
                    == members(cells_of(final(self).observables@), b),
            forall|i: int|
                0 <= i < old(self).positions@.len() ==> {
                    let obs = (#[trigger] final(self).observables@[i]).observed@;
                    let p = old(self).positions@[i];
                    let s = final(self).separations@[i].separation_factor;
                    let a = final(self).alignments@[i].alignment_factor;
                    let c = final(self).cohesions@[i].cohesion_factor;
                    let v = flown(old(self).velocitators@[i], s, a, c, dt as int);
                    &&& final(self).observables@[i].cell as int == cell_of(
                        p.x as int,
                        p.y as int,
                        old(self).grid.spec_cell_size(),
                        old(self).grid.spec_width(),
                        old(self).grid.spec_depth(),
                    )
                    &&& obs == observed_spec(&old(self).grid, final(self).observables@[i].cell as int)
                    &&& s == separation_spec(i, obs, old(self).positions@)
                    &&& a == mean_offset_spec(
                        i,
                        obs,
                        velocities_of(old(self).velocitators@),
                        old(self).velocitators@[i].velocity,
                    )
                    &&& c == mean_offset_spec(i, obs, old(self).positions@, p)
                    &&& final(self).positions@[i] == moved_spec(p, v.velocity, dt as int)
                    &&& final(self).velocitators@[i] == v
                },
    {
        self.grid.update(&mut self.observables, &self.positions);
        self.separations = separation_system(&self.positions, &self.observables);
        self.alignments = alignment_system(&self.velocitators, &self.observables);
        self.cohesions = cohesion_system(&self.positions, &self.observables);
        velocitator_update_system(
            &mut self.velocitators,
            &self.separations,
            &self.alignments,
            &self.cohesions,
            dt,
        );
        velocitator_limit_system(&mut self.velocitators);
        velocitate_system(&mut self.positions, &self.velocitators, dt);
    }

    /// The last part of a tick: every agent's velocity is nudged back
    /// towards the domain (see `keep_in_bounds`); nothing else changes.
    pub fn keep_in_bounds(&mut self)
        requires
            old(self).wf(),
        ensures
            final(self).wf(),
            final(self).bounds == old(self).bounds,
            final(self).grid == old(self).grid,
            final(self).positions == old(self).positions,
            final(self).observables == old(self).observables,
            final(self).separations == old(self).separations,
            final(self).alignments == old(self).alignments,
            final(self).cohesions == old(self).cohesions,
            final(self).velocitators@.len() == old(self).velocitators@.len(),
            forall|i: int|
                0 <= i < old(self).velocitators@.len() ==> #[trigger] final(self).velocitators@[i]
                    == nudged_spec(old(self).positions@[i], old(self).velocitators@[i], old(self).bounds),
    {
        keep_in_bounds_system(&self.positions, &mut self.velocitators, &self.bounds);
    }

    /// One tick of `dt` seconds, in this order: the spatial index; the
    /// separation, alignment and cohesion of every agent from what it now
    /// observes; the blend of those into its velocity; the speed held at its
    /// maximum; the move; the nudge back towards the domain (`advance`, then
    /// `keep_in_bounds`).
    pub fn tick(&mut self, dt: i64)
        requires
            old(self).wf(),
            in_range(dt as int),
        ensures
            final(self).wf(),
            final(self).bounds == old(self).bounds,
            final(self).grid.spec_width() == old(self).grid.spec_width(),
            final(self).grid.spec_depth() == old(self).grid.spec_depth(),
            final(self).grid.spec_cell_size() == old(self).grid.spec_cell_size(),
            final(self).positions@.len() == old(self).positions@.len(),
            forall|b: int|
                0 <= b < final(self).grid.spec_cells() ==> #[trigger] final(self).grid.buckets()[b]
                    == members(cells_of(final(self).observables@), b),
            forall|i: int|
                0 <= i < old(self).positions@.len() ==> {
                    let obs = (#[trigger] final(self).observables@[i]).observed@;
                    let p = old(self).positions@[i];
                    let s = final(self).separations@[i].separation_factor;
                    let a = final(self).alignments@[i].alignment_factor;
                    let c = final(self).cohesions@[i].cohesion_factor;
                    let v = flown(old(self).velocitators@[i], s, a, c, dt as int);
                    &&& final(self).observables@[i].cell as int == cell_of(
                        p.x as int,
                        p.y as int,
                        old(self).grid.spec_cell_size(),
                        old(self).grid.spec_width(),
                        old(self).grid.spec_depth(),
                    )
                    &&& obs == observed_spec(&old(self).grid, final(self).observables@[i].cell as int)
                    &&& s == separation_spec(i, obs, old(self).positions@)
                    &&& a == mean_offset_spec(
                        i,
                        obs,
                        velocities_of(old(self).velocitators@),
                        old(self).velocitators@[i].velocity,
                    )
                    &&& c == mean_offset_spec(i, obs, old(self).positions@, p)
                    &&& final(self).positions@[i] == moved_spec(p, v.velocity, dt as int)
                    &&& final(self).velocitators@[i] == nudged_spec(
                        final(self).positions@[i],
                        v,
                        old(self).bounds,
                    )
                },
    {
        self.advance(dt);
        self.keep_in_bounds();
    }
}

} // verus!
