//! The velocity integrator: blends the flocking factors into the velocity,
//! holds the speed at the agent's maximum, moves the agent, and nudges it
//! back when it strays near the edge of the domain.
use vstd::prelude::*;
use crate::boids::{Alignment, Cohesion, Separation};
use crate::fixed::{clamp_range, div_floor, floor_sqrt, in_range, is_floor_sqrt, lemma_div_range, saturate, ONE};
use crate::vector::{length, lemma_component_within_length, lemma_norm_sq_bound, norm_sq, Vec3};

verus! {

/// The weight of separation, in hundredths.
pub const SEPARATION_WEIGHT: i64 = 40;

/// The weight of alignment, in hundredths.
pub const ALIGNMENT_WEIGHT: i64 = 40;

/// The weight of cohesion, in hundredths.
pub const COHESION_WEIGHT: i64 = 4;

/// An agent's velocity and the speed it flies at.
#[derive(Clone, Copy, Debug)]
pub struct Velocitator {
    pub velocity: Vec3,
    pub max_speed: i64,
}

impl Velocitator {
    pub open spec fn valid(self) -> bool {
        self.velocity.valid() && 0 <= self.max_speed <= crate::fixed::LIMIT
    }
}

/// The domain that agents are kept in, softly: within `margin` of an edge,
/// `turn_factor` is added to the velocity along that axis, pointing inwards.
#[derive(Clone, Copy, Debug)]
pub struct Bounds {
    pub x_min: i64,
    pub x_max: i64,
    pub y_min: i64,
    pub y_max: i64,
    pub z_min: i64,
    pub z_max: i64,
    pub margin: i64,
    pub turn_factor: i64,
}

impl Bounds {
    pub open spec fn valid(self) -> bool {
        &&& in_range(self.x_min as int)
        &&& in_range(self.x_max as int)
        &&& in_range(self.y_min as int)
        &&& in_range(self.y_max as int)
        &&& in_range(self.z_min as int)
        &&& in_range(self.z_max as int)
        &&& in_range(self.margin as int)
        &&& in_range(self.turn_factor as int)
    }
}

/// The change of one velocity component over `dt` seconds:
/// `dt * (0.4 * s + 0.4 * a + 0.04 * c)`, rounded down.
pub open spec fn steer_delta(s: int, a: int, c: int, dt: int) -> int {
    (dt * (SEPARATION_WEIGHT * s + ALIGNMENT_WEIGHT * a + COHESION_WEIGHT * c)) / (100 * ONE)
}

/// One velocity component after blending in the flocking factors.
pub open spec fn steered(v: int, s: int, a: int, c: int, dt: int) -> int {
    clamp_range(v + steer_delta(s, a, c, dt))
}

/// One velocity component scaled so that the whole velocity, of length
/// `len` rounded down, has length `speed`.
pub open spec fn rescaled(v: int, speed: int, len: int) -> int {
    (v * speed) / len
}

/// One position component after moving at velocity `v` for `dt` seconds.
pub open spec fn moved(p: int, v: int, dt: int) -> int {
    clamp_range(p + (v * dt) / (ONE as int))
}

/// One velocity component after the nudge back into `[lo, hi]`.
pub open spec fn nudged(p: int, v: int, lo: int, hi: int, margin: int, turn: int) -> int {
    clamp_range(
        v + (if p < lo + margin {
            turn
        } else {
            0
        }) - (if p > hi - margin {
            turn
        } else {
            0
        }),
    )
}

/// The velocitator after blending in the flocking factors `s`, `a`, `c`
/// over `dt` seconds.
pub open spec fn steer_spec(vel: Velocitator, s: Vec3, a: Vec3, c: Vec3, dt: int) -> Velocitator {
    Velocitator {
        velocity: Vec3 {
            x: steered(vel.velocity.x as int, s.x as int, a.x as int, c.x as int, dt) as i64,
            y: steered(vel.velocity.y as int, s.y as int, a.y as int, c.y as int, dt) as i64,
            z: steered(vel.velocity.z as int, s.z as int, a.z as int, c.z as int, dt) as i64,
        },
        max_speed: vel.max_speed,
    }
}

/// The velocitator held at its maximum speed: a still velocity stays
/// still, any other is rescaled to length `max_speed`.
pub open spec fn limit_spec(vel: Velocitator) -> Velocitator {
    let v = vel.velocity;
    let len = floor_sqrt(norm_sq(v));
    let ms = vel.max_speed as int;
    if norm_sq(v) == 0 {
        vel
    } else {
        Velocitator {
            velocity: Vec3 {
                x: rescaled(v.x as int, ms, len) as i64,
                y: rescaled(v.y as int, ms, len) as i64,
                z: rescaled(v.z as int, ms, len) as i64,
            },
            max_speed: vel.max_speed,
        }
    }
}

/// The point `p` after moving at velocity `v` for `dt` seconds.
pub open spec fn moved_spec(p: Vec3, v: Vec3, dt: int) -> Vec3 {
    Vec3 {
        x: moved(p.x as int, v.x as int, dt) as i64,
        y: moved(p.y as int, v.y as int, dt) as i64,
        z: moved(p.z as int, v.z as int, dt) as i64,
    }
}

/// The velocitator of an agent at `p` after the nudge back into `b`.
pub open spec fn nudged_spec(p: Vec3, vel: Velocitator, b: Bounds) -> Velocitator {
    let v = vel.velocity;
    Velocitator {
        velocity: Vec3 {
            x: nudged(p.x as int, v.x as int, b.x_min as int, b.x_max as int, b.margin as int, b.turn_factor as int) as i64,
            y: nudged(p.y as int, v.y as int, b.y_min as int, b.y_max as int, b.margin as int, b.turn_factor as int) as i64,
            z: nudged(p.z as int, v.z as int, b.z_min as int, b.z_max as int, b.margin as int, b.turn_factor as int) as i64,
        },
        max_speed: vel.max_speed,
    }
}

fn steer_component(v: i64, s: i64, a: i64, c: i64, dt: i64) -> (r: i64)
    requires
        in_range(v as int),
        in_range(s as int),
        in_range(a as int),
        in_range(c as int),
        in_range(dt as int),
    ensures
        r == steered(v as int, s as int, a as int, c as int, dt as int),
        in_range(r as int),
{
    assert(SEPARATION_WEIGHT == 40 && ALIGNMENT_WEIGHT == 40 && COHESION_WEIGHT == 4);
    let blend: i128 = 40 * (s as i128) + 40 * (a as i128) + 4 * (c as i128);
    let dti = dt as i128;
    proof {
        assert(-100_000_000_000_000_000_000_000_000 <= dti * blend <= 100_000_000_000_000_000_000_000_000)
            by (nonlinear_arith)
            requires
                -1_000_000_000_000 <= dti <= 1_000_000_000_000,
                -100_000_000_000_000 <= blend <= 100_000_000_000_000,
        ;
    }
    let delta = div_floor(dti * blend, 100 * ONE as i128);
    proof {
        lemma_div_range(dti * blend, 100 * ONE as int, 1_000_000_000_000_000_000);
    }
    saturate(v as i128 + delta)
}

/// Blends the flocking factors into the velocity: over `dt` seconds each
/// component gains `dt * (0.4 * separation + 0.4 * alignment + 0.04 *
/// cohesion)`, rounded down. The maximum speed is kept.
pub fn velocitator_update(
    vel: &mut Velocitator,
    separation: &Separation,
    alignment: &Alignment,
    cohesion: &Cohesion,
    dt: i64,
)
    requires
        old(vel).valid(),
        separation.separation_factor.valid(),
        alignment.alignment_factor.valid(),
        cohesion.cohesion_factor.valid(),
        in_range(dt as int),
    ensures
        final(vel).valid(),
        *final(vel) == steer_spec(
            *old(vel),
            separation.separation_factor,
            alignment.alignment_factor,
            cohesion.cohesion_factor,
            dt as int,
        ),
{
    let s = separation.separation_factor;
    let a = alignment.alignment_factor;
    let c = cohesion.cohesion_factor;
    let v = vel.velocity;
    vel.velocity = Vec3 {
        x: steer_component(v.x, s.x, a.x, c.x, dt),
        y: steer_component(v.y, s.y, a.y, c.y, dt),
        z: steer_component(v.z, s.z, a.z, c.z, dt),
    };
}

fn rescale_component(c: i64, speed: i64, len: i64, Ghost(n): Ghost<int>) -> (r: i64)
    requires
        in_range(c as int),
        0 <= speed <= crate::fixed::LIMIT,
        len > 0,
        c * c <= n,
        is_floor_sqrt(n, len as int),
    ensures
        r == rescaled(c as int, speed as int, len as int),
        -speed <= r <= speed,
{
    proof {
        lemma_component_within_length(c as int, n, len as int);
        let ci = c as int;
        let li = len as int;
        let si = speed as int;
        assert(-(li * si) <= ci * si <= li * si) by (nonlinear_arith)
            requires
                -li <= ci <= li,
                si >= 0,
        ;
        assert(-1_000_000_000_000_000_000_000_000 <= ci * si <= 1_000_000_000_000_000_000_000_000)
            by (nonlinear_arith)
            requires
                -1_000_000_000_000 <= ci <= 1_000_000_000_000,
                0 <= si <= 1_000_000_000_000,
        ;
        lemma_div_range(ci * si, li, si);
    }
    div_floor(c as i128 * speed as i128, len as i128) as i64
}

/// Holds the agent at its maximum speed: a moving agent's velocity is
/// rescaled to length `max_speed` (each component rounded down); a still
/// agent has no direction and stays still.
pub fn velocitator_limit(vel: &mut Velocitator)
    requires
        old(vel).valid(),
    ensures
        final(vel).valid(),
        *final(vel) == limit_spec(*old(vel)),
{
    let v = vel.velocity;
    let len = length(&v);
    if len == 0 {
        proof {
            lemma_norm_sq_bound(v);
            assert(is_floor_sqrt(norm_sq(v), 0));
            assert(norm_sq(v) < 1);
        }
        return;
    }
    let ms = vel.max_speed;
    let ghost n = norm_sq(v);
    proof {
        assert(v.x * v.x <= n && v.y * v.y <= n && v.z * v.z <= n) by (nonlinear_arith)
            requires
                n == v.x * v.x + v.y * v.y + v.z * v.z,
        ;
    }
    vel.velocity = Vec3 {
        x: rescale_component(v.x, ms, len, Ghost(n)),
        y: rescale_component(v.y, ms, len, Ghost(n)),
        z: rescale_component(v.z, ms, len, Ghost(n)),
    };
    proof {
        let li = len as int;
        assert(n >= 1) by (nonlinear_arith)
            requires
                li >= 1,
                li * li <= n,
        ;
    }
}

fn move_component(p: i64, v: i64, dt: i64) -> (r: i64)
    requires
        in_range(p as int),
        in_range(v as int),
        in_range(dt as int),
    ensures
        r == moved(p as int, v as int, dt as int),
        in_range(r as int),
{
    let vi = v as i128;
    let dti = dt as i128;
    proof {
        assert(-1_000_000_000_000_000_000_000_000 <= vi * dti <= 1_000_000_000_000_000_000_000_000)
            by (nonlinear_arith)
            requires
                -1_000_000_000_000 <= vi <= 1_000_000_000_000,
                -1_000_000_000_000 <= dti <= 1_000_000_000_000,
        ;
        lemma_div_range(vi * dti, ONE as int, 1_000_000_000_000_000_000);
    }
    saturate(p as i128 + div_floor(vi * dti, ONE as i128))
}

/// Moves a point at velocity `vel` for `dt` seconds: `pos + vel * dt`, each
/// component rounded down.
pub fn velocitate(pos: &mut Vec3, vel: Vec3, dt: i64)
    requires
        old(pos).valid(),
        vel.valid(),
        in_range(dt as int),
    ensures
        final(pos).valid(),
        *final(pos) == moved_spec(*old(pos), vel, dt as int),
{
    let p = *pos;
    *pos = Vec3 {
        x: move_component(p.x, vel.x, dt),
        y: move_component(p.y, vel.y, dt),
        z: move_component(p.z, vel.z, dt),
    };
}

fn nudge_component(p: i64, v: i64, lo: i64, hi: i64, margin: i64, turn: i64) -> (r: i64)
    requires
        in_range(p as int),
        in_range(v as int),
        in_range(lo as int),
        in_range(hi as int),
        in_range(margin as int),
        in_range(turn as int),
    ensures
        r == nudged(p as int, v as int, lo as int, hi as int, margin as int, turn as int),
        in_range(r as int),
{
    let mut w = v as i128;
    if (p as i128) < lo as i128 + margin as i128 {
        w = w + turn as i128;
    }
    if (p as i128) > hi as i128 - margin as i128 {
        w = w - turn as i128;
    }
    saturate(w)
}

/// Nudges the velocity of an agent at `pos` back towards the domain: on
/// each axis, `turn_factor` is added when the agent is within `margin` of
/// the lower edge, and taken away when it is within `margin` of the upper
/// edge. The agent may still leave the domain for a while.
pub fn keep_in_bounds(pos: &Vec3, vel: &mut Velocitator, bounds: &Bounds)
    requires
        pos.valid(),
        old(vel).valid(),
        bounds.valid(),
    ensures
        final(vel).valid(),
        *final(vel) == nudged_spec(*pos, *old(vel), *bounds),
{
    let v = vel.velocity;
    let b = *bounds;
    vel.velocity = Vec3 {
        x: nudge_component(pos.x, v.x, b.x_min, b.x_max, b.margin, b.turn_factor),
        y: nudge_component(pos.y, v.y, b.y_min, b.y_max, b.margin, b.turn_factor),
        z: nudge_component(pos.z, v.z, b.z_min, b.z_max, b.margin, b.turn_factor),
    };
}

/// All velocitators of `vs` are valid.
pub open spec fn all_valid_vel(vs: Seq<Velocitator>) -> bool {
    forall|i: int| 0 <= i < vs.len() ==> (#[trigger] vs[i]).valid()
}

/// Blends each agent's flocking factors into its velocity (see
/// `velocitator_update`); agent `i` has the factors at index `i`.
pub fn velocitator_update_system(
    vels: &mut Vec<Velocitator>,
    separations: &Vec<Separation>,
    alignments: &Vec<Alignment>,
    cohesions: &Vec<Cohesion>,
    dt: i64,
)
    requires
        all_valid_vel(old(vels)@),
        separations@.len() == old(vels)@.len(),
        alignments@.len() == old(vels)@.len(),
        cohesions@.len() == old(vels)@.len(),
        forall|i: int| 0 <= i < separations@.len() ==> (#[trigger] separations@[i]).separation_factor.valid(),
        forall|i: int| 0 <= i < alignments@.len() ==> (#[trigger] alignments@[i]).alignment_factor.valid(),
        forall|i: int| 0 <= i < cohesions@.len() ==> (#[trigger] cohesions@[i]).cohesion_factor.valid(),
        in_range(dt as int),
    ensures
        final(vels)@.len() == old(vels)@.len(),
        all_valid_vel(final(vels)@),
        forall|i: int|
            0 <= i < old(vels)@.len() ==> #[trigger] final(vels)@[i] == steer_spec(
                old(vels)@[i],
                separations@[i].separation_factor,
                alignments@[i].alignment_factor,
                cohesions@[i].cohesion_factor,
                dt as int,
            ),
{
    let mut i: usize = 0;
    while i < vels.len()
        invariant
            vels@.len() == old(vels)@.len(),
            separations@.len() == old(vels)@.len(),
            alignments@.len() == old(vels)@.len(),
            cohesions@.len() == old(vels)@.len(),
            forall|k: int| 0 <= k < separations@.len() ==> (#[trigger] separations@[k]).separation_factor.valid(),
            forall|k: int| 0 <= k < alignments@.len() ==> (#[trigger] alignments@[k]).alignment_factor.valid(),
            forall|k: int| 0 <= k < cohesions@.len() ==> (#[trigger] cohesions@[k]).cohesion_factor.valid(),
            in_range(dt as int),
            0 <= i <= vels@.len(),
            all_valid_vel(vels@),
            forall|k: int|
                0 <= k < i ==> #[trigger] vels@[k] == steer_spec(
                    old(vels)@[k],
                    separations@[k].separation_factor,
                    alignments@[k].alignment_factor,
                    cohesions@[k].cohesion_factor,
                    dt as int,
                ),
            forall|k: int| i <= k < vels@.len() ==> #[trigger] vels@[k] == old(vels)@[k],
        decreases vels@.len() - i,
    {
        let mut v = vels[i];
        velocitator_update(&mut v, &separations[i], &alignments[i], &cohesions[i], dt);
        vels[i] = v;
        i += 1;
    }
}

/// Holds every agent at its maximum speed (see `velocitator_limit`).
pub fn velocitator_limit_system(vels: &mut Vec<Velocitator>)
    requires
        all_valid_vel(old(vels)@),
    ensures
        final(vels)@.len() == old(vels)@.len(),
        all_valid_vel(final(vels)@),
        forall|i: int| 0 <= i < old(vels)@.len() ==> #[trigger] final(vels)@[i] == limit_spec(old(vels)@[i]),
{
    let mut i: usize = 0;
    while i < vels.len()
        invariant
            vels@.len() == old(vels)@.len(),
            0 <= i <= vels@.len(),
            all_valid_vel(vels@),
            forall|k: int| 0 <= k < i ==> #[trigger] vels@[k] == limit_spec(old(vels)@[k]),
            forall|k: int| i <= k < vels@.len() ==> #[trigger] vels@[k] == old(vels)@[k],
        decreases vels@.len() - i,
    {
        let mut v = vels[i];
        velocitator_limit(&mut v);
        vels[i] = v;
        i += 1;
    }
}

/// Moves every agent at its velocity for `dt` seconds (see `velocitate`).
pub fn velocitate_system(positions: &mut Vec<Vec3>, vels: &Vec<Velocitator>, dt: i64)
    requires
        crate::boids::all_valid(old(positions)@),
        all_valid_vel(vels@),
        vels@.len() == old(positions)@.len(),
        in_range(dt as int),
    ensures
        final(positions)@.len() == old(positions)@.len(),
        crate::boids::all_valid(final(positions)@),
        forall|i: int|
            0 <= i < old(positions)@.len() ==> #[trigger] final(positions)@[i] == moved_spec(
                old(positions)@[i],
                vels@[i].velocity,
                dt as int,
            ),
{
    let mut i: usize = 0;
    while i < positions.len()
        invariant
            positions@.len() == old(positions)@.len(),
            vels@.len() == old(positions)@.len(),
            all_valid_vel(vels@),
            in_range(dt as int),
            0 <= i <= positions@.len(),
            crate::boids::all_valid(positions@),
            forall|k: int|
                0 <= k < i ==> #[trigger] positions@[k] == moved_spec(
                    old(positions)@[k],
                    vels@[k].velocity,
                    dt as int,
                ),
            forall|k: int| i <= k < positions@.len() ==> #[trigger] positions@[k] == old(positions)@[k],
        decreases positions@.len() - i,
    {
        let mut p = positions[i];
        assert(vels@[i as int].valid());
        velocitate(&mut p, vels[i].velocity, dt);
        positions[i] = p;
        i += 1;
    }
}

/// Nudges every agent back towards the domain (see `keep_in_bounds`).
pub fn keep_in_bounds_system(positions: &Vec<Vec3>, vels: &mut Vec<Velocitator>, bounds: &Bounds)
    requires
        crate::boids::all_valid(positions@),
        all_valid_vel(old(vels)@),
        old(vels)@.len() == positions@.len(),
        bounds.valid(),
    ensures
        final(vels)@.len() == old(vels)@.len(),
        all_valid_vel(final(vels)@),
        forall|i: int|
            0 <= i < old(vels)@.len() ==> #[trigger] final(vels)@[i] == nudged_spec(
                positions@[i],
                old(vels)@[i],
                *bounds,
            ),
{
    let mut i: usize = 0;
    while i < vels.len()
        invariant
            vels@.len() == old(vels)@.len(),
            vels@.len() == positions@.len(),
            crate::boids::all_valid(positions@),
            bounds.valid(),
            0 <= i <= vels@.len(),
            all_valid_vel(vels@),
            forall|k: int|
                0 <= k < i ==> #[trigger] vels@[k] == nudged_spec(positions@[k], old(vels)@[k], *bounds),
            forall|k: int| i <= k < vels@.len() ==> #[trigger] vels@[k] == old(vels)@[k],
        decreases vels@.len() - i,
    {
        let mut v = vels[i];
        assert(positions@[i as int].valid());
        keep_in_bounds(&positions[i], &mut v, bounds);
        vels[i] = v;
        i += 1;
    }
}

} // verus!
