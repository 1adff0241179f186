//! The flocking rules: separation, alignment and cohesion, each computed
//! afresh every tick from the peers that an agent observes.
//!
//! An agent is named by its index in the caller's arrays; entries of an
//! observed list that name the agent itself, or no agent at all (a handle
//! past the end of the arrays), are skipped.
use vstd::prelude::*;
use crate::fixed::{clamp_range, div_floor, in_range, lemma_div_range, saturate, LIMIT};
use crate::observe::Observable;
use crate::vector::Vec3;
use crate::velocitate::{all_valid_vel, Velocitator};

verus! {

/// How far apart two agents must be to stop pushing each other away
/// (fifteen units).
pub const SEPARATION_RADIUS: i64 = 15_000_000;

/// The push away from crowding neighbours.
#[derive(Clone, Copy, Debug)]
pub struct Separation {
    pub separation_factor: Vec3,
}

/// The pull towards the neighbours' mean velocity.
#[derive(Clone, Copy, Debug)]
pub struct Alignment {
    pub alignment_factor: Vec3,
}

/// The pull towards the neighbours' mean position.
#[derive(Clone, Copy, Debug)]
pub struct Cohesion {
    pub cohesion_factor: Vec3,
}

/// Component `k` of `v`: `x`, `y` or `z` for `k` = 0, 1 or 2.
pub open spec fn comp(v: Vec3, k: int) -> int {
    if k == 0 {
        v.x as int
    } else if k == 1 {
        v.y as int
    } else {
        v.z as int
    }
}

/// `j` names an agent other than `me` among `len` agents.
pub open spec fn is_other(me: int, j: int, len: int) -> bool {
    j != me && 0 <= j < len
}

/// How many entries of `obs` name an agent other than `me`.
pub open spec fn others_count(me: int, obs: Seq<usize>, len: int) -> int
    decreases obs.len(),
{
    if obs.len() == 0 {
        0
    } else {
        others_count(me, obs.drop_last(), len) + if is_other(me, obs.last() as int, len) {
            1int
        } else {
            0
        }
    }
}

/// The sum of component `k` of `vals[j]` over the entries `j` of `obs` that
/// name an agent other than `me`.
pub open spec fn others_sum(me: int, obs: Seq<usize>, vals: Seq<Vec3>, k: int) -> int
    decreases obs.len(),
{
    if obs.len() == 0 {
        0
    } else {
        others_sum(me, obs.drop_last(), vals, k) + if is_other(me, obs.last() as int, vals.len() as int) {
            comp(vals[obs.last() as int], k)
        } else {
            0
        }
    }
}

/// Component `k` of the mean of the others' values (rounded down) minus
/// `own`, or 0 when there are no others.
pub open spec fn mean_offset_comp(me: int, obs: Seq<usize>, vals: Seq<Vec3>, own: Vec3, k: int) -> int {
    let n = others_count(me, obs, vals.len() as int);
    if n > 0 {
        clamp_range(others_sum(me, obs, vals, k) / n - comp(own, k))
    } else {
        0
    }
}

/// The mean of the others' values minus `own`; zero when there are none.
pub open spec fn mean_offset_spec(me: int, obs: Seq<usize>, vals: Seq<Vec3>, own: Vec3) -> Vec3 {
    Vec3 {
        x: mean_offset_comp(me, obs, vals, own, 0) as i64,
        y: mean_offset_comp(me, obs, vals, own, 1) as i64,
        z: mean_offset_comp(me, obs, vals, own, 2) as i64,
    }
}

/// The squared distance between `a` and `b`.
pub open spec fn dist_sq(a: Vec3, b: Vec3) -> int {
    (b.x - a.x) * (b.x - a.x) + (b.y - a.y) * (b.y - a.y) + (b.z - a.z) * (b.z - a.z)
}

/// `j` names another agent closer to `me` than `SEPARATION_RADIUS`.
pub open spec fn crowds(me: int, j: int, pos: Seq<Vec3>) -> bool {
    is_other(me, j, pos.len() as int) && dist_sq(pos[me], pos[j]) < SEPARATION_RADIUS
        * SEPARATION_RADIUS
}

/// Component `k` of the sum of `pos[me] - pos[j]` over the entries `j` of
/// `obs` that crowd `me`.
pub open spec fn away_sum(me: int, obs: Seq<usize>, pos: Seq<Vec3>, k: int) -> int
    decreases obs.len(),
{
    if obs.len() == 0 {
        0
    } else {
        away_sum(me, obs.drop_last(), pos, k) + if crowds(me, obs.last() as int, pos) {
            comp(pos[me], k) - comp(pos[obs.last() as int], k)
        } else {
            0
        }
    }
}

/// The separation of agent `me`: the sum of the displacements away from
/// each crowding neighbour, not normalised.
pub open spec fn separation_spec(me: int, obs: Seq<usize>, pos: Seq<Vec3>) -> Vec3 {
    Vec3 {
        x: clamp_range(away_sum(me, obs, pos, 0)) as i64,
        y: clamp_range(away_sum(me, obs, pos, 1)) as i64,
        z: clamp_range(away_sum(me, obs, pos, 2)) as i64,
    }
}

/// The velocities of the velocitators `vs`.
pub open spec fn velocities_of(vs: Seq<Velocitator>) -> Seq<Vec3> {
    vs.map_values(|v: Velocitator| v.velocity)
}

/// All vectors of `vs` are valid.
pub open spec fn all_valid(vs: Seq<Vec3>) -> bool {
    forall|i: int| 0 <= i < vs.len() ==> (#[trigger] vs[i]).valid()
}

proof fn lemma_others_append(me: int, a: Seq<usize>, b: Seq<usize>, vals: Seq<Vec3>, k: int)
    ensures
        others_count(me, a + b, vals.len() as int) == others_count(me, a, vals.len() as int)
            + others_count(me, b, vals.len() as int),
        others_sum(me, a + b, vals, k) == others_sum(me, a, vals, k) + others_sum(me, b, vals, k),
    decreases b.len(),
{
    if b.len() == 0 {
        assert(a + b =~= a);
    } else {
        lemma_others_append(me, a, b.drop_last(), vals, k);
        assert((a + b).drop_last() =~= a + b.drop_last());
    }
}

proof fn lemma_only_self(me: int, obs: Seq<usize>, vals: Seq<Vec3>, k: int)
    requires
        forall|i: int| 0 <= i < obs.len() ==> obs[i] == me,
    ensures
        others_count(me, obs, vals.len() as int) == 0,
        others_sum(me, obs, vals, k) == 0,
        away_sum(me, obs, vals, k) == 0,
    decreases obs.len(),
{
    if obs.len() > 0 {
        lemma_only_self(me, obs.drop_last(), vals, k);
    }
}

/// An agent that observes nothing but itself feels no separation, no
/// alignment and no cohesion.
pub proof fn lemma_alone_feels_nothing(me: int, obs: Seq<usize>, vals: Seq<Vec3>, own: Vec3)
    requires
        forall|i: int| 0 <= i < obs.len() ==> obs[i] == me,
    ensures
        separation_spec(me, obs, vals) == (Vec3 { x: 0, y: 0, z: 0 }),
        mean_offset_spec(me, obs, vals, own) == (Vec3 { x: 0, y: 0, z: 0 }),
{
    lemma_only_self(me, obs, vals, 0);
    lemma_only_self(me, obs, vals, 1);
    lemma_only_self(me, obs, vals, 2);
}

/// With exactly one other agent `j` in view (the agent itself may be listed
/// any number of times around it), alignment is `j`'s velocity minus the
/// agent's own, exactly wherever that difference is in range.
pub proof fn lemma_align_with_one(
    me: usize,
    j: usize,
    before: Seq<usize>,
    after: Seq<usize>,
    vels: Seq<Vec3>,
)
    requires
        me < vels.len(),
        j < vels.len(),
        j != me,
        forall|i: int| 0 <= i < before.len() ==> before[i] == me,
        forall|i: int| 0 <= i < after.len() ==> after[i] == me,
    ensures
        ({
            let obs = before + seq![j] + after;
            let r = mean_offset_spec(me as int, obs, vels, vels[me as int]);
            let v = vels[j as int];
            let own = vels[me as int];
            &&& r.x == clamp_range(v.x - own.x)
            &&& r.y == clamp_range(v.y - own.y)
            &&& r.z == clamp_range(v.z - own.z)
            &&& in_range(v.x - own.x) ==> r.x == v.x - own.x
            &&& in_range(v.y - own.y) ==> r.y == v.y - own.y
            &&& in_range(v.z - own.z) ==> r.z == v.z - own.z
        }),
{
    let one = seq![j];
    let obs = before + one + after;
    let m = me as int;
    assert(one.drop_last() =~= Seq::<usize>::empty());
    assert forall|k: int| 0 <= k < 3 implies others_count(m, obs, vels.len() as int) == 1
        && others_sum(m, obs, vels, k) == comp(vels[j as int], k) by {
        lemma_others_append(m, before + one, after, vels, k);
        lemma_others_append(m, before, one, vels, k);
        lemma_only_self(m, before, vels, k);
        lemma_only_self(m, after, vels, k);
        assert(others_count(m, one.drop_last(), vels.len() as int) == 0);
        assert(others_sum(m, one.drop_last(), vels, k) == 0);
        assert(one.last() == j);
        assert(others_count(m, one, vels.len() as int) == 1);
        assert(others_sum(m, one, vels, k) == comp(vels[j as int], k));
    }
    assert(others_sum(m, obs, vels, 0) == comp(vels[j as int], 0));
    assert(others_sum(m, obs, vels, 1) == comp(vels[j as int], 1));
    assert(others_sum(m, obs, vels, 2) == comp(vels[j as int], 2));
}

/// The mean of the values of the other agents in `observed`, rounded down,
/// minus `own`; zero when `observed` names no other agent.
fn mean_offset(me: usize, observed: &Vec<usize>, vals: &Vec<Vec3>, own: Vec3) -> (r: Vec3)
    requires
        all_valid(vals@),
        own.valid(),
    ensures
        r == mean_offset_spec(me as int, observed@, vals@, own),
        r.valid(),
{
    let mut sx: i128 = 0;
    let mut sy: i128 = 0;
    let mut sz: i128 = 0;
    let mut count: i128 = 0;
    let mut i: usize = 0;
    while i < observed.len()
        invariant
            all_valid(vals@),
            i <= observed@.len(),
            count == others_count(me as int, observed@.take(i as int), vals@.len() as int),
            sx == others_sum(me as int, observed@.take(i as int), vals@, 0),
            sy == others_sum(me as int, observed@.take(i as int), vals@, 1),
            sz == others_sum(me as int, observed@.take(i as int), vals@, 2),
            0 <= count <= i,
            -(count * LIMIT) <= sx <= count * LIMIT,
            -(count * LIMIT) <= sy <= count * LIMIT,
            -(count * LIMIT) <= sz <= count * LIMIT,
        decreases observed@.len() - i,
    {
        let j = observed[i];
        proof {
            assert(observed@.take(i + 1).drop_last() =~= observed@.take(i as int));
        }
        if j != me && j < vals.len() {
            let v = vals[j];
            assert(v.valid());
            sx = sx + v.x as i128;
            sy = sy + v.y as i128;
            sz = sz + v.z as i128;
            count = count + 1;
        }
        i += 1;
    }
    proof {
        assert(observed@.take(i as int) =~= observed@);
    }
    if count > 0 {
        let mx = div_floor(sx, count);
        let my = div_floor(sy, count);
        let mz = div_floor(sz, count);
        proof {
            lemma_div_range(sx as int, count as int, LIMIT as int);
            lemma_div_range(sy as int, count as int, LIMIT as int);
            lemma_div_range(sz as int, count as int, LIMIT as int);
        }
        Vec3 {
            x: saturate(mx - own.x as i128),
            y: saturate(my - own.y as i128),
            z: saturate(mz - own.z as i128),
        }
    } else {
        Vec3::zero()
    }
}

/// The separation of agent `me` at `positions[me]`: the sum, over the other
/// agents in `observed` closer than `SEPARATION_RADIUS`, of the displacement
/// from each of them to `me`. Zero when none is that close.
pub fn separation_of(me: usize, observed: &Vec<usize>, positions: &Vec<Vec3>) -> (r: Vec3)
    requires
        all_valid(positions@),
        me < positions@.len(),
    ensures
        r == separation_spec(me as int, observed@, positions@),
        r.valid(),
{
    let p = positions[me];
    let mut ax: i128 = 0;
    let mut ay: i128 = 0;
    let mut az: i128 = 0;
    let mut i: usize = 0;
    assert(p.valid());
    while i < observed.len()
        invariant
            all_valid(positions@),
            me < positions@.len(),
            p == positions@[me as int],
            p.valid(),
            i <= observed@.len(),
            ax == away_sum(me as int, observed@.take(i as int), positions@, 0),
            ay == away_sum(me as int, observed@.take(i as int), positions@, 1),
            az == away_sum(me as int, observed@.take(i as int), positions@, 2),
            -(i * 2 * LIMIT) <= ax <= i * 2 * LIMIT,
            -(i * 2 * LIMIT) <= ay <= i * 2 * LIMIT,
            -(i * 2 * LIMIT) <= az <= i * 2 * LIMIT,
        decreases observed@.len() - i,
    {
        let j = observed[i];
        proof {
            assert(observed@.take(i + 1).drop_last() =~= observed@.take(i as int));
        }
        if j != me && j < positions.len() {
            let q = positions[j];
            assert(q.valid());
            let dx = q.x as i128 - p.x as i128;
            let dy = q.y as i128 - p.y as i128;
            let dz = q.z as i128 - p.z as i128;
            proof {
                assert(dx * dx <= 4_000_000_000_000_000_000_000_000) by (nonlinear_arith)
                    requires
                        -2_000_000_000_000 <= dx <= 2_000_000_000_000,
                ;
                assert(dy * dy <= 4_000_000_000_000_000_000_000_000) by (nonlinear_arith)
                    requires
                        -2_000_000_000_000 <= dy <= 2_000_000_000_000,
                ;
                assert(dz * dz <= 4_000_000_000_000_000_000_000_000) by (nonlinear_arith)
                    requires
                        -2_000_000_000_000 <= dz <= 2_000_000_000_000,
                ;
                assert(0 <= dx * dx && 0 <= dy * dy && 0 <= dz * dz) by (nonlinear_arith);
            }
            let d2 = dx * dx + dy * dy + dz * dz;
            let r2: i128 = 225_000_000_000_000;
            assert(r2 == SEPARATION_RADIUS * SEPARATION_RADIUS);
            if d2 < r2 {
                ax = ax - dx;
                ay = ay - dy;
                az = az - dz;
            }
        }
        i += 1;
    }
    proof {
        assert(observed@.take(i as int) =~= observed@);
    }
    Vec3 { x: saturate(ax), y: saturate(ay), z: saturate(az) }
}

/// The alignment of agent `me`: the mean velocity of the other agents in
/// `observed`, rounded down, minus the agent's own velocity
/// `velocities[me]`. Zero when `observed` names no other agent.
pub fn alignment_of(me: usize, observed: &Vec<usize>, velocities: &Vec<Vec3>) -> (r: Vec3)
    requires
        all_valid(velocities@),
        me < velocities@.len(),
    ensures
        r == mean_offset_spec(me as int, observed@, velocities@, velocities@[me as int]),
        r.valid(),
{
    mean_offset(me, observed, velocities, velocities[me])
}

/// The cohesion of agent `me`: the mean position of the other agents in
/// `observed`, rounded down, minus the agent's own position
/// `positions[me]`. Zero when `observed` names no other agent.
pub fn cohesion_of(me: usize, observed: &Vec<usize>, positions: &Vec<Vec3>) -> (r: Vec3)
    requires
        all_valid(positions@),
        me < positions@.len(),
    ensures
        r == mean_offset_spec(me as int, observed@, positions@, positions@[me as int]),
        r.valid(),
{
    mean_offset(me, observed, positions, positions[me])
}

/// The separation of every agent: agent `i` stands at `positions[i]` and
/// observes `observables[i].observed`.
pub fn separation_system(positions: &Vec<Vec3>, observables: &Vec<Observable>) -> (r: Vec<Separation>)
    requires
        all_valid(positions@),
        observables@.len() == positions@.len(),
    ensures
        r@.len() == positions@.len(),
        forall|i: int|
            0 <= i < r@.len() ==> (#[trigger] r@[i]).separation_factor == separation_spec(
                i,
                observables@[i].observed@,
                positions@,
            ),
        forall|i: int| 0 <= i < r@.len() ==> (#[trigger] r@[i]).separation_factor.valid(),
{
    let mut out: Vec<Separation> = Vec::new();
    let mut i: usize = 0;
    while i < positions.len()
        invariant
            all_valid(positions@),
            observables@.len() == positions@.len(),
            i <= positions@.len(),
            out@.len() == i,
            forall|k: int|
                0 <= k < i ==> (#[trigger] out@[k]).separation_factor == separation_spec(
                    k,
                    observables@[k].observed@,
                    positions@,
                ),
            forall|k: int| 0 <= k < i ==> (#[trigger] out@[k]).separation_factor.valid(),
        decreases positions@.len() - i,
    {
        let f = separation_of(i, &observables[i].observed, positions);
        out.push(Separation { separation_factor: f });
        i += 1;
    }
    out
}

/// The alignment of every agent: agent `i` flies at
/// `velocitators[i].velocity` and observes `observables[i].observed`.
pub fn alignment_system(velocitators: &Vec<Velocitator>, observables: &Vec<Observable>) -> (r: Vec<
    Alignment,
>)
    requires
        all_valid_vel(velocitators@),
        observables@.len() == velocitators@.len(),
    ensures
        r@.len() == velocitators@.len(),
        forall|i: int|
            0 <= i < r@.len() ==> (#[trigger] r@[i]).alignment_factor == mean_offset_spec(
                i,
                observables@[i].observed@,
                velocities_of(velocitators@),
                velocitators@[i].velocity,
            ),
        forall|i: int| 0 <= i < r@.len() ==> (#[trigger] r@[i]).alignment_factor.valid(),
{
    let mut velocities: Vec<Vec3> = Vec::new();
    let mut j: usize = 0;
    while j < velocitators.len()
        invariant
            all_valid_vel(velocitators@),
            j <= velocitators@.len(),
            velocities@ == velocities_of(velocitators@).take(j as int),
        decreases velocitators@.len() - j,
    {
        velocities.push(velocitators[j].velocity);
        j += 1;
        assert(velocities@ =~= velocities_of(velocitators@).take(j as int));
    }
    assert(velocities@ =~= velocities_of(velocitators@));
    assert(all_valid(velocities@));
    let mut out: Vec<Alignment> = Vec::new();
    let mut i: usize = 0;
    while i < velocities.len()
        invariant
            all_valid(velocities@),
            velocities@ == velocities_of(velocitators@),
            observables@.len() == velocitators@.len(),
            i <= velocities@.len(),
            out@.len() == i,
            forall|k: int|
                0 <= k < i ==> (#[trigger] out@[k]).alignment_factor == mean_offset_spec(
                    k,
                    observables@[k].observed@,
                    velocities_of(velocitators@),
                    velocitators@[k].velocity,
                ),
            forall|k: int| 0 <= k < i ==> (#[trigger] out@[k]).alignment_factor.valid(),
        decreases velocities@.len() - i,
    {
        let f = alignment_of(i, &observables[i].observed, &velocities);
        out.push(Alignment { alignment_factor: f });
        i += 1;
    }
    out
}

/// The cohesion of every agent: agent `i` stands at `positions[i]` and
/// observes `observables[i].observed`.
pub fn cohesion_system(positions: &Vec<Vec3>, observables: &Vec<Observable>) -> (r: Vec<Cohesion>)
    requires
        all_valid(positions@),
        observables@.len() == positions@.len(),
    ensures
        r@.len() == positions@.len(),
        forall|i: int|
            0 <= i < r@.len() ==> (#[trigger] r@[i]).cohesion_factor == mean_offset_spec(
                i,
                observables@[i].observed@,
                positions@,
                positions@[i],
            ),
        forall|i: int| 0 <= i < r@.len() ==> (#[trigger] r@[i]).cohesion_factor.valid(),
{
    let mut out: Vec<Cohesion> = Vec::new();
    let mut i: usize = 0;
    while i < positions.len()
        invariant
            all_valid(positions@),
            observables@.len() == positions@.len(),
            i <= positions@.len(),
            out@.len() == i,
            forall|k: int|
                0 <= k < i ==> (#[trigger] out@[k]).cohesion_factor == mean_offset_spec(
                    k,
                    observables@[k].observed@,
                    positions@,
                    positions@[k],
                ),
            forall|k: int| 0 <= k < i ==> (#[trigger] out@[k]).cohesion_factor.valid(),
        decreases positions@.len() - i,
    {
        let f = cohesion_of(i, &observables[i].observed, positions);
        out.push(Cohesion { cohesion_factor: f });
        i += 1;
    }
    out
}

} // verus!
