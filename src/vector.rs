//! Three-dimensional fixed-point vectors.
use vstd::prelude::*;
use crate::fixed::{floor_sqrt, in_range, isqrt, is_floor_sqrt, lemma_floor_sqrt_unique};

verus! {

/// A point or a direction in space, each component in fixed point.
#[derive(Clone, Copy, Debug, PartialEq, Eq, Structural)]
pub struct Vec3 {
    pub x: i64,
    pub y: i64,
    pub z: i64,
}

/// The squared Euclidean length of `v`, exactly.
pub open spec fn norm_sq(v: Vec3) -> int {
    v.x * v.x + v.y * v.y + v.z * v.z
}

/// The scalar product of `a` and `b`, exactly.
pub open spec fn dot(a: Vec3, b: Vec3) -> int {
    a.x * b.x + a.y * b.y + a.z * b.z
}

impl Vec3 {
    /// Every component lies in the stored range.
    pub open spec fn valid(self) -> bool {
        in_range(self.x as int) && in_range(self.y as int) && in_range(self.z as int)
    }

    pub fn new(x: i64, y: i64, z: i64) -> (r: Vec3)
        ensures
            r == (Vec3 { x, y, z }),
    {
        Vec3 { x, y, z }
    }

    pub fn zero() -> (r: Vec3)
        ensures
            r == (Vec3 { x: 0, y: 0, z: 0 }),
            r.valid(),
    {
        Vec3 { x: 0, y: 0, z: 0 }
    }
}

proof fn lemma_square_bound(c: int)
    requires
        in_range(c),
    ensures
        0 <= c * c <= 1_000_000_000_000_000_000_000_000,
{
    assert(0 <= c * c <= 1_000_000_000_000_000_000_000_000) by (nonlinear_arith)
        requires
            -1_000_000_000_000 <= c <= 1_000_000_000_000,
    ;
}

/// Bounds on the squared length of a valid vector.
pub proof fn lemma_norm_sq_bound(v: Vec3)
    requires
        v.valid(),
    ensures
        0 <= norm_sq(v) <= 3_000_000_000_000_000_000_000_000,
{
    lemma_square_bound(v.x as int);
    lemma_square_bound(v.y as int);
    lemma_square_bound(v.z as int);
}

/// A component whose square is at most `n` is at most the rounded-down root
/// of `n` in magnitude.
pub proof fn lemma_component_within_length(c: int, n: int, len: int)
    requires
        c * c <= n,
        is_floor_sqrt(n, len),
    ensures
        -len <= c <= len,
{
    assert(-len <= c <= len) by (nonlinear_arith)
        requires
            c * c <= n,
            n < (len + 1) * (len + 1),
            len >= 0,
    ;
}

/// Each component's square is at most the squared length.
pub proof fn lemma_components_within_norm(v: Vec3)
    ensures
        v.x * v.x <= norm_sq(v),
        v.y * v.y <= norm_sq(v),
        v.z * v.z <= norm_sq(v),
{
    assert(v.x * v.x >= 0 && v.y * v.y >= 0 && v.z * v.z >= 0) by (nonlinear_arith);
}

/// The squared length of a valid vector, computed exactly.
pub fn length_squared(v: &Vec3) -> (r: u128)
    requires
        v.valid(),
    ensures
        r as int == norm_sq(*v),
        r <= 3_000_000_000_000_000_000_000_000,
{
    proof {
        lemma_square_bound(v.x as int);
        lemma_square_bound(v.y as int);
        lemma_square_bound(v.z as int);
    }
    let x = v.x as i128;
    let y = v.y as i128;
    let z = v.z as i128;
    (x * x + y * y + z * z) as u128
}

/// The Euclidean length of a valid vector, rounded down.
pub fn length(v: &Vec3) -> (r: i64)
    requires
        v.valid(),
    ensures
        is_floor_sqrt(norm_sq(*v), r as int),
        r == floor_sqrt(norm_sq(*v)),
        r <= 2_000_000_000_000,
{
    let n = length_squared(v);
    let r = isqrt(n);
    proof {
        let ri = r as int;
        lemma_floor_sqrt_unique(norm_sq(*v), ri);
        assert(ri <= 2_000_000_000_000) by (nonlinear_arith)
            requires
                ri * ri <= 3_000_000_000_000_000_000_000_000,
                ri >= 0,
        ;
    }
    r as i64
}

} // verus!
