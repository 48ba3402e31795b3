//! Fixed-point 3-vectors and quaternions: the component algebra behind rest
//! poses, keyframe values and interpolation. Every operation states its result
//! exactly over the mathematical views `V3` and `Q4`.

use crate::num::{
    div_trunc, is_isqrt, isqrt, lemma_bounded_product, lemma_isqrt_exists, lerp_fx, mul_wide,
    spec_div_trunc, spec_isqrt, spec_lerp, FX_LIMIT, FX_ONE,
};
use vstd::arithmetic::div_mod::{lemma_div_is_ordered, lemma_div_multiples_vanish};
use vstd::prelude::*;

verus! {

/// Largest magnitude a quaternion component may take: rotation values stay
/// near unit length, and this bound keeps squared norms inside 64 bits.
pub const QUAT_LIMIT: i64 = 0x4000_0000;

/// Mathematical view of a fixed-point 3-vector.
pub ghost struct V3 {
    pub x: int,
    pub y: int,
    pub z: int,
}

/// Mathematical view of a fixed-point quaternion (x, y, z imaginary, w real).
pub ghost struct Q4 {
    pub x: int,
    pub y: int,
    pub z: int,
    pub w: int,
}

/// A 3-component fixed-point vector (translation, scale, or raw keyframe
/// value).
#[derive(Clone, Copy, Debug, PartialEq, Eq, Structural)]
pub struct Vec3 {
    pub x: i64,
    pub y: i64,
    pub z: i64,
}

/// A fixed-point quaternion in the source document's raw component order
/// (x, y, z, w).
#[derive(Clone, Copy, Debug, PartialEq, Eq, Structural)]
pub struct Quat {
    pub x: i64,
    pub y: i64,
    pub z: i64,
    pub w: i64,
}

impl View for Vec3 {
    type V = V3;

    open spec fn view(&self) -> V3 {
        V3 { x: self.x as int, y: self.y as int, z: self.z as int }
    }
}

impl View for Quat {
    type V = Q4;

    open spec fn view(&self) -> Q4 {
        Q4 { x: self.x as int, y: self.y as int, z: self.z as int, w: self.w as int }
    }
}

/// Every component within the general fixed-point range.
pub open spec fn v3_bounded(v: V3) -> bool {
    &&& -FX_LIMIT <= v.x <= FX_LIMIT
    &&& -FX_LIMIT <= v.y <= FX_LIMIT
    &&& -FX_LIMIT <= v.z <= FX_LIMIT
}

/// Every component within the quaternion range.
pub open spec fn q4_bounded(q: Q4) -> bool {
    &&& -QUAT_LIMIT <= q.x <= QUAT_LIMIT
    &&& -QUAT_LIMIT <= q.y <= QUAT_LIMIT
    &&& -QUAT_LIMIT <= q.z <= QUAT_LIMIT
    &&& -QUAT_LIMIT <= q.w <= QUAT_LIMIT
}

pub open spec fn q4_identity() -> Q4 {
    Q4 { x: 0, y: 0, z: 0, w: FX_ONE as int }
}

pub open spec fn q4_dot(a: Q4, b: Q4) -> int {
    a.x * b.x + a.y * b.y + a.z * b.z + a.w * b.w
}

pub open spec fn q4_neg(q: Q4) -> Q4 {
    Q4 { x: -q.x, y: -q.y, z: -q.z, w: -q.w }
}

/// Componentwise exact linear interpolation of vectors.
pub open spec fn spec_lerp_v3(a: V3, b: V3, num: int, den: int) -> V3 {
    V3 {
        x: spec_lerp(a.x, b.x, num, den),
        y: spec_lerp(a.y, b.y, num, den),
        z: spec_lerp(a.z, b.z, num, den),
    }
}

/// Linear quaternion interpolation after the shortest-arc sign choice: when
/// the endpoints lie in opposite hemispheres (`dot < 0`), the second endpoint
/// is negated before the componentwise blend.
pub open spec fn spec_quat_mix(a: Q4, b: Q4, num: int, den: int) -> Q4 {
    let bb = if q4_dot(a, b) < 0 {
        q4_neg(b)
    } else {
        b
    };
    Q4 {
        x: spec_lerp(a.x, bb.x, num, den),
        y: spec_lerp(a.y, bb.y, num, den),
        z: spec_lerp(a.z, bb.z, num, den),
        w: spec_lerp(a.w, bb.w, num, den),
    }
}

/// Fixed-point renormalization: each component is scaled by `FX_ONE` and
/// divided by the integer square root of the squared norm, rounding toward
/// zero; the zero quaternion renormalizes to the identity.
pub open spec fn spec_normalize(q: Q4) -> Q4 {
    let n = spec_isqrt(q4_dot(q, q));
    if n <= 0 {
        q4_identity()
    } else {
        Q4 {
            x: spec_div_trunc(q.x * FX_ONE, n),
            y: spec_div_trunc(q.y * FX_ONE, n),
            z: spec_div_trunc(q.z * FX_ONE, n),
            w: spec_div_trunc(q.w * FX_ONE, n),
        }
    }
}

impl Vec3 {
    /// The zero vector: additive identity, the default for an absent position
    /// track.
    pub fn zero() -> (r: Vec3)
        ensures
            r@ == (V3 { x: 0, y: 0, z: 0 }),
    {
        Vec3 { x: 0, y: 0, z: 0 }
    }

    /// The unit-scale vector: the default for an absent scaling track.
    pub fn one() -> (r: Vec3)
        ensures
            r@ == (V3 { x: FX_ONE as int, y: FX_ONE as int, z: FX_ONE as int }),
    {
        Vec3 { x: FX_ONE, y: FX_ONE, z: FX_ONE }
    }
}

impl Quat {
    /// The identity rotation: the default for an absent rotation track.
    pub fn identity() -> (r: Quat)
        ensures
            r@ == q4_identity(),
    {
        Quat { x: 0, y: 0, z: 0, w: FX_ONE }
    }
}

/// Componentwise linear interpolation of two bounded vectors, exact at both
/// endpoints.
pub fn lerp_vec3(a: &Vec3, b: &Vec3, num: i64, den: i64) -> (r: Vec3)
    requires
        den > 0,
        0 <= num <= den,
        v3_bounded(a@),
        v3_bounded(b@),
    ensures
        r@ == spec_lerp_v3(a@, b@, num as int, den as int),
        v3_bounded(r@),
        num == 0 ==> r == *a,
        num == den ==> r == *b,
{
    let r = Vec3 {
        x: lerp_fx(a.x, b.x, num, den),
        y: lerp_fx(a.y, b.y, num, den),
        z: lerp_fx(a.z, b.z, num, den),
    };
    r
}

/// Exact range test against the quaternion component limit.
pub fn in_quat_range(v: i64) -> (r: bool)
    ensures
        r == (-QUAT_LIMIT <= v <= QUAT_LIMIT),
{
    (v as i128) >= -(QUAT_LIMIT as i128) && (v as i128) <= QUAT_LIMIT as i128
}

/// Dot product of two bounded quaternions, exact.
pub fn quat_dot(a: &Quat, b: &Quat) -> (r: i64)
    requires
        q4_bounded(a@),
        q4_bounded(b@),
    ensures
        r == q4_dot(a@, b@),
{
    proof {
        lemma_bounded_product(a@.x, b@.x, QUAT_LIMIT as int);
        lemma_bounded_product(a@.y, b@.y, QUAT_LIMIT as int);
        lemma_bounded_product(a@.z, b@.z, QUAT_LIMIT as int);
        lemma_bounded_product(a@.w, b@.w, QUAT_LIMIT as int);
    }
    let s: i128 = mul_wide(a.x, b.x) + mul_wide(a.y, b.y) + mul_wide(a.z, b.z)
        + mul_wide(a.w, b.w);
    s as i64
}

/// Componentwise negation (the same rotation, opposite hemisphere).
pub fn quat_neg(q: &Quat) -> (r: Quat)
    requires
        q4_bounded(q@),
    ensures
        r@ == q4_neg(q@),
        q4_bounded(r@),
{
    Quat { x: -q.x, y: -q.y, z: -q.z, w: -q.w }
}

/// Shortest-arc linear blend of two bounded quaternions: picks the sign of
/// `b` nearest to `a`, then interpolates componentwise; exact at `num == 0`
/// and, up to that sign choice, at `num == den`.
pub fn quat_mix(a: &Quat, b: &Quat, num: i64, den: i64) -> (r: Quat)
    requires
        den > 0,
        0 <= num <= den,
        q4_bounded(a@),
        q4_bounded(b@),
    ensures
        r@ == spec_quat_mix(a@, b@, num as int, den as int),
        q4_bounded(r@),
        num == 0 ==> r == *a,
{
    let bb = if quat_dot(a, b) < 0 {
        quat_neg(b)
    } else {
        *b
    };
    let r = Quat {
        x: lerp_fx(a.x, bb.x, num, den),
        y: lerp_fx(a.y, bb.y, num, den),
        z: lerp_fx(a.z, bb.z, num, den),
        w: lerp_fx(a.w, bb.w, num, den),
    };
    r
}

/// One renormalized component: `c` scaled into unit range by the norm root
/// `n` stays within `[-FX_ONE, FX_ONE]`.
proof fn lemma_normalized_component(c: int, n: int)
    requires
        n >= 1,
        -n <= c <= n,
    ensures
        -FX_ONE <= spec_div_trunc(c * FX_ONE, n) <= FX_ONE,
{
    lemma_div_multiples_vanish(FX_ONE as int, n);
    if c >= 0 {
        assert(c * FX_ONE <= n * FX_ONE) by (nonlinear_arith)
            requires
                c <= n,
        ;
        assert(0 <= c * FX_ONE) by (nonlinear_arith)
            requires
                c >= 0,
        ;
        lemma_div_is_ordered(0, c * FX_ONE, n);
        lemma_div_is_ordered(c * FX_ONE, n * FX_ONE, n);
    } else {
        assert((-c) * FX_ONE <= n * FX_ONE) by (nonlinear_arith)
            requires
                -c <= n,
        ;
        assert(0 <= (-c) * FX_ONE) by (nonlinear_arith)
            requires
                -c >= 0,
        ;
        lemma_div_is_ordered(0, (-c) * FX_ONE, n);
        lemma_div_is_ordered((-c) * FX_ONE, n * FX_ONE, n);
        assert(-(c * FX_ONE) == (-c) * FX_ONE) by (nonlinear_arith);
    }
}

/// A component of a quaternion is bounded by the integer square root of the
/// squared norm.
proof fn lemma_component_le_norm(c: int, rest: int, n: int)
    requires
        rest >= 0,
        is_isqrt(c * c + rest, n),
    ensures
        -n <= c <= n,
{
    assert(c * c <= (c * c + rest)) by (nonlinear_arith)
        requires
            rest >= 0,
    ;
    assert(-n <= c <= n) by (nonlinear_arith)
        requires
            c * c < (n + 1) * (n + 1),
            n >= 0,
    ;
}

/// Renormalize a bounded quaternion toward unit length; the result is exactly
/// `spec_normalize` of the input and its components never exceed one.
pub fn quat_normalize(q: &Quat) -> (r: Quat)
    requires
        q4_bounded(q@),
    ensures
        r@ == spec_normalize(q@),
        -FX_ONE <= r.x <= FX_ONE,
        -FX_ONE <= r.y <= FX_ONE,
        -FX_ONE <= r.z <= FX_ONE,
        -FX_ONE <= r.w <= FX_ONE,
        q4_bounded(r@),
{
    proof {
        lemma_bounded_product(q@.x, q@.x, QUAT_LIMIT as int);
        lemma_bounded_product(q@.y, q@.y, QUAT_LIMIT as int);
        lemma_bounded_product(q@.z, q@.z, QUAT_LIMIT as int);
        lemma_bounded_product(q@.w, q@.w, QUAT_LIMIT as int);
        assert(q@.x * q@.x >= 0) by (nonlinear_arith);
        assert(q@.y * q@.y >= 0) by (nonlinear_arith);
        assert(q@.z * q@.z >= 0) by (nonlinear_arith);
        assert(q@.w * q@.w >= 0) by (nonlinear_arith);
    }
    let n2i: i64 = quat_dot(q, q);
    let n: u64 = isqrt(n2i as u64);
    if n == 0 {
        Quat::identity()
    } else {
        proof {
            let n2 = q4_dot(q@, q@);
            lemma_component_le_norm(q@.x, n2 - q@.x * q@.x, n as int);
            lemma_component_le_norm(q@.y, n2 - q@.y * q@.y, n as int);
            lemma_component_le_norm(q@.z, n2 - q@.z * q@.z, n as int);
            lemma_component_le_norm(q@.w, n2 - q@.w * q@.w, n as int);
            lemma_normalized_component(q@.x, n as int);
            lemma_normalized_component(q@.y, n as int);
            lemma_normalized_component(q@.z, n as int);
            lemma_normalized_component(q@.w, n as int);
        }
        let r = Quat {
            x: div_trunc(mul_wide(q.x, FX_ONE), n as i128) as i64,
            y: div_trunc(mul_wide(q.y, FX_ONE), n as i128) as i64,
            z: div_trunc(mul_wide(q.z, FX_ONE), n as i128) as i64,
            w: div_trunc(mul_wide(q.w, FX_ONE), n as i128) as i64,
        };
        r
    }
}

/// An exactly unit-length quaternion renormalizes to itself: the square root
/// of `FX_ONE * FX_ONE` is `FX_ONE`, and scaling by it is the identity.
pub proof fn lemma_normalize_unit(q: Q4)
    requires
        q4_dot(q, q) == FX_ONE * FX_ONE,
    ensures
        spec_normalize(q) == q,
{
    lemma_isqrt_exists(FX_ONE * FX_ONE);
    assert(is_isqrt(FX_ONE * FX_ONE, FX_ONE as int));
    crate::num::lemma_isqrt_unique(
        FX_ONE * FX_ONE,
        spec_isqrt(FX_ONE * FX_ONE),
        FX_ONE as int,
    );
    lemma_unit_scale(q.x);
    lemma_unit_scale(q.y);
    lemma_unit_scale(q.z);
    lemma_unit_scale(q.w);
}

/// Scaling by `FX_ONE` and dividing by `FX_ONE` is the identity, in the
/// truncating division.
proof fn lemma_unit_scale(c: int)
    ensures
        spec_div_trunc(c * FX_ONE, FX_ONE as int) == c,
{
    if c >= 0 {
        vstd::arithmetic::div_mod::lemma_div_by_multiple(c, FX_ONE as int);
    } else {
        vstd::arithmetic::div_mod::lemma_div_by_multiple(-c, FX_ONE as int);
        assert(-(c * FX_ONE) == (-c) * FX_ONE) by (nonlinear_arith);
    }
}

} // verus!
