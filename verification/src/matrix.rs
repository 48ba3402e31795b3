//! 4x4 fixed-point matrices in row-major order with the translation in the
//! fourth column: inverse bind matrices, global joint transforms and skinning
//! matrices. Multiplication is exact fixed-point arithmetic with an explicit
//! range check, so composed transforms either carry their exact value or
//! report overflow.

use crate::algebra::{q4_bounded, v3_bounded, Quat, Vec3, Q4, V3, QUAT_LIMIT};
use crate::num::{
    div_trunc, lemma_bounded_product, lemma_div_trunc_bound, mul_wide, spec_div_trunc, FX_LIMIT,
    FX_ONE,
};
use vstd::arithmetic::div_mod::lemma_fundamental_div_mod_converse;
use vstd::prelude::*;

verus! {

/// A 4x4 fixed-point matrix: 16 entries, row by row.
#[derive(Clone, Debug, PartialEq, Eq)]
pub struct Mat4 {
    pub m: Vec<i64>,
}

impl View for Mat4 {
    type V = Seq<int>;

    open spec fn view(&self) -> Seq<int> {
        self.m@.map_values(|e: i64| e as int)
    }
}

/// All 16 entries present and within the fixed-point range.
pub open spec fn m16_bounded(s: Seq<int>) -> bool {
    s.len() == 16 && forall|i: int| 0 <= i < 16 ==> -FX_LIMIT <= #[trigger] s[i] <= FX_LIMIT
}

impl Mat4 {
    /// Well-formed: exactly 16 bounded entries.
    pub open spec fn wf(&self) -> bool {
        m16_bounded(self@)
    }
}

/// The view of a matrix reads back pointwise from its entry vector.
proof fn lemma_mat_pointwise(m: &Mat4)
    ensures
        m@.len() == m.m@.len(),
        forall|i: int| 0 <= i < m.m@.len() ==> #[trigger] m@[i] == m.m@[i] as int,
{
}

/// The identity matrix.
pub open spec fn spec_mat_identity() -> Seq<int> {
    seq![
        FX_ONE as int, 0, 0, 0,
        0, FX_ONE as int, 0, 0,
        0, 0, FX_ONE as int, 0,
        0, 0, 0, FX_ONE as int,
    ]
}

/// A translation matrix: identity with the vector in the fourth column.
pub open spec fn spec_mat_translate(v: V3) -> Seq<int> {
    seq![
        FX_ONE as int, 0, 0, v.x,
        0, FX_ONE as int, 0, v.y,
        0, 0, FX_ONE as int, v.z,
        0, 0, 0, FX_ONE as int,
    ]
}

/// A scale matrix: the vector's components on the diagonal.
pub open spec fn spec_mat_scale(v: V3) -> Seq<int> {
    seq![
        v.x, 0, 0, 0,
        0, v.y, 0, 0,
        0, 0, v.z, 0,
        0, 0, 0, FX_ONE as int,
    ]
}

/// The entry swap of transposition: entry `i` of the transpose is entry
/// `(i % 4) * 4 + i / 4` of the source.
pub open spec fn spec_mat_transpose(a: Seq<int>) -> Seq<int> {
    Seq::new(16, |i: int| a[(i % 4) * 4 + i / 4])
}

/// One entry of the exact fixed-point matrix product: the row-by-column sum
/// of entry products, scaled back down by the fixed-point unit.
pub open spec fn spec_mat_mul_entry(a: Seq<int>, b: Seq<int>, i: int) -> int {
    let r = i / 4;
    let c = i % 4;
    spec_div_trunc(
        a[4 * r] * b[c] + a[4 * r + 1] * b[4 + c] + a[4 * r + 2] * b[8 + c] + a[4 * r + 3] * b[12
            + c],
        FX_ONE as int,
    )
}

/// The exact fixed-point matrix product, before the range check.
pub open spec fn spec_mat_mul_raw(a: Seq<int>, b: Seq<int>) -> Seq<int> {
    Seq::new(16, |i: int| spec_mat_mul_entry(a, b, i))
}

/// Range-check a computed matrix: the value itself when every entry is in
/// fixed-point range, nothing otherwise.
pub open spec fn spec_checked(m: Seq<int>) -> Option<Seq<int>> {
    if m16_bounded(m) {
        Some(m)
    } else {
        None
    }
}

/// The checked fixed-point matrix product.
pub open spec fn spec_mat_mul(a: Seq<int>, b: Seq<int>) -> Option<Seq<int>> {
    spec_checked(spec_mat_mul_raw(a, b))
}

/// Range check for one matrix: 16 entries, all in fixed-point range.
pub fn mat_in_range(m: &Mat4) -> (r: bool)
    ensures
        r == m.wf(),
{
    if m.m.len() != 16 {
        proof {
            assert(m@.len() == m.m@.len());
        }
        return false;
    }
    let mut i: usize = 0;
    while i < 16
        invariant
            m.m@.len() == 16,
            i <= 16,
            forall|j: int| 0 <= j < i ==> -FX_LIMIT <= #[trigger] m@[j] <= FX_LIMIT,
        decreases 16 - i,
    {
        proof {
            assert(m@[i as int] == m.m@[i as int] as int);
        }
        if !crate::num::in_fx_range(m.m[i]) {
            proof {
                assert(!(-FX_LIMIT <= m@[i as int] <= FX_LIMIT));
            }
            return false;
        }
        i = i + 1;
    }
    proof {
        assert(m@.len() == 16);
    }
    true
}

/// Append an entry if it is in fixed-point range; reject it otherwise.
fn push_checked(v: &mut Vec<i64>, e: i128) -> (ok: bool)
    ensures
        ok == (-FX_LIMIT <= e <= FX_LIMIT),
        ok ==> final(v)@ == old(v)@.push(e as i64) && e as i64 == e,
        !ok ==> final(v)@ == old(v)@,
{
    if -(FX_LIMIT as i128) <= e && e <= FX_LIMIT as i128 {
        v.push(e as i64);
        true
    } else {
        false
    }
}

/// One entry of the matrix product, exact in 128 bits.
fn mul_entry(a: &Mat4, b: &Mat4, r: usize, c: usize) -> (q: i128)
    requires
        a.wf(),
        b.wf(),
        r < 4,
        c < 4,
    ensures
        q == spec_mat_mul_entry(a@, b@, (4 * r + c) as int),
{
    proof {
        lemma_mat_pointwise(a);
        lemma_mat_pointwise(b);
        let av = a@;
        let bv = b@;
        lemma_bounded_product(av[4 * r as int], bv[c as int], FX_LIMIT as int);
        lemma_bounded_product(av[4 * r as int + 1], bv[4 + c as int], FX_LIMIT as int);
        lemma_bounded_product(av[4 * r as int + 2], bv[8 + c as int], FX_LIMIT as int);
        lemma_bounded_product(av[4 * r as int + 3], bv[12 + c as int], FX_LIMIT as int);
    }
    let s: i128 = mul_wide(a.m[4 * r], b.m[c]) + mul_wide(a.m[4 * r + 1], b.m[4 + c]) + mul_wide(
        a.m[4 * r + 2],
        b.m[8 + c],
    ) + mul_wide(a.m[4 * r + 3], b.m[12 + c]);
    let q = div_trunc(s, FX_ONE as i128);
    proof {
        lemma_fundamental_div_mod_converse((4 * r + c) as int, 4, r as int, c as int);
    }
    q
}

/// Exact fixed-point matrix multiplication; reports overflow instead of
/// returning a wrapped or clamped entry.
pub fn mat_mul(a: &Mat4, b: &Mat4) -> (r: Option<Mat4>)
    requires
        a.wf(),
        b.wf(),
    ensures
        match r {
            Some(m) => Some(m@) == spec_mat_mul(a@, b@) && m.wf(),
            None => spec_mat_mul(a@, b@) is None,
        },
{
    let ghost raw = spec_mat_mul_raw(a@, b@);
    let mut out: Vec<i64> = Vec::new();
    let mut i: usize = 0;
    while i < 16
        invariant
            a.wf(),
            b.wf(),
            raw == spec_mat_mul_raw(a@, b@),
            i <= 16,
            out@.len() == i,
            forall|j: int|
                0 <= j < i ==> #[trigger] out@[j] as int == raw[j] && -FX_LIMIT <= raw[j]
                    <= FX_LIMIT,
        decreases 16 - i,
    {
        let r = i / 4;
        let c = i % 4;
        let q = mul_entry(a, b, r, c);
        proof {
            assert(4 * (i / 4) + (i % 4) == i);
        }
        if !push_checked(&mut out, q) {
            proof {
                assert(!(-FX_LIMIT <= raw[i as int] <= FX_LIMIT));
            }
            return None;
        }
        i = i + 1;
    }
    let result = Mat4 { m: out };
    proof {
        lemma_mat_pointwise(&result);
        assert(result@ =~= raw);
    }
    Some(result)
}

/// Transpose: needed to reorient source-document inverse bind matrices into
/// the engine's row-major convention.
pub fn transpose(a: &Mat4) -> (r: Mat4)
    requires
        a.wf(),
    ensures
        r@ == spec_mat_transpose(a@),
        r.wf(),
{
    let mut out: Vec<i64> = Vec::new();
    let mut i: usize = 0;
    while i < 16
        invariant
            a.wf(),
            i <= 16,
            out@.len() == i,
            forall|j: int|
                0 <= j < i ==> #[trigger] out@[j] as int == spec_mat_transpose(a@)[j],
        decreases 16 - i,
    {
        proof {
            lemma_mat_pointwise(a);
        }
        out.push(a.m[(i % 4) * 4 + i / 4]);
        i = i + 1;
    }
    let result = Mat4 { m: out };
    proof {
        lemma_mat_pointwise(&result);
        assert(result@ =~= spec_mat_transpose(a@));
        assert forall|j: int| 0 <= j < 16 implies -FX_LIMIT <= #[trigger] result@[j]
            <= FX_LIMIT by {
            assert(result@[j] == a@[(j % 4) * 4 + j / 4]);
        }
    }
    result
}

/// Build a matrix from its 16 entries, row by row.
#[allow(clippy::too_many_arguments)]
pub fn mat4(
    xx: i64,
    xy: i64,
    xz: i64,
    xw: i64,
    yx: i64,
    yy: i64,
    yz: i64,
    yw: i64,
    zx: i64,
    zy: i64,
    zz: i64,
    zw: i64,
    wx: i64,
    wy: i64,
    wz: i64,
    ww: i64,
) -> (r: Mat4)
    ensures
        r@ =~= seq![
            xx as int, xy as int, xz as int, xw as int,
            yx as int, yy as int, yz as int, yw as int,
            zx as int, zy as int, zz as int, zw as int,
            wx as int, wy as int, wz as int, ww as int,
        ],
{
    let mut m: Vec<i64> = Vec::new();
    m.push(xx);
    m.push(xy);
    m.push(xz);
    m.push(xw);
    m.push(yx);
    m.push(yy);
    m.push(yz);
    m.push(yw);
    m.push(zx);
    m.push(zy);
    m.push(zz);
    m.push(zw);
    m.push(wx);
    m.push(wy);
    m.push(wz);
    m.push(ww);
    let r = Mat4 { m };
    proof {
        lemma_mat_pointwise(&r);
    }
    r
}

impl Mat4 {
    /// The identity matrix.
    pub fn new() -> (r: Mat4)
        ensures
            r@ =~= spec_mat_identity(),
            r.wf(),
    {
        mat4(FX_ONE, 0, 0, 0, 0, FX_ONE, 0, 0, 0, 0, FX_ONE, 0, 0, 0, 0, FX_ONE)
    }

    /// Copy the 16 entries of a raw row-major array.
    pub fn from(values: &[i64; 16]) -> (r: Mat4)
        ensures
            r.m@ == values@,
            r@.len() == 16,
            forall|i: int| 0 <= i < 16 ==> #[trigger] r@[i] == values@[i] as int,
    {
        let mut m: Vec<i64> = Vec::new();
        let mut i: usize = 0;
        while i < 16
            invariant
                i <= 16,
                m@.len() == i,
                forall|j: int| 0 <= j < i ==> #[trigger] m@[j] == values@[j],
            decreases 16 - i,
        {
            m.push(values[i]);
            i = i + 1;
        }
        let r = Mat4 { m };
        proof {
            lemma_mat_pointwise(&r);
            assert(r.m@ =~= values@);
        }
        r
    }
}

/// A translation matrix from a bounded vector.
pub fn translate(p: &Vec3) -> (r: Mat4)
    requires
        v3_bounded(p@),
    ensures
        r@ =~= spec_mat_translate(p@),
        r.wf(),
{
    mat4(FX_ONE, 0, 0, p.x, 0, FX_ONE, 0, p.y, 0, 0, FX_ONE, p.z, 0, 0, 0, FX_ONE)
}

/// A scale matrix from a bounded vector.
pub fn scale(s: &Vec3) -> (r: Mat4)
    requires
        v3_bounded(s@),
    ensures
        r@ =~= spec_mat_scale(s@),
        r.wf(),
{
    mat4(s.x, 0, 0, 0, 0, s.y, 0, 0, 0, 0, s.z, 0, 0, 0, 0, FX_ONE)
}

/// Each entry scaled by a fixed-point factor, truncated back to fixed point.
pub open spec fn spec_mat_scalar_mul(s: int, a: Seq<int>) -> Seq<int> {
    Seq::new(16, |i: int| spec_div_trunc(a[i] * s, FX_ONE as int))
}

/// Scale every entry of a matrix by a fixed-point scalar; reports overflow
/// instead of returning a wrapped or clamped entry.
pub fn mat_scalar_mul(s: i64, a: &Mat4) -> (r: Option<Mat4>)
    requires
        a.wf(),
        -FX_LIMIT <= s <= FX_LIMIT,
    ensures
        match r {
            Some(m) => Some(m@) == spec_checked(spec_mat_scalar_mul(s as int, a@)) && m.wf(),
            None => spec_checked(spec_mat_scalar_mul(s as int, a@)) is None,
        },
{
    let ghost raw = spec_mat_scalar_mul(s as int, a@);
    let mut out: Vec<i64> = Vec::new();
    let mut i: usize = 0;
    while i < 16
        invariant
            a.wf(),
            -FX_LIMIT <= s <= FX_LIMIT,
            raw == spec_mat_scalar_mul(s as int, a@),
            i <= 16,
            out@.len() == i,
            forall|j: int|
                0 <= j < i ==> #[trigger] out@[j] as int == raw[j] && -FX_LIMIT <= raw[j]
                    <= FX_LIMIT,
        decreases 16 - i,
    {
        proof {
            lemma_mat_pointwise(a);
            assert(-FX_LIMIT <= a@[i as int] <= FX_LIMIT);
        }
        let e = scaled_entry(a.m[i], s);
        if !push_checked(&mut out, e) {
            proof {
                assert(!(-FX_LIMIT <= raw[i as int] <= FX_LIMIT));
            }
            return None;
        }
        i = i + 1;
    }
    let result = Mat4 { m: out };
    proof {
        lemma_mat_pointwise(&result);
        assert(result@ =~= raw);
    }
    Some(result)
}

/// The local matrix of a decomposed transform: translation times rotation
/// times scale, in fixed point. The rotation block is the standard quaternion
/// rotation matrix, each entry truncated back to fixed point, then scaled
/// columnwise; the translation fills the fourth column.
pub open spec fn spec_trs_matrix(t: V3, q: Q4, s: V3) -> Seq<int> {
    let k = FX_ONE as int;
    let r00 = k - spec_div_trunc(2 * (q.y * q.y + q.z * q.z), k);
    let r01 = spec_div_trunc(2 * (q.x * q.y - q.w * q.z), k);
    let r02 = spec_div_trunc(2 * (q.x * q.z + q.w * q.y), k);
    let r10 = spec_div_trunc(2 * (q.x * q.y + q.w * q.z), k);
    let r11 = k - spec_div_trunc(2 * (q.x * q.x + q.z * q.z), k);
    let r12 = spec_div_trunc(2 * (q.y * q.z - q.w * q.x), k);
    let r20 = spec_div_trunc(2 * (q.x * q.z - q.w * q.y), k);
    let r21 = spec_div_trunc(2 * (q.y * q.z + q.w * q.x), k);
    let r22 = k - spec_div_trunc(2 * (q.x * q.x + q.y * q.y), k);
    seq![
        spec_div_trunc(r00 * s.x, k), spec_div_trunc(r01 * s.y, k), spec_div_trunc(r02 * s.z, k), t.x,
        spec_div_trunc(r10 * s.x, k), spec_div_trunc(r11 * s.y, k), spec_div_trunc(r12 * s.z, k), t.y,
        spec_div_trunc(r20 * s.x, k), spec_div_trunc(r21 * s.y, k), spec_div_trunc(r22 * s.z, k), t.z,
        0, 0, 0, k,
    ]
}

/// One rotation-matrix term `2 * (a * b +/- c * d)`, truncated to fixed
/// point; always within the fixed-point range for bounded quaternion
/// components.
fn rot_term(a: i64, b: i64, c: i64, d: i64, sub: bool) -> (r: i64)
    requires
        -QUAT_LIMIT <= a <= QUAT_LIMIT,
        -QUAT_LIMIT <= b <= QUAT_LIMIT,
        -QUAT_LIMIT <= c <= QUAT_LIMIT,
        -QUAT_LIMIT <= d <= QUAT_LIMIT,
    ensures
        r as int == spec_div_trunc(
            2 * (a as int * b as int + (if sub { -(c as int * d as int) } else { c as int * d as int })),
            FX_ONE as int,
        ),
        -FX_LIMIT <= r <= FX_LIMIT,
{
    proof {
        lemma_bounded_product(a as int, b as int, QUAT_LIMIT as int);
        lemma_bounded_product(c as int, d as int, QUAT_LIMIT as int);
    }
    let p1 = mul_wide(a, b);
    let p2 = mul_wide(c, d);
    let sum: i128 = if sub {
        p1 - p2
    } else {
        p1 + p2
    };
    let p: i128 = 2 * sum;
    proof {
        lemma_div_trunc_bound(p as int, FX_ONE as int, FX_LIMIT as int);
    }
    let q = div_trunc(p, FX_ONE as i128);
    q as i64
}

/// A rotation entry multiplied by one scale component, truncated to fixed
/// point, exact in 128 bits.
fn scaled_entry(rfx: i64, s: i64) -> (e: i128)
    requires
        -(FX_LIMIT + FX_ONE) <= rfx <= FX_LIMIT + FX_ONE,
        -FX_LIMIT <= s <= FX_LIMIT,
    ensures
        e == spec_div_trunc(rfx as int * s as int, FX_ONE as int),
{
    proof {
        lemma_bounded_product(rfx as int, s as int, FX_LIMIT as int + FX_ONE as int);
        assert((FX_LIMIT as int + FX_ONE as int) * (FX_LIMIT as int + FX_ONE as int)
            < 0x8000_0000_0000_0000_0000_0000_0000_0000) by (nonlinear_arith);
    }
    let p = mul_wide(rfx, s);
    div_trunc(p, FX_ONE as i128)
}

/// Build the local matrix of a decomposed transform (translation, rotation,
/// scale); reports overflow instead of returning a wrapped or clamped entry.
pub fn trs_matrix(t: &Vec3, rot: &Quat, s: &Vec3) -> (r: Option<Mat4>)
    requires
        v3_bounded(t@),
        q4_bounded(rot@),
        v3_bounded(s@),
    ensures
        match r {
            Some(m) => Some(m@) == spec_checked(spec_trs_matrix(t@, rot@, s@)) && m.wf(),
            None => spec_checked(spec_trs_matrix(t@, rot@, s@)) is None,
        },
{
    let ghost sm = spec_trs_matrix(t@, rot@, s@);
    let r00: i64 = FX_ONE - rot_term(rot.y, rot.y, rot.z, rot.z, false);
    let r01: i64 = rot_term(rot.x, rot.y, rot.w, rot.z, true);
    let r02: i64 = rot_term(rot.x, rot.z, rot.w, rot.y, false);
    let r10: i64 = rot_term(rot.x, rot.y, rot.w, rot.z, false);
    let r11: i64 = FX_ONE - rot_term(rot.x, rot.x, rot.z, rot.z, false);
    let r12: i64 = rot_term(rot.y, rot.z, rot.w, rot.x, true);
    let r20: i64 = rot_term(rot.x, rot.z, rot.w, rot.y, true);
    let r21: i64 = rot_term(rot.y, rot.z, rot.w, rot.x, false);
    let r22: i64 = FX_ONE - rot_term(rot.x, rot.x, rot.y, rot.y, false);
    let e00 = scaled_entry(r00, s.x);
    let e01 = scaled_entry(r01, s.y);
    let e02 = scaled_entry(r02, s.z);
    let e10 = scaled_entry(r10, s.x);
    let e11 = scaled_entry(r11, s.y);
    let e12 = scaled_entry(r12, s.z);
    let e20 = scaled_entry(r20, s.x);
    let e21 = scaled_entry(r21, s.y);
    let e22 = scaled_entry(r22, s.z);
    let mut out: Vec<i64> = Vec::new();
    if !push_checked(&mut out, e00) {
        return None;
    }
    if !push_checked(&mut out, e01) {
        return None;
    }
    if !push_checked(&mut out, e02) {
        return None;
    }
    if !push_checked(&mut out, t.x as i128) {
        return None;
    }
    if !push_checked(&mut out, e10) {
        return None;
    }
    if !push_checked(&mut out, e11) {
        return None;
    }
    if !push_checked(&mut out, e12) {
        return None;
    }
    if !push_checked(&mut out, t.y as i128) {
        return None;
    }
    if !push_checked(&mut out, e20) {
        return None;
    }
    if !push_checked(&mut out, e21) {
        return None;
    }
    if !push_checked(&mut out, e22) {
        return None;
    }
    if !push_checked(&mut out, t.z as i128) {
        return None;
    }
    if !push_checked(&mut out, 0) {
        return None;
    }
    if !push_checked(&mut out, 0) {
        return None;
    }
    if !push_checked(&mut out, 0) {
        return None;
    }
    if !push_checked(&mut out, FX_ONE as i128) {
        return None;
    }
    let result = Mat4 { m: out };
    proof {
        lemma_mat_pointwise(&result);
        assert(result@ =~= sm);
    }
    Some(result)
}

} // verus!
