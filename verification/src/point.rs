//! Points with three exact coordinates, and the segment-division and
//! averaging primitives that the polyhedron builders rest on.

use vstd::prelude::*;

use crate::scalar::Scalar;
use crate::scalar::ScalarV;
use crate::scalar::SC_LIM;
use crate::scalar::fits;
use crate::scalar::sv_add;
use crate::scalar::sv_div;
use crate::scalar::sv_eq;
use crate::scalar::sv_div_raw;
use crate::scalar::sv_fits;
use crate::scalar::sv_in;
use crate::scalar::sv_mul;
use crate::scalar::sv_wf;

verus! {

/// Why a numeric primitive refused its input.
#[derive(Clone, Copy, Debug, PartialEq, Eq, Structural)]
pub enum GeomError {
    /// A division ratio summed to zero, or an empty sequence was averaged.
    InvalidArgument,
    /// An index pointed past the end of the vertex table.
    IndexOutOfRange,
}

/// A point with three exact coordinates.
#[derive(Clone, Copy, Debug, PartialEq, Eq, Structural)]
pub struct Point3 {
    pub x: Scalar,
    pub y: Scalar,
    pub z: Scalar,
}

/// The mathematical image of a [`Point3`].
pub ghost struct PointV {
    pub x: ScalarV,
    pub y: ScalarV,
    pub z: ScalarV,
}

impl View for Point3 {
    type V = PointV;

    open spec fn view(&self) -> PointV {
        PointV { x: self.x@, y: self.y@, z: self.z@ }
    }
}

/// All three coordinates well formed.
pub open spec fn pv_wf(p: PointV) -> bool {
    sv_wf(p.x) && sv_wf(p.y) && sv_wf(p.z)
}

/// All three coordinates within `m`.
pub open spec fn pv_in(p: PointV, m: int) -> bool {
    sv_in(p.x, m) && sv_in(p.y, m) && sv_in(p.z, m)
}

/// All three coordinates fit in `i64` fields.
pub open spec fn pv_fits(p: PointV) -> bool {
    sv_fits(p.x) && sv_fits(p.y) && sv_fits(p.z)
}

/// Coordinate-wise sum.
pub open spec fn pv_add(p: PointV, q: PointV) -> PointV {
    PointV { x: sv_add(p.x, q.x), y: sv_add(p.y, q.y), z: sv_add(p.z, q.z) }
}

/// Coordinate-wise internal division point, before sign normalization.
pub open spec fn pv_div_raw(p: PointV, q: PointV, m: int, n: int) -> PointV {
    PointV {
        x: sv_div_raw(p.x, q.x, m, n),
        y: sv_div_raw(p.y, q.y, m, n),
        z: sv_div_raw(p.z, q.z, m, n),
    }
}

/// Coordinate-wise internal division point `(n*p + m*q) / (m + n)`.
pub open spec fn pv_div(p: PointV, q: PointV, m: int, n: int) -> PointV {
    PointV { x: sv_div(p.x, q.x, m, n), y: sv_div(p.y, q.y, m, n), z: sv_div(p.z, q.z, m, n) }
}

/// The views of a sequence of points.
pub open spec fn pviews(s: Seq<Point3>) -> Seq<PointV> {
    s.map_values(|p: Point3| p@)
}

/// Sum of the first `k + 1` points of `s`, folded from the left exactly as
/// [`average`] folds them.
pub open spec fn psum(s: Seq<PointV>, k: int) -> PointV
    decreases k,
{
    if k <= 0 {
        s[0]
    } else {
        pv_add(psum(s, k - 1), s[k])
    }
}

/// The coordinate-wise mean of a non-empty sequence: the folded sum with
/// each denominator multiplied by the length.
pub open spec fn pv_avg(s: Seq<PointV>) -> PointV {
    let t = psum(s, s.len() - 1);
    PointV {
        x: ScalarV { a: t.x.a, b: t.x.b, d: t.x.d * s.len() },
        y: ScalarV { a: t.y.a, b: t.y.b, d: t.y.d * s.len() },
        z: ScalarV { a: t.z.a, b: t.z.b, d: t.z.d * s.len() },
    }
}

/// The machine bounds under which [`average`] stays free of overflow: every
/// element and every partial sum within [`SC_LIM`], and the final
/// denominators still in `i64` after the multiplication by the length.
pub open spec fn avg_ok(s: Seq<PointV>) -> bool {
    s.len() == 0 || {
        &&& s.len() <= SC_LIM
        &&& forall|i: int| 0 <= i < s.len() ==> pv_in(#[trigger] s[i], SC_LIM as int)
        &&& forall|k: int| 0 <= k < s.len() ==> pv_in(#[trigger] psum(s, k), SC_LIM as int)
        &&& fits(psum(s, s.len() - 1).x.d * s.len())
        &&& fits(psum(s, s.len() - 1).y.d * s.len())
        &&& fits(psum(s, s.len() - 1).z.d * s.len())
    }
}

/// Numerators within `nmax` and denominator exactly `dv`.
pub open spec fn sv_box(s: ScalarV, nmax: int, dv: int) -> bool {
    &&& -nmax <= s.a <= nmax
    &&& -nmax <= s.b <= nmax
    &&& s.d == dv
}

/// All three coordinates within the same box.
pub open spec fn pv_box(p: PointV, nmax: int, dv: int) -> bool {
    sv_box(p.x, nmax, dv) && sv_box(p.y, nmax, dv) && sv_box(p.z, nmax, dv)
}

/// Averaging 3 points that share a denominator stays within machine bounds,
/// and the mean keeps the shared denominator times 3.
pub proof fn lemma_avg3_ok(s: Seq<PointV>, nmax: int, dv: int)
    requires
        s.len() == 3,
        forall|i: int| 0 <= i < 3 ==> pv_box(#[trigger] s[i], nmax, dv),
        0 <= nmax,
        1 <= dv,
        3 * nmax <= SC_LIM,
        3 * dv <= SC_LIM,
    ensures
        avg_ok(s),
        pv_box(pv_avg(s), 3 * nmax, 3 * dv),
{
    assert(psum(s, 0) == s[0]);
    assert(psum(s, 1) == pv_add(psum(s, 0), s[1]));
    assert(psum(s, 2) == pv_add(psum(s, 1), s[2]));
    assert(pv_box(psum(s, 1), 2 * nmax, dv));
    assert(pv_box(psum(s, 2), 3 * nmax, dv));
}

/// Averaging 5 points that share a denominator stays within machine bounds,
/// and the mean keeps the shared denominator times 5.
pub proof fn lemma_avg5_ok(s: Seq<PointV>, nmax: int, dv: int)
    requires
        s.len() == 5,
        forall|i: int| 0 <= i < 5 ==> pv_box(#[trigger] s[i], nmax, dv),
        0 <= nmax,
        1 <= dv,
        5 * nmax <= SC_LIM,
        5 * dv <= SC_LIM,
    ensures
        avg_ok(s),
        pv_box(pv_avg(s), 5 * nmax, 5 * dv),
{
    assert(psum(s, 0) == s[0]);
    assert(psum(s, 1) == pv_add(psum(s, 0), s[1]));
    assert(psum(s, 2) == pv_add(psum(s, 1), s[2]));
    assert(psum(s, 3) == pv_add(psum(s, 2), s[3]));
    assert(psum(s, 4) == pv_add(psum(s, 3), s[4]));
    assert(pv_box(psum(s, 1), 2 * nmax, dv));
    assert(pv_box(psum(s, 2), 3 * nmax, dv));
    assert(pv_box(psum(s, 3), 4 * nmax, dv));
    assert(pv_box(psum(s, 4), 5 * nmax, dv));
}

/// One coordinate of [`lemma_div_fits_same`].
proof fn lemma_div_fits_same_sc(rd: int, ps: ScalarV, qs: ScalarV, m: int, n: int)
    requires
        1 <= rd <= crate::scalar::R_DEN_MAX,
        sv_box(ps, 6 * crate::scalar::R_NUM_MAX as int, 2 * rd),
        sv_box(qs, 6 * crate::scalar::R_NUM_MAX as int, 2 * rd),
        -3 <= m <= 3,
        -3 <= n <= 3,
    ensures
        sv_fits(sv_div_raw(ps, qs, m, n)),
{
    crate::scalar::lemma_mul_bound(n, ps.a, 3, 6_000_000_000);
    crate::scalar::lemma_mul_bound(n, ps.b, 3, 6_000_000_000);
    crate::scalar::lemma_mul_bound(m, qs.a, 3, 6_000_000_000);
    crate::scalar::lemma_mul_bound(m, qs.b, 3, 6_000_000_000);
    crate::scalar::lemma_mul_bound(m + n, ps.d, 6, 2_000_000);
}

/// A division of two vertices that share the denominator `2*rd` in a small
/// ratio stays within machine bounds.
pub proof fn lemma_div_fits_same(rd: int, p: PointV, q: PointV, m: int, n: int)
    requires
        1 <= rd <= crate::scalar::R_DEN_MAX,
        pv_box(p, 6 * crate::scalar::R_NUM_MAX as int, 2 * rd),
        pv_box(q, 6 * crate::scalar::R_NUM_MAX as int, 2 * rd),
        -3 <= m <= 3,
        -3 <= n <= 3,
    ensures
        pv_fits(pv_div_raw(p, q, m, n)),
        pv_in(p, SC_LIM as int),
        pv_in(q, SC_LIM as int),
{
    lemma_div_fits_same_sc(rd, p.x, q.x, m, n);
    lemma_div_fits_same_sc(rd, p.y, q.y, m, n);
    lemma_div_fits_same_sc(rd, p.z, q.z, m, n);
}

/// A division of a vertex (denominator `2*rd`) against a centroid of five
/// such vertices (denominator `10*rd`) in a small ratio stays within machine
/// bounds.
/// One coordinate of [`lemma_div_fits_mixed`].
proof fn lemma_div_fits_mixed_sc(rd: int, ps: ScalarV, qs: ScalarV, m: int, n: int)
    requires
        1 <= rd <= crate::scalar::R_DEN_MAX,
        sv_box(ps, 6 * crate::scalar::R_NUM_MAX as int, 2 * rd),
        sv_box(qs, 30 * crate::scalar::R_NUM_MAX as int, 10 * rd),
        -3 <= m <= 3,
        -3 <= n <= 3,
    ensures
        sv_fits(sv_div_raw(ps, qs, m, n)),
{
    crate::scalar::lemma_mul_bound(n, ps.a, 3, 6_000_000_000);
    crate::scalar::lemma_mul_bound(n, ps.b, 3, 6_000_000_000);
    crate::scalar::lemma_mul_bound(n * ps.a, qs.d, 18_000_000_000, 10_000_000);
    crate::scalar::lemma_mul_bound(n * ps.b, qs.d, 18_000_000_000, 10_000_000);
    crate::scalar::lemma_mul_bound(m, qs.a, 3, 30_000_000_000);
    crate::scalar::lemma_mul_bound(m, qs.b, 3, 30_000_000_000);
    crate::scalar::lemma_mul_bound(m * qs.a, ps.d, 90_000_000_000, 2_000_000);
    crate::scalar::lemma_mul_bound(m * qs.b, ps.d, 90_000_000_000, 2_000_000);
    crate::scalar::lemma_mul_bound(m + n, ps.d, 6, 2_000_000);
    crate::scalar::lemma_mul_bound((m + n) * ps.d, qs.d, 12_000_000, 10_000_000);
}

/// A division of a vertex (denominator `2*rd`) against a centroid of five
/// such vertices (denominator `10*rd`) in a small ratio stays within machine
/// bounds.
pub proof fn lemma_div_fits_mixed(rd: int, p: PointV, q: PointV, m: int, n: int)
    requires
        1 <= rd <= crate::scalar::R_DEN_MAX,
        pv_box(p, 6 * crate::scalar::R_NUM_MAX as int, 2 * rd),
        pv_box(q, 30 * crate::scalar::R_NUM_MAX as int, 10 * rd),
        -3 <= m <= 3,
        -3 <= n <= 3,
    ensures
        pv_fits(pv_div_raw(p, q, m, n)),
        pv_in(p, SC_LIM as int),
        pv_in(q, SC_LIM as int),
{
    lemma_div_fits_mixed_sc(rd, p.x, q.x, m, n);
    lemma_div_fits_mixed_sc(rd, p.y, q.y, m, n);
    lemma_div_fits_mixed_sc(rd, p.z, q.z, m, n);
}

/// The points of `s` picked out by `idx`, in order.
pub open spec fn sel(idx: Seq<u16>, s: Seq<PointV>) -> Seq<PointV> {
    idx.map_values(|i: u16| s[i as int])
}

/// `r` equals `(cp*p + cq*q) / w` as a real number, stated with every
/// denominator cross-multiplied away (`w != 0` and well-formed inputs make
/// this the defining ratio equation of a division point).
pub open spec fn sv_lin2(r: ScalarV, p: ScalarV, q: ScalarV, cp: int, cq: int, w: int) -> bool {
    &&& r.a * (w * p.d * q.d) == (cp * p.a * q.d + cq * q.a * p.d) * r.d
    &&& r.b * (w * p.d * q.d) == (cp * p.b * q.d + cq * q.b * p.d) * r.d
}

/// The internal division point satisfies its defining ratio equation:
/// dividing `p..q` in the ratio `m : n` gives `(n*p + m*q) / (m + n)`.
pub proof fn lemma_div_is_lincomb(p: ScalarV, q: ScalarV, m: int, n: int) by (nonlinear_arith)
    requires
        sv_wf(p),
        sv_wf(q),
        m + n != 0,
    ensures
        sv_lin2(sv_div(p, q, m, n), p, q, n, m, m + n),
{
}

/// Dividing any segment internally in the ratio `1 : 1` yields its midpoint:
/// the result `r` satisfies `2*r == p + q` coordinate-wise.
pub proof fn lemma_divide_int_midpoint(p: PointV, q: PointV)
    requires
        pv_wf(p),
        pv_wf(q),
    ensures
        sv_lin2(pv_div(p, q, 1, 1).x, p.x, q.x, 1, 1, 2),
        sv_lin2(pv_div(p, q, 1, 1).y, p.y, q.y, 1, 1, 2),
        sv_lin2(pv_div(p, q, 1, 1).z, p.z, q.z, 1, 1, 2),
{
    lemma_div_is_lincomb(p.x, q.x, 1, 1);
    lemma_div_is_lincomb(p.y, q.y, 1, 1);
    lemma_div_is_lincomb(p.z, q.z, 1, 1);
}

/// A division point is well formed.
pub proof fn lemma_div_wf(p: ScalarV, q: ScalarV, m: int, n: int) by (nonlinear_arith)
    requires
        sv_wf(p),
        sv_wf(q),
        m + n != 0,
    ensures
        sv_wf(sv_div(p, q, m, n)),
{
}

/// One numerator component of [`lemma_lin_recover`]: from the two ratio
/// equations for `iv` and `ov`, the component `(oa, od)` of the outer point
/// agrees with the component `(qa, qd)` of the endpoint.
proof fn lemma_lin_recover_component(
    oa: int,
    od: int,
    ia: int,
    id: int,
    pa: int,
    pd: int,
    qa: int,
    qd: int,
    m: int,
    n: int,
)
    requires
        ia * ((m + n) * pd * qd) == (n * pa * qd + m * qa * pd) * id,
        oa * (m * pd * id) == ((-n) * pa * id + (m + n) * ia * pd) * od,
        m != 0,
        pd >= 1,
        id >= 1,
    ensures
        oa * qd == qa * od,
{
    let c: int = m * pd * id;
    let t1: int = (-n) * pa * id;
    let t2: int = (m + n) * ia * pd;
    assert(c != 0) by (nonlinear_arith)
        requires
            c == m * pd * id,
            m != 0,
            pd >= 1,
            id >= 1;
    assert(oa * c * qd == (t1 + t2) * od * qd) by (nonlinear_arith)
        requires
            oa * (m * pd * id) == (t1 + t2) * od,
            c == m * pd * id;
    assert((t1 + t2) * od * qd == t1 * od * qd + t2 * od * qd) by (nonlinear_arith);
    assert(t2 * od * qd == (n * pa * qd + m * qa * pd) * id * od) by (nonlinear_arith)
        requires
            t2 == (m + n) * ia * pd,
            ia * ((m + n) * pd * qd) == (n * pa * qd + m * qa * pd) * id;
    assert((n * pa * qd + m * qa * pd) * id * od == n * pa * qd * id * od + m * qa * pd * id
        * od) by (nonlinear_arith);
    assert(t1 * od * qd + n * pa * qd * id * od == 0) by (nonlinear_arith)
        requires
            t1 == (-n) * pa * id;
    assert(m * qa * pd * id * od == qa * od * c) by (nonlinear_arith)
        requires
            c == m * pd * id;
    assert(oa * c * qd == qa * od * c);
    assert(oa * qd == qa * od) by (nonlinear_arith)
        requires
            oa * c * qd == qa * od * c,
            c != 0;
}

/// External division undoes internal division: dividing `p..q` internally in
/// the ratio `m : n` and then dividing `p..that point` externally in the
/// ratio `(m + n) : n` recovers the endpoint `q`.
pub proof fn lemma_divide_ext_recovers(p: ScalarV, q: ScalarV, m: int, n: int)
    requires
        sv_wf(p),
        sv_wf(q),
        m != 0,
        m + n != 0,
    ensures
        sv_eq(sv_div(p, sv_div(p, q, m, n), m + n, -n), q),
{
    let iv = sv_div(p, q, m, n);
    let ov = sv_div(p, iv, m + n, -n);
    lemma_div_is_lincomb(p, q, m, n);
    lemma_div_wf(p, q, m, n);
    lemma_div_is_lincomb(p, iv, m + n, -n);
    lemma_div_wf(p, iv, m + n, -n);
    assert((m + n) + (-n) == m);
    lemma_lin_recover_component(ov.a, ov.d, iv.a, iv.d, p.a, p.d, q.a, q.d, m, n);
    lemma_lin_recover_component(ov.b, ov.d, iv.b, iv.d, p.b, p.d, q.b, q.d, m, n);
}

/// Scaling passes through a same-denominator sum: if `x2` and `y2` denote
/// `k` times `x` and `y`, their sum denotes `k` times the sum.
pub proof fn lemma_add_scales(k: ScalarV, x2: ScalarV, y2: ScalarV, x: ScalarV, y: ScalarV)
    requires
        sv_eq(x2, sv_mul(k, x)),
        sv_eq(y2, sv_mul(k, y)),
        x.d == y.d,
        x2.d == y2.d,
    ensures
        sv_eq(sv_add(x2, y2), sv_mul(k, sv_add(x, y))),
{
    let pxa: int = k.a * x.a + 5 * k.b * x.b;
    let pya: int = k.a * y.a + 5 * k.b * y.b;
    let pxb: int = k.a * x.b + k.b * x.a;
    let pyb: int = k.a * y.b + k.b * y.a;
    crate::scalar::lemma_sum_eq(x2.a, y2.a, k.d * x.d, pxa, pya, x2.d);
    crate::scalar::lemma_sum_eq(x2.b, y2.b, k.d * x.d, pxb, pyb, x2.d);
    assert(pxa + pya == k.a * (x.a + y.a) + 5 * k.b * (x.b + y.b)) by (nonlinear_arith)
        requires
            pxa == k.a * x.a + 5 * k.b * x.b,
            pya == k.a * y.a + 5 * k.b * y.b;
    assert(pxb + pyb == k.a * (x.b + y.b) + k.b * (x.a + y.a)) by (nonlinear_arith)
        requires
            pxb == k.a * x.b + k.b * x.a,
            pyb == k.a * y.b + k.b * y.a;
}

/// Scaling passes through multiplying the denominator by `c` on both sides.
pub proof fn lemma_den_mul_scales(k: ScalarV, y: ScalarV, x: ScalarV, c: int)
    requires
        sv_eq(y, sv_mul(k, x)),
    ensures
        sv_eq(
            (ScalarV { a: y.a, b: y.b, d: y.d * c }),
            sv_mul(k, (ScalarV { a: x.a, b: x.b, d: x.d * c })),
        ),
{
    crate::scalar::lemma_scale_eq(y.a, k.d * x.d, k.a * x.a + 5 * k.b * x.b, y.d, c);
    crate::scalar::lemma_scale_eq(y.b, k.d * x.d, k.a * x.b + k.b * x.a, y.d, c);
    assert(k.d * (x.d * c) == (k.d * x.d) * c) by (nonlinear_arith);
}

/// Scaling passes through internal division: dividing the scaled endpoints
/// in the same ratio gives `k` times the division point of the unscaled ones.
pub proof fn lemma_div_scales(
    k: ScalarV,
    p2: ScalarV,
    q2: ScalarV,
    p: ScalarV,
    q: ScalarV,
    m: int,
    n: int,
)
    requires
        sv_eq(p2, sv_mul(k, p)),
        sv_eq(q2, sv_mul(k, q)),
        sv_wf(p),
        sv_wf(q),
        sv_wf(p2),
        sv_wf(q2),
        m + n >= 1,
        p.d == q.d,
        p2.d == q2.d,
    ensures
        sv_eq(sv_div(p2, q2, m, n), sv_mul(k, sv_div(p, q, m, n))),
{
    assert(sv_div_raw(p, q, m, n).d >= 1) by (nonlinear_arith)
        requires
            p.d >= 1,
            q.d >= 1,
            m + n >= 1;
    assert(sv_div_raw(p2, q2, m, n).d >= 1) by (nonlinear_arith)
        requires
            p2.d >= 1,
            q2.d >= 1,
            m + n >= 1;
    let pap: int = k.a * p.a + 5 * k.b * p.b;
    let paq: int = k.a * q.a + 5 * k.b * q.b;
    let pbp: int = k.a * p.b + k.b * p.a;
    let pbq: int = k.a * q.b + k.b * q.a;
    crate::scalar::lemma_mulc_eq(p2.a, k.d * p.d, pap, p2.d, n);
    crate::scalar::lemma_mulc_eq(q2.a, k.d * p.d, paq, p2.d, m);
    crate::scalar::lemma_mulc_eq(p2.b, k.d * p.d, pbp, p2.d, n);
    crate::scalar::lemma_mulc_eq(q2.b, k.d * p.d, pbq, p2.d, m);
    crate::scalar::lemma_sum_eq(n * p2.a, m * q2.a, k.d * p.d, n * pap, m * paq, p2.d);
    crate::scalar::lemma_sum_eq(n * p2.b, m * q2.b, k.d * p.d, n * pbp, m * pbq, p2.d);
    crate::scalar::lemma_scale_eq(
        n * p2.a + m * q2.a,
        k.d * p.d,
        n * pap + m * paq,
        p2.d,
        m + n,
    );
    crate::scalar::lemma_scale_eq(
        n * p2.b + m * q2.b,
        k.d * p.d,
        n * pbp + m * pbq,
        p2.d,
        m + n,
    );
    assert(k.d * ((m + n) * p.d) == (k.d * p.d) * (m + n)) by (nonlinear_arith);
    assert((m + n) * p2.d == p2.d * (m + n)) by (nonlinear_arith);
    assert(n * pap == k.a * (n * p.a) + 5 * k.b * (n * p.b)) by (nonlinear_arith)
        requires
            pap == k.a * p.a + 5 * k.b * p.b;
    assert(m * paq == k.a * (m * q.a) + 5 * k.b * (m * q.b)) by (nonlinear_arith)
        requires
            paq == k.a * q.a + 5 * k.b * q.b;
    assert(n * pbp == k.a * (n * p.b) + k.b * (n * p.a)) by (nonlinear_arith)
        requires
            pbp == k.a * p.b + k.b * p.a;
    assert(m * pbq == k.a * (m * q.b) + k.b * (m * q.a)) by (nonlinear_arith)
        requires
            pbq == k.a * q.b + k.b * q.a;
    assert(k.a * (n * p.a + m * q.a) == k.a * (n * p.a) + k.a * (m * q.a)) by (nonlinear_arith);
    assert(5 * k.b * (n * p.b + m * q.b) == 5 * k.b * (n * p.b) + 5 * k.b * (m * q.b))
        by (nonlinear_arith);
    assert(k.a * (n * p.b + m * q.b) == k.a * (n * p.b) + k.a * (m * q.b)) by (nonlinear_arith);
    assert(k.b * (n * p.a + m * q.a) == k.b * (n * p.a) + k.b * (m * q.a)) by (nonlinear_arith);
}

/// All three coordinates of `p` have denominator `dv`.
pub open spec fn pv_den(p: PointV, dv: int) -> bool {
    p.x.d == dv && p.y.d == dv && p.z.d == dv
}

/// `yp` is `k` times `xp` coordinate-wise (see [`crate::icosahedron::pv_scaled`]);
/// scaling passes through a coordinate-wise sum of points over shared
/// denominators.
pub proof fn lemma_pv_add_scales(k: ScalarV, p2: PointV, q2: PointV, p: PointV, q: PointV, dv: int, dv2: int)
    requires
        sv_eq(p2.x, sv_mul(k, p.x)),
        sv_eq(p2.y, sv_mul(k, p.y)),
        sv_eq(p2.z, sv_mul(k, p.z)),
        sv_eq(q2.x, sv_mul(k, q.x)),
        sv_eq(q2.y, sv_mul(k, q.y)),
        sv_eq(q2.z, sv_mul(k, q.z)),
        pv_den(p, dv),
        pv_den(q, dv),
        pv_den(p2, dv2),
        pv_den(q2, dv2),
    ensures
        sv_eq(pv_add(p2, q2).x, sv_mul(k, pv_add(p, q).x)),
        sv_eq(pv_add(p2, q2).y, sv_mul(k, pv_add(p, q).y)),
        sv_eq(pv_add(p2, q2).z, sv_mul(k, pv_add(p, q).z)),
        pv_den(pv_add(p, q), dv),
        pv_den(pv_add(p2, q2), dv2),
{
    lemma_add_scales(k, p2.x, q2.x, p.x, q.x);
    lemma_add_scales(k, p2.y, q2.y, p.y, q.y);
    lemma_add_scales(k, p2.z, q2.z, p.z, q.z);
}

/// Scaling passes through the mean of three points over shared denominators.
pub proof fn lemma_avg3_scales(k: ScalarV, s2: Seq<PointV>, s: Seq<PointV>, dv: int, dv2: int)
    requires
        s.len() == 3,
        s2.len() == 3,
        forall|j: int| 0 <= j < 3 ==> pv_den(#[trigger] s[j], dv),
        forall|j: int| 0 <= j < 3 ==> pv_den(#[trigger] s2[j], dv2),
        forall|j: int|
            0 <= j < 3 ==> sv_eq((#[trigger] s2[j]).x, sv_mul(k, s[j].x)) && sv_eq(
                s2[j].y,
                sv_mul(k, s[j].y),
            ) && sv_eq(s2[j].z, sv_mul(k, s[j].z)),
    ensures
        sv_eq(pv_avg(s2).x, sv_mul(k, pv_avg(s).x)),
        sv_eq(pv_avg(s2).y, sv_mul(k, pv_avg(s).y)),
        sv_eq(pv_avg(s2).z, sv_mul(k, pv_avg(s).z)),
{
    assert(psum(s, 1) == pv_add(psum(s, 0), s[1]));
    assert(psum(s, 2) == pv_add(psum(s, 1), s[2]));
    assert(psum(s2, 1) == pv_add(psum(s2, 0), s2[1]));
    assert(psum(s2, 2) == pv_add(psum(s2, 1), s2[2]));
    lemma_pv_add_scales(k, s2[0], s2[1], s[0], s[1], dv, dv2);
    lemma_pv_add_scales(k, pv_add(s2[0], s2[1]), s2[2], pv_add(s[0], s[1]), s[2], dv, dv2);
    lemma_den_mul_scales(k, psum(s2, 2).x, psum(s, 2).x, 3);
    lemma_den_mul_scales(k, psum(s2, 2).y, psum(s, 2).y, 3);
    lemma_den_mul_scales(k, psum(s2, 2).z, psum(s, 2).z, 3);
}

/// The point dividing the segment from `p` to `q` internally in the ratio
/// `m : n`, that is `(n*p + m*q) / (m + n)`; `InvalidArgument` exactly when
/// `m + n == 0`.
pub fn divide_int(p: &Point3, q: &Point3, m: i32, n: i32) -> (r: Result<Point3, GeomError>)
    requires
        pv_in(p@, SC_LIM as int),
        pv_in(q@, SC_LIM as int),
        m + n != 0 ==> pv_fits(pv_div_raw(p@, q@, m as int, n as int)),
    ensures
        m + n == 0 <==> r is Err,
        r is Err ==> r->Err_0 == GeomError::InvalidArgument,
        r is Ok ==> r->Ok_0@ == pv_div(p@, q@, m as int, n as int) && pv_wf(r->Ok_0@),
{
    if m as i64 + n as i64 == 0 {
        return Err(GeomError::InvalidArgument);
    }
    Ok(Point3 {
        x: p.x.div_with(&q.x, m, n),
        y: p.y.div_with(&q.y, m, n),
        z: p.z.div_with(&q.z, m, n),
    })
}

/// The point dividing the segment from `p` to `q` externally in the ratio
/// `m : n`, that is the internal division in the ratio `m : -n`;
/// `InvalidArgument` exactly when `m == n`.
pub fn divide_ext(p: &Point3, q: &Point3, m: i32, n: i32) -> (r: Result<Point3, GeomError>)
    requires
        n > i32::MIN,
        pv_in(p@, SC_LIM as int),
        pv_in(q@, SC_LIM as int),
        m != n ==> pv_fits(pv_div_raw(p@, q@, m as int, -(n as int))),
    ensures
        m == n <==> r is Err,
        r is Err ==> r->Err_0 == GeomError::InvalidArgument,
        r is Ok ==> r->Ok_0@ == pv_div(p@, q@, m as int, -(n as int)) && pv_wf(r->Ok_0@),
{
    divide_int(p, q, m, -n)
}

/// The coordinate-wise mean of the points; `InvalidArgument` exactly when
/// the sequence is empty.
pub fn average(ps: &Vec<Point3>) -> (r: Result<Point3, GeomError>)
    requires
        avg_ok(pviews(ps@)),
    ensures
        ps@.len() == 0 <==> r is Err,
        r is Err ==> r->Err_0 == GeomError::InvalidArgument,
        r is Ok ==> r->Ok_0@ == pv_avg(pviews(ps@)) && pv_wf(r->Ok_0@),
{
    let ghost s: Seq<PointV> = pviews(ps@);
    if ps.len() == 0 {
        return Err(GeomError::InvalidArgument);
    }
    let mut acc: Point3 = ps[0];
    assert(acc@ == s[0]);
    let mut i: usize = 1;
    while i < ps.len()
        invariant
            1 <= i <= ps@.len(),
            s == pviews(ps@),
            s.len() == ps@.len(),
            1 <= s.len(),
            avg_ok(s),
            acc@ == psum(s, i - 1),
        decreases ps@.len() - i,
    {
        assert(ps@[i as int]@ == s[i as int]);
        assert(psum(s, i as int) == pv_add(psum(s, i as int - 1), s[i as int]));
        assert(pv_in(psum(s, i as int), SC_LIM as int));
        acc = Point3 {
            x: acc.x.add_to(&ps[i].x),
            y: acc.y.add_to(&ps[i].y),
            z: acc.z.add_to(&ps[i].z),
        };
        i = i + 1;
    }
    let k: i64 = ps.len() as i64;
    proof {
        assert(psum(s, s.len() - 1).x.d >= 1 && k >= 1 ==> psum(s, s.len() - 1).x.d * k >= 1)
            by (nonlinear_arith);
        assert(psum(s, s.len() - 1).y.d >= 1 && k >= 1 ==> psum(s, s.len() - 1).y.d * k >= 1)
            by (nonlinear_arith);
        assert(psum(s, s.len() - 1).z.d >= 1 && k >= 1 ==> psum(s, s.len() - 1).z.d * k >= 1)
            by (nonlinear_arith);
    }
    Ok(Point3 {
        x: Scalar { a: acc.x.a, b: acc.x.b, d: acc.x.d * k },
        y: Scalar { a: acc.y.a, b: acc.y.b, d: acc.y.d * k },
        z: Scalar { a: acc.z.a, b: acc.z.b, d: acc.z.d * k },
    })
}

/// The mean of the points of `vtx` picked out by `idx`:
/// `IndexOutOfRange` exactly when an index points past the end of `vtx`,
/// `InvalidArgument` exactly when `idx` is empty and all indices are in range.
pub fn centroid_of_indices(idx: &Vec<u16>, vtx: &Vec<Point3>) -> (r: Result<Point3, GeomError>)
    requires
        (forall|k: int| 0 <= k < idx@.len() ==> (#[trigger] idx@[k]) < vtx@.len()) ==> avg_ok(
            sel(idx@, pviews(vtx@)),
        ),
    ensures
        ((forall|k: int| 0 <= k < idx@.len() ==> (#[trigger] idx@[k]) < vtx@.len()) && idx@.len()
            > 0) ==> r is Ok && r->Ok_0@ == pv_avg(sel(idx@, pviews(vtx@))) && pv_wf(r->Ok_0@),
        (exists|k: int| 0 <= k < idx@.len() && (#[trigger] idx@[k]) >= vtx@.len()) ==> r is Err
            && r->Err_0 == GeomError::IndexOutOfRange,
        ((forall|k: int| 0 <= k < idx@.len() ==> (#[trigger] idx@[k]) < vtx@.len()) && idx@.len()
            == 0) ==> r is Err && r->Err_0 == GeomError::InvalidArgument,
{
    let mut chosen: Vec<Point3> = Vec::new();
    let mut k: usize = 0;
    while k < idx.len()
        invariant
            0 <= k <= idx@.len(),
            forall|j: int| 0 <= j < k ==> (#[trigger] idx@[j]) < vtx@.len(),
            chosen@.len() == k,
            forall|j: int| 0 <= j < k ==> (#[trigger] chosen@[j]) == vtx@[idx@[j] as int],
        decreases idx@.len() - k,
    {
        let ix = idx[k];
        if ix as usize >= vtx.len() {
            return Err(GeomError::IndexOutOfRange);
        }
        chosen.push(vtx[ix as usize]);
        k = k + 1;
    }
    proof {
        assert(pviews(chosen@) =~= sel(idx@, pviews(vtx@)));
    }
    average(&chosen)
}

} // verus!
