//! Exact numbers of the form `(a + b*sqrt(5)) / d`.
//!
//! The golden ratio `(1 + sqrt(5)) / 2` and every coordinate derived from it
//! by sums, products and rational division points stay inside this field, so
//! the polyhedron builders can work with exact values instead of rounded ones.

use vstd::prelude::*;

verus! {

/// Magnitude accepted by the arithmetic helpers: fields within this bound
/// keep every intermediate product inside `i128`.
pub const SC_LIM: i64 = 0x100_0000_0000;

/// An exact number `(a + b*sqrt(5)) / d`.  The denominator is kept positive;
/// representations are not reduced, so one number may have many of them
/// (see [`sv_eq`]).
#[derive(Clone, Copy, Debug, PartialEq, Eq, Structural)]
pub struct Scalar {
    /// rational part of the numerator
    pub a: i64,
    /// coefficient of `sqrt(5)` in the numerator
    pub b: i64,
    /// denominator, at least 1
    pub d: i64,
}

/// The mathematical image of a [`Scalar`]: the same triple, unbounded.
pub ghost struct ScalarV {
    pub a: int,
    pub b: int,
    pub d: int,
}

impl View for Scalar {
    type V = ScalarV;

    open spec fn view(&self) -> ScalarV {
        ScalarV { a: self.a as int, b: self.b as int, d: self.d as int }
    }
}

/// Magnitude accepted for the numerators of a radius.
pub const R_NUM_MAX: i64 = 1_000_000_000;

/// Magnitude accepted for the denominator of a radius.
pub const R_DEN_MAX: i64 = 1_000_000;

/// The machine bounds on a radius under which every builder stays free of
/// overflow.
pub open spec fn radius_ok(r: ScalarV) -> bool {
    &&& -R_NUM_MAX <= r.a <= R_NUM_MAX
    &&& -R_NUM_MAX <= r.b <= R_NUM_MAX
    &&& 1 <= r.d <= R_DEN_MAX
}

/// A well-formed representation: positive denominator.
pub open spec fn sv_wf(s: ScalarV) -> bool {
    s.d >= 1
}

/// All three fields within `m`, denominator positive.
pub open spec fn sv_in(s: ScalarV, m: int) -> bool {
    &&& -m <= s.a <= m
    &&& -m <= s.b <= m
    &&& 1 <= s.d <= m
}

/// `x` fits in an `i64`.
pub open spec fn fits(x: int) -> bool {
    i64::MIN <= x <= i64::MAX
}

/// All three fields fit in an `i64`, symmetrically, so that negation stays
/// representable.
pub open spec fn sv_fits(s: ScalarV) -> bool {
    &&& -i64::MAX <= s.a <= i64::MAX
    &&& -i64::MAX <= s.b <= i64::MAX
    &&& -i64::MAX <= s.d <= i64::MAX
}

/// `x` and `y` denote the same real number:
/// `(x.a + x.b*sqrt(5)) / x.d == (y.a + y.b*sqrt(5)) / y.d`, cross-multiplied
/// (sound because `1` and `sqrt(5)` are independent over the rationals).
pub open spec fn sv_eq(x: ScalarV, y: ScalarV) -> bool {
    &&& x.a * y.d == y.a * x.d
    &&& x.b * y.d == y.b * x.d
}

/// Representation of `-x`.
pub open spec fn sv_neg(x: ScalarV) -> ScalarV {
    ScalarV { a: -x.a, b: -x.b, d: x.d }
}

/// Representation of `x + y`: numerators add directly over a shared
/// denominator, otherwise cross-multiplied.
pub open spec fn sv_add(x: ScalarV, y: ScalarV) -> ScalarV {
    if x.d == y.d {
        ScalarV { a: x.a + y.a, b: x.b + y.b, d: x.d }
    } else {
        ScalarV { a: x.a * y.d + y.a * x.d, b: x.b * y.d + y.b * x.d, d: x.d * y.d }
    }
}

/// Representation of `x * y`, using `sqrt(5) * sqrt(5) == 5`.
pub open spec fn sv_mul(x: ScalarV, y: ScalarV) -> ScalarV {
    ScalarV {
        a: x.a * y.a + 5 * x.b * y.b,
        b: x.a * y.b + x.b * y.a,
        d: x.d * y.d,
    }
}

/// Representation of the internal division point `(n*p + m*q) / (m + n)`,
/// before the sign of the denominator is fixed.
pub open spec fn sv_div_raw(p: ScalarV, q: ScalarV, m: int, n: int) -> ScalarV {
    if p.d == q.d {
        ScalarV { a: n * p.a + m * q.a, b: n * p.b + m * q.b, d: (m + n) * p.d }
    } else {
        ScalarV {
            a: n * p.a * q.d + m * q.a * p.d,
            b: n * p.b * q.d + m * q.b * p.d,
            d: (m + n) * p.d * q.d,
        }
    }
}

/// Flip all signs when the denominator came out negative.
pub open spec fn sv_norm(x: ScalarV) -> ScalarV {
    if x.d < 0 {
        ScalarV { a: -x.a, b: -x.b, d: -x.d }
    } else {
        x
    }
}

/// Representation of `(n*p + m*q) / (m + n)` with a positive denominator.
pub open spec fn sv_div(p: ScalarV, q: ScalarV, m: int, n: int) -> ScalarV {
    sv_norm(sv_div_raw(p, q, m, n))
}

/// `|x * y| <= mx * my` whenever `|x| <= mx` and `|y| <= my`.
pub proof fn lemma_mul_bound(x: int, y: int, mx: int, my: int) by (nonlinear_arith)
    requires
        -mx <= x <= mx,
        -my <= y <= my,
        0 <= mx,
        0 <= my,
    ensures
        -(mx * my) <= x * y <= mx * my,
{
}

/// Two cross-multiplied equations over a common pair of denominators add.
pub proof fn lemma_sum_eq(u: int, v: int, dd: int, p: int, q: int, e: int) by (nonlinear_arith)
    requires
        u * dd == p * e,
        v * dd == q * e,
    ensures
        (u + v) * dd == (p + q) * e,
{
}

/// A cross-multiplied equation survives multiplying one factor by `c`.
pub proof fn lemma_scale_eq(u: int, dd: int, p: int, e: int, c: int) by (nonlinear_arith)
    requires
        u * dd == p * e,
    ensures
        u * (dd * c) == p * (e * c),
{
}

/// A cross-multiplied equation survives scaling both numerators by `c`.
pub proof fn lemma_mulc_eq(u: int, dd: int, p: int, e: int, c: int) by (nonlinear_arith)
    requires
        u * dd == p * e,
    ensures
        (c * u) * dd == (c * p) * e,
{
}

impl Scalar {
    /// The integer `k`.
    pub fn from_int(k: i64) -> (r: Scalar)
        ensures
            r@ == (ScalarV { a: k as int, b: 0int, d: 1int }),
    {
        Scalar { a: k, b: 0, d: 1 }
    }

    /// The golden ratio `(1 + sqrt(5)) / 2`.
    pub fn golden() -> (r: Scalar)
        ensures
            r@ == (ScalarV { a: 1int, b: 1int, d: 2int }),
    {
        Scalar { a: 1, b: 1, d: 2 }
    }

    /// `-self`.
    pub fn neg(&self) -> (r: Scalar)
        requires
            sv_fits(self@),
        ensures
            r@ == sv_neg(self@),
    {
        Scalar { a: -self.a, b: -self.b, d: self.d }
    }

    /// `self + other`.
    pub fn add_to(&self, other: &Scalar) -> (r: Scalar)
        requires
            sv_in(self@, SC_LIM as int),
            sv_in(other@, SC_LIM as int),
            sv_fits(sv_add(self@, other@)),
        ensures
            r@ == sv_add(self@, other@),
            sv_wf(r@),
    {
        if self.d == other.d {
            Scalar { a: self.a + other.a, b: self.b + other.b, d: self.d }
        } else {
            proof {
                let l: int = SC_LIM as int;
                lemma_mul_bound(self@.a, other@.d, l, l);
                lemma_mul_bound(other@.a, self@.d, l, l);
                lemma_mul_bound(self@.b, other@.d, l, l);
                lemma_mul_bound(other@.b, self@.d, l, l);
                lemma_mul_bound(self@.d, other@.d, l, l);
                assert(self@.d * other@.d >= 1) by (nonlinear_arith)
                    requires
                        self@.d >= 1,
                        other@.d >= 1;
            }
            let aa: i128 = self.a as i128 * other.d as i128 + other.a as i128 * self.d as i128;
            let bb: i128 = self.b as i128 * other.d as i128 + other.b as i128 * self.d as i128;
            let dd: i128 = self.d as i128 * other.d as i128;
            Scalar { a: aa as i64, b: bb as i64, d: dd as i64 }
        }
    }

    /// `self * other`.
    pub fn mul_by(&self, other: &Scalar) -> (r: Scalar)
        requires
            sv_in(self@, SC_LIM as int),
            sv_in(other@, SC_LIM as int),
            sv_fits(sv_mul(self@, other@)),
        ensures
            r@ == sv_mul(self@, other@),
            sv_wf(r@),
    {
        proof {
            let l: int = SC_LIM as int;
            lemma_mul_bound(self@.a, other@.a, l, l);
            lemma_mul_bound(self@.b, other@.b, l, l);
            lemma_mul_bound(self@.a, other@.b, l, l);
            lemma_mul_bound(self@.b, other@.a, l, l);
            lemma_mul_bound(self@.d, other@.d, l, l);
            assert(self@.d * other@.d >= 1) by (nonlinear_arith)
                requires
                    self@.d >= 1,
                    other@.d >= 1;
            assert(5 * self@.b * other@.b == 5 * (self@.b * other@.b)) by (nonlinear_arith);
        }
        let aa: i128 = self.a as i128 * other.a as i128 + 5 * (self.b as i128 * other.b as i128);
        let bb: i128 = self.a as i128 * other.b as i128 + self.b as i128 * other.a as i128;
        let dd: i128 = self.d as i128 * other.d as i128;
        Scalar { a: aa as i64, b: bb as i64, d: dd as i64 }
    }

    /// The point dividing the segment from `self` to `q` internally in the
    /// ratio `m : n`, that is `(n*self + m*q) / (m + n)`.
    pub fn div_with(&self, q: &Scalar, m: i32, n: i32) -> (r: Scalar)
        requires
            m + n != 0,
            sv_in(self@, SC_LIM as int),
            sv_in(q@, SC_LIM as int),
            sv_fits(sv_div_raw(self@, q@, m as int, n as int)),
        ensures
            r@ == sv_div(self@, q@, m as int, n as int),
            sv_wf(r@),
    {
        let m64: i64 = m as i64;
        let n64: i64 = n as i64;
        let w: i64 = m64 + n64;
        proof {
            let l: int = SC_LIM as int;
            let wl: int = 0x1_0000_0000int;
            lemma_mul_bound(n as int, self@.a, wl, l);
            lemma_mul_bound(n as int, self@.b, wl, l);
            lemma_mul_bound(m as int, q@.a, wl, l);
            lemma_mul_bound(m as int, q@.b, wl, l);
            lemma_mul_bound(w as int, self@.d, wl, l);
            lemma_mul_bound(n as int * self@.a, q@.d, wl * l, l);
            lemma_mul_bound(n as int * self@.b, q@.d, wl * l, l);
            lemma_mul_bound(m as int * q@.a, self@.d, wl * l, l);
            lemma_mul_bound(m as int * q@.b, self@.d, wl * l, l);
            lemma_mul_bound(w as int * self@.d, q@.d, wl * l, l);
            assert(w as int * self@.d * q@.d != 0 && w as int * self@.d != 0) by (nonlinear_arith)
                requires
                    w as int != 0,
                    self@.d >= 1,
                    q@.d >= 1;
        }
        let aa: i128;
        let bb: i128;
        let dd: i128;
        if self.d == q.d {
            aa = n64 as i128 * self.a as i128 + m64 as i128 * q.a as i128;
            bb = n64 as i128 * self.b as i128 + m64 as i128 * q.b as i128;
            dd = w as i128 * self.d as i128;
        } else {
            aa = n64 as i128 * self.a as i128 * q.d as i128
                + m64 as i128 * q.a as i128 * self.d as i128;
            bb = n64 as i128 * self.b as i128 * q.d as i128
                + m64 as i128 * q.b as i128 * self.d as i128;
            dd = w as i128 * self.d as i128 * q.d as i128;
        }
        if dd < 0 {
            Scalar { a: (-aa) as i64, b: (-bb) as i64, d: (-dd) as i64 }
        } else {
            Scalar { a: aa as i64, b: bb as i64, d: dd as i64 }
        }
    }
}

} // verus!
