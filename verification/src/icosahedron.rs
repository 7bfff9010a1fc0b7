//! The icosahedron: 12 vertices at `(0, +-r, +-r*phi)` and cyclic coordinate
//! permutations, 20 triangular faces, and the per-vertex table of the 5
//! neighbors in rotational order that the derived solids walk.

use vstd::prelude::*;

use crate::point::Point3;
use crate::point::PointV;
use crate::point::pv_in;
use crate::polyhedron::Polyhedron;
use crate::polyhedron::group1;
use crate::scalar::R_NUM_MAX;
use crate::scalar::SC_LIM;
use crate::scalar::Scalar;
use crate::scalar::ScalarV;
use crate::scalar::radius_ok;
use crate::scalar::sv_add;
use crate::scalar::sv_eq;
use crate::scalar::sv_mul;
use crate::scalar::sv_neg;

verus! {

/// Coordinate `r` scaled to the shared denominator `2*r.d`: zero.
pub open spec fn co_zero(r: ScalarV) -> ScalarV {
    ScalarV { a: 0, b: 0, d: 2 * r.d }
}

/// Coordinate `r` itself, over the shared denominator `2*r.d`.
pub open spec fn co_unit(r: ScalarV) -> ScalarV {
    ScalarV { a: 2 * r.a, b: 2 * r.b, d: 2 * r.d }
}

/// Coordinate `r * phi` with `phi == (1 + sqrt(5)) / 2`, over `2*r.d`.
pub open spec fn co_golden(r: ScalarV) -> ScalarV {
    ScalarV { a: r.a + 5 * r.b, b: r.a + r.b, d: 2 * r.d }
}

/// Vertex `i` of the icosahedron of radius `r`, in the canonical order.
pub open spec fn ico_vtx(r: ScalarV, i: int) -> PointV {
    let o = co_zero(r);
    let u = co_unit(r);
    let g = co_golden(r);
    if i == 0 {
        PointV { x: o, y: sv_neg(u), z: sv_neg(g) }
    } else if i == 1 {
        PointV { x: o, y: u, z: sv_neg(g) }
    } else if i == 2 {
        PointV { x: o, y: u, z: g }
    } else if i == 3 {
        PointV { x: o, y: sv_neg(u), z: g }
    } else if i == 4 {
        PointV { x: sv_neg(g), y: o, z: sv_neg(u) }
    } else if i == 5 {
        PointV { x: sv_neg(g), y: o, z: u }
    } else if i == 6 {
        PointV { x: g, y: o, z: u }
    } else if i == 7 {
        PointV { x: g, y: o, z: sv_neg(u) }
    } else if i == 8 {
        PointV { x: sv_neg(u), y: sv_neg(g), z: o }
    } else if i == 9 {
        PointV { x: u, y: sv_neg(g), z: o }
    } else if i == 10 {
        PointV { x: u, y: g, z: o }
    } else {
        PointV { x: sv_neg(u), y: g, z: o }
    }
}

/// Face `i` of the icosahedron, wound outward.
pub open spec fn ico_tri(i: int) -> (u16, u16, u16) {
    if i == 0 {
        (0u16, 8u16, 4u16)
    } else if i == 1 {
        (0u16, 9u16, 8u16)
    } else if i == 2 {
        (0u16, 7u16, 9u16)
    } else if i == 3 {
        (0u16, 1u16, 7u16)
    } else if i == 4 {
        (4u16, 1u16, 0u16)
    } else if i == 5 {
        (4u16, 11u16, 1u16)
    } else if i == 6 {
        (4u16, 5u16, 11u16)
    } else if i == 7 {
        (8u16, 5u16, 4u16)
    } else if i == 8 {
        (8u16, 3u16, 5u16)
    } else if i == 9 {
        (8u16, 9u16, 3u16)
    } else if i == 10 {
        (6u16, 3u16, 9u16)
    } else if i == 11 {
        (6u16, 9u16, 7u16)
    } else if i == 12 {
        (6u16, 7u16, 10u16)
    } else if i == 13 {
        (10u16, 7u16, 1u16)
    } else if i == 14 {
        (10u16, 1u16, 11u16)
    } else if i == 15 {
        (10u16, 11u16, 2u16)
    } else if i == 16 {
        (2u16, 11u16, 5u16)
    } else if i == 17 {
        (2u16, 5u16, 3u16)
    } else if i == 18 {
        (2u16, 3u16, 6u16)
    } else {
        (2u16, 6u16, 10u16)
    }
}

/// The endpoint vertex of duplex edge record `e`.
pub open spec fn ico_edge_v(e: int) -> u16 {
    if e == 0 {
        0u16
    } else if e == 1 {
        4u16
    } else if e == 2 {
        8u16
    } else if e == 3 {
        9u16
    } else if e == 4 {
        7u16
    } else if e == 5 {
        1u16
    } else if e == 6 {
        11u16
    } else if e == 7 {
        5u16
    } else if e == 8 {
        3u16
    } else if e == 9 {
        6u16
    } else if e == 10 {
        10u16
    } else {
        2u16
    }
}

/// The 5 neighbors of the endpoint of duplex edge record `e`, in the cyclic
/// order fixed by the face winding.
pub open spec fn ico_edge_ns(e: int) -> (u16, u16, u16, u16, u16) {
    if e == 0 {
        (1u16, 7u16, 9u16, 8u16, 4u16)
    } else if e == 1 {
        (5u16, 11u16, 1u16, 0u16, 8u16)
    } else if e == 2 {
        (9u16, 3u16, 5u16, 4u16, 0u16)
    } else if e == 3 {
        (8u16, 0u16, 7u16, 6u16, 3u16)
    } else if e == 4 {
        (6u16, 9u16, 0u16, 1u16, 10u16)
    } else if e == 5 {
        (0u16, 4u16, 11u16, 10u16, 7u16)
    } else if e == 6 {
        (10u16, 1u16, 4u16, 5u16, 2u16)
    } else if e == 7 {
        (4u16, 8u16, 3u16, 2u16, 11u16)
    } else if e == 8 {
        (2u16, 5u16, 8u16, 9u16, 6u16)
    } else if e == 9 {
        (7u16, 10u16, 2u16, 3u16, 9u16)
    } else if e == 10 {
        (11u16, 2u16, 6u16, 7u16, 1u16)
    } else {
        (3u16, 6u16, 10u16, 11u16, 5u16)
    }
}

/// Neighbor `j` of duplex edge record `e`.
pub open spec fn ico_edge_n(e: int, j: int) -> u16 {
    let ns = ico_edge_ns(e);
    if j == 0 {
        ns.0
    } else if j == 1 {
        ns.1
    } else if j == 2 {
        ns.2
    } else if j == 3 {
        ns.3
    } else {
        ns.4
    }
}

/// The icosahedron: its polyhedron and its duplex edge table.
#[derive(Debug, Clone, PartialEq)]
pub struct Icosahedron {
    /// 20 face groups of one triangle each over 12 vertices
    pub ph: Polyhedron,
    /// per-vertex neighbor table (duplex: each edge appears from both ends)
    pub edges: Vec<(u16, [u16; 5])>,
}

/// `s` is exactly the icosahedron of radius `r`.
pub open spec fn is_icosahedron(s: Icosahedron, r: ScalarV) -> bool {
    &&& s.ph.vtx@.len() == 12
    &&& (forall|i: int| 0 <= i < 12 ==> (#[trigger] s.ph.vtx@[i])@ == ico_vtx(r, i))
    &&& s.ph.tri@.len() == 20
    &&& (forall|i: int| 0 <= i < 20 ==> (#[trigger] s.ph.tri@[i])@ == seq![ico_tri(i)])
    &&& s.ph.center == false
    &&& s.edges@.len() == 12
    &&& (forall|e: int| 0 <= e < 12 ==> (#[trigger] s.edges@[e]).0 == ico_edge_v(e))
    &&& (forall|e: int, j: int|
        0 <= e < 12 && 0 <= j < 5 ==> (#[trigger] s.edges@[e].1@[j]) == ico_edge_n(e, j))
}

/// Every coordinate of every icosahedron vertex has denominator `2*r.d` and
/// numerators within `6*R_NUM_MAX`, so it stays well inside [`SC_LIM`].
pub proof fn lemma_ico_vtx_in(r: ScalarV, i: int)
    requires
        radius_ok(r),
        0 <= i < 12,
    ensures
        pv_in(ico_vtx(r, i), SC_LIM as int),
        ico_vtx(r, i).x.d == 2 * r.d,
        ico_vtx(r, i).y.d == 2 * r.d,
        ico_vtx(r, i).z.d == 2 * r.d,
        -6 * R_NUM_MAX <= ico_vtx(r, i).x.a <= 6 * R_NUM_MAX,
        -6 * R_NUM_MAX <= ico_vtx(r, i).x.b <= 6 * R_NUM_MAX,
        -6 * R_NUM_MAX <= ico_vtx(r, i).y.a <= 6 * R_NUM_MAX,
        -6 * R_NUM_MAX <= ico_vtx(r, i).y.b <= 6 * R_NUM_MAX,
        -6 * R_NUM_MAX <= ico_vtx(r, i).z.a <= 6 * R_NUM_MAX,
        -6 * R_NUM_MAX <= ico_vtx(r, i).z.b <= 6 * R_NUM_MAX,
{
}

/// The squared Euclidean norm `x*x + y*y + z*z` of a point.
pub open spec fn pv_norm2(p: PointV) -> ScalarV {
    sv_add(sv_add(sv_mul(p.x, p.x), sv_mul(p.y, p.y)), sv_mul(p.z, p.z))
}

/// Squaring forgets the sign.
proof fn lemma_neg_sq(x: ScalarV) by (nonlinear_arith)
    ensures
        sv_mul(sv_neg(x), sv_neg(x)) == sv_mul(x, x),
{
}

/// Every icosahedron vertex lies on the sphere of radius `r * sqrt(1 + phi*phi)`
/// around the origin: its squared norm is `r*r * (5 + sqrt(5)) / 2`, which is
/// `r*r * (1 + phi*phi)`.
pub proof fn lemma_icosahedron_on_sphere(r: ScalarV, i: int)
    requires
        0 <= i < 12,
    ensures
        sv_eq(pv_norm2(ico_vtx(r, i)), sv_mul(sv_mul(r, r), (ScalarV { a: 5, b: 1, d: 2 }))),
{
    let o = co_zero(r);
    let u = co_unit(r);
    let g = co_golden(r);
    lemma_neg_sq(u);
    lemma_neg_sq(g);
    let o2 = sv_mul(o, o);
    let u2 = sv_mul(u, u);
    let g2 = sv_mul(g, g);
    assert(o2.d == u2.d && u2.d == g2.d);
    assert(sv_eq(sv_add(sv_add(o2, u2), g2), sv_mul(sv_mul(r, r), (ScalarV { a: 5, b: 1, d: 2 }))))
        by (nonlinear_arith)
        requires
            o2 == sv_mul(co_zero(r), co_zero(r)),
            u2 == sv_mul(co_unit(r), co_unit(r)),
            g2 == sv_mul(co_golden(r), co_golden(r));
    assert(sv_add(sv_add(g2, o2), u2) == sv_add(sv_add(o2, u2), g2));
    assert(sv_add(sv_add(u2, g2), o2) == sv_add(sv_add(o2, u2), g2));
}

/// Every coordinate of every icosahedron vertex carries the denominator
/// `2 * r.d`, whatever the radius representation.
pub proof fn lemma_ico_vtx_den(r: ScalarV, i: int)
    requires
        0 <= i < 12,
    ensures
        crate::point::pv_den(ico_vtx(r, i), 2 * r.d),
{
}

/// `y` denotes `k` times the number `x` denotes.
pub open spec fn sv_scaled(k: ScalarV, y: ScalarV, x: ScalarV) -> bool {
    sv_eq(y, sv_mul(k, x))
}

/// Every coordinate of `yp` is `k` times the matching coordinate of `xp`.
pub open spec fn pv_scaled(k: ScalarV, yp: PointV, xp: PointV) -> bool {
    sv_scaled(k, yp.x, xp.x) && sv_scaled(k, yp.y, xp.y) && sv_scaled(k, yp.z, xp.z)
}

/// Icosahedron coordinates are linear in the radius: building with radius
/// `k * r` scales every coordinate of every vertex by `k`, while the face
/// and edge tables do not depend on the radius at all.
pub proof fn lemma_icosahedron_scales(k: ScalarV, r: ScalarV, i: int)
    requires
        0 <= i < 12,
    ensures
        pv_scaled(k, ico_vtx(sv_mul(k, r), i), ico_vtx(r, i)),
{
    let rs = sv_mul(k, r);
    assert(sv_scaled(k, co_zero(rs), co_zero(r))) by (nonlinear_arith)
        requires
            rs == sv_mul(k, r);
    assert(sv_scaled(k, co_unit(rs), co_unit(r))) by (nonlinear_arith)
        requires
            rs == sv_mul(k, r);
    assert(sv_scaled(k, co_golden(rs), co_golden(r))) by (nonlinear_arith)
        requires
            rs == sv_mul(k, r);
    assert(sv_scaled(k, sv_neg(co_unit(rs)), sv_neg(co_unit(r)))) by (nonlinear_arith)
        requires
            rs == sv_mul(k, r);
    assert(sv_scaled(k, sv_neg(co_golden(rs)), sv_neg(co_golden(r)))) by (nonlinear_arith)
        requires
            rs == sv_mul(k, r);
}

/// Building the icosahedron twice with the same radius gives identical
/// output: the vertex, face and edge tables coincide entry for entry.
pub proof fn lemma_icosahedron_deterministic(s1: Icosahedron, s2: Icosahedron, r: ScalarV)
    requires
        is_icosahedron(s1, r),
        is_icosahedron(s2, r),
    ensures
        s1.ph.vtx@ == s2.ph.vtx@,
        s1.ph.tri@.len() == s2.ph.tri@.len(),
        forall|i: int|
            0 <= i < s1.ph.tri@.len() ==> (#[trigger] s1.ph.tri@[i])@ == s2.ph.tri@[i]@,
        s1.ph.center == s2.ph.center,
        s1.edges@.len() == s2.edges@.len(),
        forall|e: int|
            0 <= e < s1.edges@.len() ==> (#[trigger] s1.edges@[e]).0 == s2.edges@[e].0
                && s1.edges@[e].1@ == s2.edges@[e].1@,
{
    assert forall|i: int| 0 <= i < 12 implies (#[trigger] s1.ph.vtx@[i]) == s2.ph.vtx@[i] by {
        assert(s1.ph.vtx@[i]@ == ico_vtx(r, i));
        assert(s2.ph.vtx@[i]@ == ico_vtx(r, i));
    }
    assert(s1.ph.vtx@ =~= s2.ph.vtx@);
    assert forall|e: int| 0 <= e < s1.edges@.len() implies (#[trigger] s1.edges@[e]).0
        == s2.edges@[e].0 && s1.edges@[e].1@ == s2.edges@[e].1@ by {
        assert(s1.edges@[e].1@ =~= s2.edges@[e].1@);
    }
}

/// Every entry of the duplex edge table names a vertex.
pub proof fn lemma_ico_edge_in_range(e: int)
    requires
        0 <= e < 12,
    ensures
        ico_edge_v(e) < 12,
        forall|j: int| 0 <= j < 5 ==> (#[trigger] ico_edge_n(e, j)) < 12,
{
}

impl Icosahedron {
    /// Build the icosahedron of radius `r`.
    pub fn new(r: Scalar) -> (res: Icosahedron)
        requires
            radius_ok(r@),
        ensures
            is_icosahedron(res, r@),
            res.ph.wf(),
    {
        let o = Scalar { a: 0, b: 0, d: 2 * r.d };
        let u = Scalar { a: 2 * r.a, b: 2 * r.b, d: 2 * r.d };
        let g = Scalar { a: r.a + 5 * r.b, b: r.a + r.b, d: 2 * r.d };
        let un = u.neg();
        let gn = g.neg();
        let mut vtx: Vec<Point3> = Vec::new();
        vtx.push(Point3 { x: o, y: un, z: gn });
        vtx.push(Point3 { x: o, y: u, z: gn });
        vtx.push(Point3 { x: o, y: u, z: g });
        vtx.push(Point3 { x: o, y: un, z: g });
        vtx.push(Point3 { x: gn, y: o, z: un });
        vtx.push(Point3 { x: gn, y: o, z: u });
        vtx.push(Point3 { x: g, y: o, z: u });
        vtx.push(Point3 { x: g, y: o, z: un });
        vtx.push(Point3 { x: un, y: gn, z: o });
        vtx.push(Point3 { x: u, y: gn, z: o });
        vtx.push(Point3 { x: u, y: g, z: o });
        vtx.push(Point3 { x: un, y: g, z: o });
        let mut tri: Vec<Vec<(u16, u16, u16)>> = Vec::new();
        tri.push(group1((0, 8, 4)));
        tri.push(group1((0, 9, 8)));
        tri.push(group1((0, 7, 9)));
        tri.push(group1((0, 1, 7)));
        tri.push(group1((4, 1, 0)));
        tri.push(group1((4, 11, 1)));
        tri.push(group1((4, 5, 11)));
        tri.push(group1((8, 5, 4)));
        tri.push(group1((8, 3, 5)));
        tri.push(group1((8, 9, 3)));
        tri.push(group1((6, 3, 9)));
        tri.push(group1((6, 9, 7)));
        tri.push(group1((6, 7, 10)));
        tri.push(group1((10, 7, 1)));
        tri.push(group1((10, 1, 11)));
        tri.push(group1((10, 11, 2)));
        tri.push(group1((2, 11, 5)));
        tri.push(group1((2, 5, 3)));
        tri.push(group1((2, 3, 6)));
        tri.push(group1((2, 6, 10)));
        let mut edges: Vec<(u16, [u16; 5])> = Vec::new();
        edges.push((0, [1, 7, 9, 8, 4]));
        edges.push((4, [5, 11, 1, 0, 8]));
        edges.push((8, [9, 3, 5, 4, 0]));
        edges.push((9, [8, 0, 7, 6, 3]));
        edges.push((7, [6, 9, 0, 1, 10]));
        edges.push((1, [0, 4, 11, 10, 7]));
        edges.push((11, [10, 1, 4, 5, 2]));
        edges.push((5, [4, 8, 3, 2, 11]));
        edges.push((3, [2, 5, 8, 9, 6]));
        edges.push((6, [7, 10, 2, 3, 9]));
        edges.push((10, [11, 2, 6, 7, 1]));
        edges.push((2, [3, 6, 10, 11, 5]));
        let res = Icosahedron { ph: Polyhedron { vtx, tri, center: false }, edges };
        proof {
            assert forall|i: int| 0 <= i < 12 implies (#[trigger] res.ph.vtx@[i])@ == ico_vtx(
                r@,
                i,
            ) by {
                assert(res.ph.vtx@[0]@ == ico_vtx(r@, 0));
                assert(res.ph.vtx@[1]@ == ico_vtx(r@, 1));
                assert(res.ph.vtx@[2]@ == ico_vtx(r@, 2));
                assert(res.ph.vtx@[3]@ == ico_vtx(r@, 3));
                assert(res.ph.vtx@[4]@ == ico_vtx(r@, 4));
                assert(res.ph.vtx@[5]@ == ico_vtx(r@, 5));
                assert(res.ph.vtx@[6]@ == ico_vtx(r@, 6));
                assert(res.ph.vtx@[7]@ == ico_vtx(r@, 7));
                assert(res.ph.vtx@[8]@ == ico_vtx(r@, 8));
                assert(res.ph.vtx@[9]@ == ico_vtx(r@, 9));
                assert(res.ph.vtx@[10]@ == ico_vtx(r@, 10));
                assert(res.ph.vtx@[11]@ == ico_vtx(r@, 11));
            }
            assert forall|i: int| 0 <= i < 20 implies (#[trigger] res.ph.tri@[i])@ == seq![
                ico_tri(i),
            ] by {
                assert(res.ph.tri@[i]@ =~= seq![ico_tri(i)]);
            }
            assert forall|e: int, j: int| 0 <= e < 12 && 0 <= j < 5 implies (#[trigger] res
                .edges@[e].1@[j]) == ico_edge_n(e, j) by {
                assert(res.edges@[0].1@ =~= seq![1u16, 7u16, 9u16, 8u16, 4u16]);
                assert(res.edges@[1].1@ =~= seq![5u16, 11u16, 1u16, 0u16, 8u16]);
                assert(res.edges@[2].1@ =~= seq![9u16, 3u16, 5u16, 4u16, 0u16]);
                assert(res.edges@[3].1@ =~= seq![8u16, 0u16, 7u16, 6u16, 3u16]);
                assert(res.edges@[4].1@ =~= seq![6u16, 9u16, 0u16, 1u16, 10u16]);
                assert(res.edges@[5].1@ =~= seq![0u16, 4u16, 11u16, 10u16, 7u16]);
                assert(res.edges@[6].1@ =~= seq![10u16, 1u16, 4u16, 5u16, 2u16]);
                assert(res.edges@[7].1@ =~= seq![4u16, 8u16, 3u16, 2u16, 11u16]);
                assert(res.edges@[8].1@ =~= seq![2u16, 5u16, 8u16, 9u16, 6u16]);
                assert(res.edges@[9].1@ =~= seq![7u16, 10u16, 2u16, 3u16, 9u16]);
                assert(res.edges@[10].1@ =~= seq![11u16, 2u16, 6u16, 7u16, 1u16]);
                assert(res.edges@[11].1@ =~= seq![3u16, 6u16, 10u16, 11u16, 5u16]);
            }
        }
        res
    }
}

} // verus!
