//! The dodecahedron as the dual of the icosahedron: each vertex is the
//! centroid of one icosahedron face, each pentagon is three triangles fanned
//! from a corner; the center variant inserts one vertex per pentagon and
//! re-fans it into five triangles.

use vstd::prelude::*;
use vstd::pervasive::unreached;

use crate::icosahedron::Icosahedron;
use crate::icosahedron::ico_edge_n;
use crate::icosahedron::ico_edge_v;
use crate::icosahedron::ico_tri;
use crate::icosahedron::ico_vtx;
use crate::icosahedron::is_icosahedron;
use crate::icosahedron::lemma_ico_vtx_in;
use crate::point::Point3;
use crate::point::PointV;
use crate::point::centroid_of_indices;
use crate::point::divide_int;
use crate::point::lemma_avg3_ok;
use crate::point::lemma_avg5_ok;
use crate::point::lemma_div_fits_mixed;
use crate::point::pv_avg;
use crate::point::pv_box;
use crate::point::pv_div;
use crate::point::pviews;
use crate::point::sel;
use crate::polyhedron::Polyhedron;
use crate::polyhedron::fan_v;
use crate::polyhedron::fan_around;
use crate::polyhedron::group3;
use crate::polyhedron::lemma_fan_ok;
use crate::polyhedron::tri_ok;
use crate::scalar::R_NUM_MAX;
use crate::scalar::Scalar;
use crate::scalar::ScalarV;
use crate::scalar::radius_ok;

verus! {

/// Dual vertex `i`: the centroid of icosahedron face `i`.
pub open spec fn dod_vtx(r: ScalarV, i: int) -> PointV {
    let t = ico_tri(i);
    pv_avg(seq![ico_vtx(r, t.0 as int), ico_vtx(r, t.1 as int), ico_vtx(r, t.2 as int)])
}

/// Pentagon face group `i`: three triangles fanned from a fixed corner, in
/// the order fixed by the dual-face correspondence table.
pub open spec fn dod_tri_group(i: int) -> Seq<(u16, u16, u16)> {
    if i == 0 {
        seq![(0u16, 4u16, 3u16), (0u16, 3u16, 2u16), (0u16, 2u16, 1u16)]
    } else if i == 1 {
        seq![(4u16, 0u16, 7u16), (4u16, 7u16, 6u16), (4u16, 6u16, 5u16)]
    } else if i == 2 {
        seq![(0u16, 1u16, 9u16), (0u16, 9u16, 8u16), (0u16, 8u16, 7u16)]
    } else if i == 3 {
        seq![(1u16, 2u16, 11u16), (1u16, 11u16, 10u16), (1u16, 10u16, 9u16)]
    } else if i == 4 {
        seq![(2u16, 3u16, 13u16), (2u16, 13u16, 12u16), (2u16, 12u16, 11u16)]
    } else if i == 5 {
        seq![(3u16, 4u16, 5u16), (3u16, 5u16, 14u16), (3u16, 14u16, 13u16)]
    } else if i == 6 {
        seq![(15u16, 14u16, 5u16), (15u16, 5u16, 6u16), (15u16, 6u16, 16u16)]
    } else if i == 7 {
        seq![(16u16, 6u16, 7u16), (16u16, 7u16, 8u16), (16u16, 8u16, 17u16)]
    } else if i == 8 {
        seq![(17u16, 8u16, 9u16), (17u16, 9u16, 10u16), (17u16, 10u16, 18u16)]
    } else if i == 9 {
        seq![(18u16, 10u16, 11u16), (18u16, 11u16, 12u16), (18u16, 12u16, 19u16)]
    } else if i == 10 {
        seq![(19u16, 12u16, 13u16), (19u16, 13u16, 14u16), (19u16, 14u16, 15u16)]
    } else {
        seq![(19u16, 15u16, 16u16), (19u16, 16u16, 17u16), (19u16, 17u16, 18u16)]
    }
}

/// The dodecahedron of radius `r`, exactly.
pub open spec fn is_dodecahedron(s: Dodecahedron, r: ScalarV) -> bool {
    &&& s.ph.vtx@.len() == 20
    &&& (forall|i: int| 0 <= i < 20 ==> (#[trigger] s.ph.vtx@[i])@ == dod_vtx(r, i))
    &&& s.ph.tri@.len() == 12
    &&& (forall|i: int| 0 <= i < 12 ==> (#[trigger] s.ph.tri@[i])@ == dod_tri_group(i))
    &&& s.ph.center == false
    &&& s.edges@.len() == 0
}

/// Dodecahedron coordinates are linear in the radius: building with radius
/// `k * r` scales every dual vertex by `k`, while the pentagon tables do not
/// depend on the radius at all.
pub proof fn lemma_dodecahedron_scales(k: ScalarV, r: ScalarV, i: int)
    requires
        0 <= i < 20,
    ensures
        crate::icosahedron::pv_scaled(k, dod_vtx(crate::scalar::sv_mul(k, r), i), dod_vtx(r, i)),
{
    let rs = crate::scalar::sv_mul(k, r);
    let t = ico_tri(i);
    assert(t.0 < 12 && t.1 < 12 && t.2 < 12);
    crate::icosahedron::lemma_icosahedron_scales(k, r, t.0 as int);
    crate::icosahedron::lemma_icosahedron_scales(k, r, t.1 as int);
    crate::icosahedron::lemma_icosahedron_scales(k, r, t.2 as int);
    crate::icosahedron::lemma_ico_vtx_den(r, t.0 as int);
    crate::icosahedron::lemma_ico_vtx_den(r, t.1 as int);
    crate::icosahedron::lemma_ico_vtx_den(r, t.2 as int);
    crate::icosahedron::lemma_ico_vtx_den(rs, t.0 as int);
    crate::icosahedron::lemma_ico_vtx_den(rs, t.1 as int);
    crate::icosahedron::lemma_ico_vtx_den(rs, t.2 as int);
    let s = seq![ico_vtx(r, t.0 as int), ico_vtx(r, t.1 as int), ico_vtx(r, t.2 as int)];
    let s2 = seq![ico_vtx(rs, t.0 as int), ico_vtx(rs, t.1 as int), ico_vtx(rs, t.2 as int)];
    crate::point::lemma_avg3_scales(k, s2, s, 2 * r.d, 2 * rs.d);
}

/// Building the dodecahedron twice with the same radius gives identical
/// output: the vertex and face tables coincide entry for entry.
pub proof fn lemma_dodecahedron_deterministic(s1: Dodecahedron, s2: Dodecahedron, r: ScalarV)
    requires
        is_dodecahedron(s1, r),
        is_dodecahedron(s2, r),
    ensures
        s1.ph.vtx@ == s2.ph.vtx@,
        s1.ph.tri@.len() == s2.ph.tri@.len(),
        forall|i: int|
            0 <= i < s1.ph.tri@.len() ==> (#[trigger] s1.ph.tri@[i])@ == s2.ph.tri@[i]@,
        s1.ph.center == s2.ph.center,
        s1.edges@.len() == s2.edges@.len(),
{
    assert forall|i: int| 0 <= i < 20 implies (#[trigger] s1.ph.vtx@[i]) == s2.ph.vtx@[i] by {
        assert(s1.ph.vtx@[i]@ == dod_vtx(r, i));
        assert(s2.ph.vtx@[i]@ == dod_vtx(r, i));
    }
    assert(s1.ph.vtx@ =~= s2.ph.vtx@);
}

/// Building the centered dodecahedron twice with the same radius gives
/// identical output.
pub proof fn lemma_dodecahedron_center_deterministic(
    s1: DodecahedronCenter,
    s2: DodecahedronCenter,
    r: ScalarV,
)
    requires
        is_dodecahedron_center(s1, r),
        is_dodecahedron_center(s2, r),
    ensures
        s1.ph.vtx@ == s2.ph.vtx@,
        s1.ph.tri@.len() == s2.ph.tri@.len(),
        forall|i: int|
            0 <= i < s1.ph.tri@.len() ==> (#[trigger] s1.ph.tri@[i])@ == s2.ph.tri@[i]@,
        s1.ph.center == s2.ph.center,
        s1.edges@.len() == s2.edges@.len(),
{
    assert forall|i: int| 0 <= i < 32 implies (#[trigger] s1.ph.vtx@[i]) == s2.ph.vtx@[i] by {
        if i < 20 {
            assert(s1.ph.vtx@[i]@ == dod_vtx(r, i));
            assert(s2.ph.vtx@[i]@ == dod_vtx(r, i));
        } else {
            assert(s1.ph.vtx@[20 + (i - 20)]@ == dodc_center_vtx(r, i - 20));
            assert(s2.ph.vtx@[20 + (i - 20)]@ == dodc_center_vtx(r, i - 20));
        }
    }
    assert(s1.ph.vtx@ =~= s2.ph.vtx@);
}

/// The centroid of icosahedron face `i`, computed from the icosahedron's
/// tables; it is dual vertex `i` of the dodecahedron.
#[verifier::rlimit(50)]
pub fn face_centroid(r: &Scalar, icosa: &Icosahedron, i: usize) -> (p: Point3)
    requires
        radius_ok(r@),
        is_icosahedron(*icosa, r@),
        i < 20,
    ensures
        p@ == dod_vtx(r@, i as int),
        pv_box(p@, 18 * R_NUM_MAX as int, 6 * r@.d),
{
    let t = icosa.ph.tri[i][0];
    assert(t == ico_tri(i as int));
    let mut idx: Vec<u16> = Vec::new();
    idx.push(t.0);
    idx.push(t.1);
    idx.push(t.2);
    proof {
        assert(t.0 < 12 && t.1 < 12 && t.2 < 12);
        let s = sel(idx@, pviews(icosa.ph.vtx@));
        assert(s =~= seq![
            ico_vtx(r@, t.0 as int),
            ico_vtx(r@, t.1 as int),
            ico_vtx(r@, t.2 as int),
        ]);
        lemma_ico_vtx_in(r@, t.0 as int);
        lemma_ico_vtx_in(r@, t.1 as int);
        lemma_ico_vtx_in(r@, t.2 as int);
        assert(forall|k: int| 0 <= k < 3 ==> pv_box(
            #[trigger] s[k],
            6 * R_NUM_MAX as int,
            2 * r@.d,
        ));
        lemma_avg3_ok(s, 6 * R_NUM_MAX as int, 2 * r@.d);
    }
    let c = centroid_of_indices(&idx, &icosa.ph.vtx);
    match c {
        Ok(p) => p,
        Err(_) => unreached(),
    }
}

/// The dodecahedron: its polyhedron and its (empty) duplex edge table.
#[derive(Debug, Clone, PartialEq)]
pub struct Dodecahedron {
    /// 12 face groups of 3 triangles each over 20 vertices
    pub ph: Polyhedron,
    /// duplex edges; none are recorded for this solid
    pub edges: Vec<(u16, [u16; 3])>,
}

impl Dodecahedron {
    /// Build the dodecahedron of radius `r` as the dual of the icosahedron.
    #[verifier::rlimit(50)]
    pub fn new(r: Scalar) -> (res: Dodecahedron)
        requires
            radius_ok(r@),
        ensures
            is_dodecahedron(res, r@),
            res.ph.wf(),
    {
        let icosa = Icosahedron::new(r);
        let mut vtx: Vec<Point3> = Vec::new();
        let mut i: usize = 0;
        while i < 20
            invariant
                radius_ok(r@),
                is_icosahedron(icosa, r@),
                0 <= i <= 20,
                vtx@.len() == i,
                forall|j: int| 0 <= j < i ==> (#[trigger] vtx@[j])@ == dod_vtx(r@, j),
            decreases 20 - i,
        {
            let p = face_centroid(&r, &icosa, i);
            vtx.push(p);
            i = i + 1;
        }
        let mut tri: Vec<Vec<(u16, u16, u16)>> = Vec::new();
        tri.push(group3((0, 4, 3), (0, 3, 2), (0, 2, 1)));
        tri.push(group3((4, 0, 7), (4, 7, 6), (4, 6, 5)));
        tri.push(group3((0, 1, 9), (0, 9, 8), (0, 8, 7)));
        tri.push(group3((1, 2, 11), (1, 11, 10), (1, 10, 9)));
        tri.push(group3((2, 3, 13), (2, 13, 12), (2, 12, 11)));
        tri.push(group3((3, 4, 5), (3, 5, 14), (3, 14, 13)));
        tri.push(group3((15, 14, 5), (15, 5, 6), (15, 6, 16)));
        tri.push(group3((16, 6, 7), (16, 7, 8), (16, 8, 17)));
        tri.push(group3((17, 8, 9), (17, 9, 10), (17, 10, 18)));
        tri.push(group3((18, 10, 11), (18, 11, 12), (18, 12, 19)));
        tri.push(group3((19, 12, 13), (19, 13, 14), (19, 14, 15)));
        tri.push(group3((19, 15, 16), (19, 16, 17), (19, 17, 18)));
        let edges: Vec<(u16, [u16; 3])> = Vec::new();
        let res = Dodecahedron { ph: Polyhedron { vtx, tri, center: false }, edges };
        proof {
            assert forall|i2: int| 0 <= i2 < 12 implies (#[trigger] res.ph.tri@[i2])@
                == dod_tri_group(i2) by {
                assert(res.ph.tri@[i2]@ =~= dod_tri_group(i2));
            }
        }
        res
    }
}

/// The centroid of the 5 neighbors of duplex edge record `e`.
pub open spec fn dodc_c5(r: ScalarV, e: int) -> PointV {
    pv_avg(
        seq![
            ico_vtx(r, ico_edge_n(e, 0) as int),
            ico_vtx(r, ico_edge_n(e, 1) as int),
            ico_vtx(r, ico_edge_n(e, 2) as int),
            ico_vtx(r, ico_edge_n(e, 3) as int),
            ico_vtx(r, ico_edge_n(e, 4) as int),
        ],
    )
}

/// Inserted center vertex `e`: the icosahedron edge endpoint divided toward
/// the centroid of its neighbor set in the ratio `2 : 1`.
pub open spec fn dodc_center_vtx(r: ScalarV, e: int) -> PointV {
    pv_div(ico_vtx(r, ico_edge_v(e) as int), dodc_c5(r, e), 2, 1)
}

/// The centroid of the five neighbor vertices of duplex edge record `e`,
/// computed from the icosahedron's tables.
#[verifier::rlimit(100)]
pub fn neighbor_centroid(r: &Scalar, icosa: &Icosahedron, e: usize) -> (p: Point3)
    requires
        radius_ok(r@),
        is_icosahedron(*icosa, r@),
        e < 12,
    ensures
        p@ == dodc_c5(r@, e as int),
        pv_box(p@, 30 * R_NUM_MAX as int, 10 * r@.d),
{
    let ns = icosa.edges[e].1;
    let mut idx: Vec<u16> = Vec::new();
    idx.push(ns[0]);
    idx.push(ns[1]);
    idx.push(ns[2]);
    idx.push(ns[3]);
    idx.push(ns[4]);
    proof {
        crate::icosahedron::lemma_ico_edge_in_range(e as int);
        assert(idx@[0] == ico_edge_n(e as int, 0));
        assert(idx@[1] == ico_edge_n(e as int, 1));
        assert(idx@[2] == ico_edge_n(e as int, 2));
        assert(idx@[3] == ico_edge_n(e as int, 3));
        assert(idx@[4] == ico_edge_n(e as int, 4));
        assert(forall|j: int| 0 <= j < 5 ==> (#[trigger] idx@[j]) < 12);
        let s = sel(idx@, pviews(icosa.ph.vtx@));
        assert(s =~= seq![
            ico_vtx(r@, ico_edge_n(e as int, 0) as int),
            ico_vtx(r@, ico_edge_n(e as int, 1) as int),
            ico_vtx(r@, ico_edge_n(e as int, 2) as int),
            ico_vtx(r@, ico_edge_n(e as int, 3) as int),
            ico_vtx(r@, ico_edge_n(e as int, 4) as int),
        ]);
        lemma_ico_vtx_in(r@, ico_edge_n(e as int, 0) as int);
        lemma_ico_vtx_in(r@, ico_edge_n(e as int, 1) as int);
        lemma_ico_vtx_in(r@, ico_edge_n(e as int, 2) as int);
        lemma_ico_vtx_in(r@, ico_edge_n(e as int, 3) as int);
        lemma_ico_vtx_in(r@, ico_edge_n(e as int, 4) as int);
        assert(forall|k: int| 0 <= k < 5 ==> pv_box(
            #[trigger] s[k],
            6 * R_NUM_MAX as int,
            2 * r@.d,
        ));
        lemma_avg5_ok(s, 6 * R_NUM_MAX as int, 2 * r@.d);
    }
    let c = centroid_of_indices(&idx, &icosa.ph.vtx);
    match c {
        Ok(p) => p,
        Err(_) => unreached(),
    }
}

/// The inserted center vertex of pentagon `e`, computed from the
/// icosahedron's vertex table and duplex edge table.
#[verifier::rlimit(50)]
fn dodc_center_point(r: &Scalar, icosa: &Icosahedron, e: usize) -> (p: Point3)
    requires
        radius_ok(r@),
        is_icosahedron(*icosa, r@),
        e < 12,
    ensures
        p@ == dodc_center_vtx(r@, e as int),
{
    let c5p = neighbor_centroid(r, icosa, e);
    let v = icosa.edges[e].0;
    proof {
        crate::icosahedron::lemma_ico_edge_in_range(e as int);
        assert(v == ico_edge_v(e as int));
        lemma_ico_vtx_in(r@, ico_edge_v(e as int) as int);
        lemma_div_fits_mixed(r@.d, icosa.ph.vtx@[v as int]@, c5p@, 2, 1);
    }
    let dp = divide_int(&icosa.ph.vtx[v as usize], &c5p, 2, 1);
    match dp {
        Ok(p) => p,
        Err(_) => unreached(),
    }
}

/// The dodecahedron with inserted pentagon centers, exactly.
pub open spec fn is_dodecahedron_center(s: DodecahedronCenter, r: ScalarV) -> bool {
    &&& s.ph.vtx@.len() == 32
    &&& (forall|i: int| 0 <= i < 20 ==> (#[trigger] s.ph.vtx@[i])@ == dod_vtx(r, i))
    &&& (forall|e: int| 0 <= e < 12 ==> (#[trigger] s.ph.vtx@[20 + e])@ == dodc_center_vtx(r, e))
    &&& s.ph.tri@.len() == 12
    &&& (forall|q: int|
        0 <= q < 12 ==> (#[trigger] s.ph.tri@[q])@ == fan_v((20 + q) as u16, dod_tri_group(q)))
    &&& s.ph.center == true
    &&& s.edges@.len() == 0
}

/// The dodecahedron with one added center vertex per pentagon (ids 20 to 31,
/// in face order), each pentagon re-fanned into 5 triangles around it.
#[derive(Debug, Clone, PartialEq)]
pub struct DodecahedronCenter {
    /// 12 face groups of 5 triangles each over 32 vertices
    pub ph: Polyhedron,
    /// duplex edges; none are recorded for this solid
    pub edges: Vec<(u16, [u16; 3])>,
}

impl DodecahedronCenter {
    /// Build the dodecahedron of radius `r` with pentagon centers.
    #[verifier::rlimit(50)]
    pub fn new(r: Scalar) -> (res: DodecahedronCenter)
        requires
            radius_ok(r@),
        ensures
            is_dodecahedron_center(res, r@),
            res.ph.wf(),
    {
        let icosa = Icosahedron::new(r);
        let dodeca = Dodecahedron::new(r);
        let mut vtx: Vec<Point3> = Vec::new();
        let mut i: usize = 0;
        while i < 20
            invariant
                is_dodecahedron(dodeca, r@),
                0 <= i <= 20,
                vtx@.len() == i,
                forall|j: int| 0 <= j < i ==> (#[trigger] vtx@[j])@ == dod_vtx(r@, j),
            decreases 20 - i,
        {
            vtx.push(dodeca.ph.vtx[i]);
            i = i + 1;
        }
        let mut e: usize = 0;
        while e < 12
            invariant
                radius_ok(r@),
                is_icosahedron(icosa, r@),
                0 <= e <= 12,
                vtx@.len() == 20 + e,
                forall|j: int| 0 <= j < 20 ==> (#[trigger] vtx@[j])@ == dod_vtx(r@, j),
                forall|j: int| 0 <= j < e ==> (#[trigger] vtx@[20 + j])@ == dodc_center_vtx(r@, j),
            decreases 12 - e,
        {
            let p = dodc_center_point(&r, &icosa, e);
            vtx.push(p);
            e = e + 1;
        }
        let mut tri: Vec<Vec<(u16, u16, u16)>> = Vec::new();
        let mut q: usize = 0;
        while q < 12
            invariant
                is_dodecahedron(dodeca, r@),
                0 <= q <= 12,
                tri@.len() == q,
                forall|j: int|
                    0 <= j < q ==> (#[trigger] tri@[j])@ == fan_v(
                        (20 + j) as u16,
                        dod_tri_group(j),
                    ),
            decreases 12 - q,
        {
            assert(dodeca.ph.tri@[q as int]@ == dod_tri_group(q as int));
            assert(dod_tri_group(q as int).len() == 3);
            let c: u16 = 20 + (q as u16);
            tri.push(fan_around(c, &dodeca.ph.tri[q]));
            q = q + 1;
        }
        let edges: Vec<(u16, [u16; 3])> = Vec::new();
        let res = DodecahedronCenter { ph: Polyhedron { vtx, tri, center: true }, edges };
        proof {
            assert forall|i2: int, j2: int|
                0 <= i2 < res.ph.tri@.len() && 0 <= j2 < res.ph.tri@[i2]@.len() implies tri_ok(
                #[trigger] res.ph.tri@[i2]@[j2],
                32,
            ) by {
                assert(forall|j3: int| 0 <= j3 < 3 ==> tri_ok(#[trigger] dod_tri_group(i2)[j3], 32));
                lemma_fan_ok((20 + i2) as u16, dod_tri_group(i2), 32);
            }
        }
        res
    }
}

} // verus!
