//! The C60 truncated icosahedron: 60 vertices from trisecting every directed
//! icosahedron edge at the ratio `1 : 2`, 12 pentagon and 20 hexagon faces;
//! the center variant inserts 12 edge-based and 20 face-centroid vertices
//! and re-fans every face around its center.

use vstd::prelude::*;
use vstd::pervasive::unreached;

use crate::dodecahedron::dod_vtx;
use crate::dodecahedron::dodc_c5;
use crate::dodecahedron::face_centroid;
use crate::dodecahedron::neighbor_centroid;
use crate::icosahedron::Icosahedron;
use crate::icosahedron::ico_edge_n;
use crate::icosahedron::ico_edge_v;
use crate::icosahedron::ico_vtx;
use crate::icosahedron::is_icosahedron;
use crate::icosahedron::lemma_ico_edge_in_range;
use crate::icosahedron::lemma_ico_vtx_in;
use crate::point::Point3;
use crate::point::PointV;
use crate::point::divide_int;
use crate::point::lemma_div_fits_mixed;
use crate::point::lemma_div_fits_same;
use crate::point::pv_div;
use crate::polyhedron::Polyhedron;
use crate::polyhedron::fan_v;
use crate::polyhedron::fan_around;
use crate::polyhedron::group3;
use crate::polyhedron::lemma_fan_ok;
use crate::polyhedron::tri_ok;
use crate::scalar::Scalar;
use crate::scalar::ScalarV;
use crate::scalar::radius_ok;

verus! {

/// Vertex `i` of the C60: directed edge record `i / 5`, neighbor `i % 5`,
/// divided from the endpoint toward the neighbor at the ratio `1 : 2`.
pub open spec fn c60_vtx(r: ScalarV, i: int) -> PointV {
    pv_div(
        ico_vtx(r, ico_edge_v(i / 5) as int),
        ico_vtx(r, ico_edge_n(i / 5, i % 5) as int),
        1,
        2,
    )
}

/// Hexagon `h` of the C60: six vertex ids in winding order, read off the
/// icosahedron's face and edge topology.
pub open spec fn c60_hex(h: int) -> (u16, u16, u16, u16, u16, u16) {
    if h == 0 {
        (3u16, 14u16, 13u16, 9u16, 8u16, 4u16)
    } else if h == 1 {
        (2u16, 16u16, 15u16, 10u16, 14u16, 3u16)
    } else if h == 2 {
        (1u16, 22u16, 21u16, 17u16, 16u16, 2u16)
    } else if h == 3 {
        (0u16, 25u16, 29u16, 23u16, 22u16, 1u16)
    } else if h == 4 {
        (4u16, 8u16, 7u16, 26u16, 25u16, 0u16)
    } else if h == 5 {
        (7u16, 6u16, 32u16, 31u16, 27u16, 26u16)
    } else if h == 6 {
        (5u16, 35u16, 39u16, 33u16, 32u16, 6u16)
    } else if h == 7 {
        (13u16, 12u16, 36u16, 35u16, 5u16, 9u16)
    } else if h == 8 {
        (11u16, 42u16, 41u16, 37u16, 36u16, 12u16)
    } else if h == 9 {
        (15u16, 19u16, 43u16, 42u16, 11u16, 10u16)
    } else if h == 10 {
        (18u16, 49u16, 48u16, 44u16, 43u16, 19u16)
    } else if h == 11 {
        (21u16, 20u16, 45u16, 49u16, 18u16, 17u16)
    } else if h == 12 {
        (24u16, 53u16, 52u16, 46u16, 45u16, 20u16)
    } else if h == 13 {
        (29u16, 28u16, 54u16, 53u16, 24u16, 23u16)
    } else if h == 14 {
        (27u16, 31u16, 30u16, 50u16, 54u16, 28u16)
    } else if h == 15 {
        (30u16, 34u16, 58u16, 57u16, 51u16, 50u16)
    } else if h == 16 {
        (39u16, 38u16, 59u16, 58u16, 34u16, 33u16)
    } else if h == 17 {
        (41u16, 40u16, 55u16, 59u16, 38u16, 37u16)
    } else if h == 18 {
        (48u16, 47u16, 56u16, 55u16, 40u16, 44u16)
    } else {
        (52u16, 51u16, 57u16, 56u16, 47u16, 46u16)
    }
}

/// Pentagon face group `q`: ids `5q .. 5q+4` fanned from the first corner
/// into three triangles.
pub open spec fn c60_pent_group(q: int) -> Seq<(u16, u16, u16)> {
    let o = (5 * q) as u16;
    seq![
        (o, (5 * q + 1) as u16, (5 * q + 2) as u16),
        (o, (5 * q + 2) as u16, (5 * q + 3) as u16),
        (o, (5 * q + 3) as u16, (5 * q + 4) as u16),
    ]
}

/// Hexagon face group `h`: its six ids fanned from the first corner into
/// four triangles.
pub open spec fn c60_hex_group(h: int) -> Seq<(u16, u16, u16)> {
    let t = c60_hex(h);
    seq![(t.0, t.1, t.2), (t.0, t.2, t.3), (t.0, t.3, t.4), (t.0, t.4, t.5)]
}

/// Face group `i` of the C60: 12 pentagons, then 20 hexagons.
pub open spec fn c60_tri_group(i: int) -> Seq<(u16, u16, u16)> {
    if i < 12 {
        c60_pent_group(i)
    } else {
        c60_hex_group(i - 12)
    }
}

/// The C60 of radius `r`, exactly.
pub open spec fn is_c60(s: C60, r: ScalarV) -> bool {
    &&& s.ph.vtx@.len() == 60
    &&& (forall|i: int| 0 <= i < 60 ==> (#[trigger] s.ph.vtx@[i])@ == c60_vtx(r, i))
    &&& s.ph.tri@.len() == 32
    &&& (forall|i: int| 0 <= i < 32 ==> (#[trigger] s.ph.tri@[i])@ == c60_tri_group(i))
    &&& s.ph.center == false
    &&& s.edges@.len() == 0
}

/// The C60 fullerene: its polyhedron and its (empty) duplex edge table.
#[derive(Debug, Clone, PartialEq)]
pub struct C60 {
    /// 12 face groups of 3 triangles and 20 of 4, over 60 vertices
    pub ph: Polyhedron,
    /// duplex edges; none are recorded for this solid
    pub edges: Vec<(u16, [u16; 3])>,
}

/// C60 vertex `5*e + j`: the trisection point of directed edge `(e, j)`.
#[verifier::rlimit(50)]
fn c60_point(r: &Scalar, icosa: &Icosahedron, e: usize, j: usize) -> (p: Point3)
    requires
        radius_ok(r@),
        is_icosahedron(*icosa, r@),
        e < 12,
        j < 5,
    ensures
        p@ == c60_vtx(r@, 5 * e + j),
{
    let v = icosa.edges[e].0;
    let nj = icosa.edges[e].1[j];
    proof {
        lemma_ico_edge_in_range(e as int);
        assert(v == ico_edge_v(e as int));
        assert(nj == ico_edge_n(e as int, j as int));
        lemma_ico_vtx_in(r@, v as int);
        lemma_ico_vtx_in(r@, nj as int);
        lemma_div_fits_same(r@.d, icosa.ph.vtx@[v as int]@, icosa.ph.vtx@[nj as int]@, 1, 2);
        assert((5 * e + j) / 5 == e);
        assert((5 * e + j) % 5 == j);
    }
    let dp = divide_int(&icosa.ph.vtx[v as usize], &icosa.ph.vtx[nj as usize], 1, 2);
    match dp {
        Ok(p) => p,
        Err(_) => unreached(),
    }
}

impl C60 {
    /// Build the C60 of radius `r` by trisecting every directed icosahedron
    /// edge.
    #[verifier::rlimit(50)]
    pub fn new(r: Scalar) -> (res: C60)
        requires
            radius_ok(r@),
        ensures
            is_c60(res, r@),
            res.ph.wf(),
    {
        let icosa = Icosahedron::new(r);
        let mut vtx: Vec<Point3> = Vec::new();
        let mut i: usize = 0;
        while i < 60
            invariant
                radius_ok(r@),
                is_icosahedron(icosa, r@),
                0 <= i <= 60,
                vtx@.len() == i,
                forall|k: int| 0 <= k < i ==> (#[trigger] vtx@[k])@ == c60_vtx(r@, k),
            decreases 60 - i,
        {
            let p = c60_point(&r, &icosa, i / 5, i % 5);
            proof {
                assert(5 * ((i as int) / 5) + (i as int) % 5 == i as int);
            }
            vtx.push(p);
            i = i + 1;
        }
        let mut tri: Vec<Vec<(u16, u16, u16)>> = Vec::new();
        let mut q: usize = 0;
        while q < 12
            invariant
                0 <= q <= 12,
                tri@.len() == q,
                forall|k: int| 0 <= k < q ==> (#[trigger] tri@[k])@ == c60_pent_group(k),
            decreases 12 - q,
        {
            let o: u16 = 5 * (q as u16);
            tri.push(group3((o, o + 1, o + 2), (o, o + 2, o + 3), (o, o + 3, o + 4)));
            q = q + 1;
        }
        let mut hx: Vec<(u16, u16, u16, u16, u16, u16)> = Vec::new();
        hx.push((3, 14, 13, 9, 8, 4));
        hx.push((2, 16, 15, 10, 14, 3));
        hx.push((1, 22, 21, 17, 16, 2));
        hx.push((0, 25, 29, 23, 22, 1));
        hx.push((4, 8, 7, 26, 25, 0));
        hx.push((7, 6, 32, 31, 27, 26));
        hx.push((5, 35, 39, 33, 32, 6));
        hx.push((13, 12, 36, 35, 5, 9));
        hx.push((11, 42, 41, 37, 36, 12));
        hx.push((15, 19, 43, 42, 11, 10));
        hx.push((18, 49, 48, 44, 43, 19));
        hx.push((21, 20, 45, 49, 18, 17));
        hx.push((24, 53, 52, 46, 45, 20));
        hx.push((29, 28, 54, 53, 24, 23));
        hx.push((27, 31, 30, 50, 54, 28));
        hx.push((30, 34, 58, 57, 51, 50));
        hx.push((39, 38, 59, 58, 34, 33));
        hx.push((41, 40, 55, 59, 38, 37));
        hx.push((48, 47, 56, 55, 40, 44));
        hx.push((52, 51, 57, 56, 47, 46));
        proof {
            assert forall|h: int| 0 <= h < 20 implies (#[trigger] hx@[h]) == c60_hex(h) by {
                assert(hx@[0] == c60_hex(0));
                assert(hx@[1] == c60_hex(1));
                assert(hx@[2] == c60_hex(2));
                assert(hx@[3] == c60_hex(3));
                assert(hx@[4] == c60_hex(4));
                assert(hx@[5] == c60_hex(5));
                assert(hx@[6] == c60_hex(6));
                assert(hx@[7] == c60_hex(7));
                assert(hx@[8] == c60_hex(8));
                assert(hx@[9] == c60_hex(9));
                assert(hx@[10] == c60_hex(10));
                assert(hx@[11] == c60_hex(11));
                assert(hx@[12] == c60_hex(12));
                assert(hx@[13] == c60_hex(13));
                assert(hx@[14] == c60_hex(14));
                assert(hx@[15] == c60_hex(15));
                assert(hx@[16] == c60_hex(16));
                assert(hx@[17] == c60_hex(17));
                assert(hx@[18] == c60_hex(18));
                assert(hx@[19] == c60_hex(19));
            }
        }
        let mut h: usize = 0;
        while h < 20
            invariant
                0 <= h <= 20,
                hx@.len() == 20,
                forall|k: int| 0 <= k < 20 ==> (#[trigger] hx@[k]) == c60_hex(k),
                tri@.len() == 12 + h,
                forall|k: int| 0 <= k < 12 ==> (#[trigger] tri@[k])@ == c60_pent_group(k),
                forall|k: int| 0 <= k < h ==> (#[trigger] tri@[12 + k])@ == c60_hex_group(k),
            decreases 20 - h,
        {
            let t = hx[h];
            let mut g: Vec<(u16, u16, u16)> = Vec::new();
            g.push((t.0, t.1, t.2));
            g.push((t.0, t.2, t.3));
            g.push((t.0, t.3, t.4));
            g.push((t.0, t.4, t.5));
            proof {
                assert(g@ =~= c60_hex_group(h as int));
            }
            tri.push(g);
            h = h + 1;
        }
        let edges: Vec<(u16, [u16; 3])> = Vec::new();
        let res = C60 { ph: Polyhedron { vtx, tri, center: false }, edges };
        proof {
            assert forall|i2: int| 0 <= i2 < 32 implies (#[trigger] res.ph.tri@[i2])@
                == c60_tri_group(i2) by {
                if i2 < 12 {
                    assert(res.ph.tri@[i2]@ == c60_pent_group(i2));
                } else {
                    assert(res.ph.tri@[12 + (i2 - 12)]@ == c60_hex_group(i2 - 12));
                }
            }
            assert forall|i2: int, j2: int|
                0 <= i2 < res.ph.tri@.len() && 0 <= j2 < res.ph.tri@[i2]@.len() implies tri_ok(
                #[trigger] res.ph.tri@[i2]@[j2],
                60,
            ) by {
                assert(res.ph.tri@[i2]@ == c60_tri_group(i2));
            }
        }
        res
    }
}

/// C60 coordinates are linear in the radius: building with radius `k * r`
/// scales every trisection vertex by `k`, while the pentagon and hexagon
/// tables do not depend on the radius at all.
pub proof fn lemma_c60_scales(k: ScalarV, r: ScalarV, i: int)
    requires
        0 <= i < 60,
        crate::scalar::sv_wf(r),
        crate::scalar::sv_wf(k),
    ensures
        crate::icosahedron::pv_scaled(k, c60_vtx(crate::scalar::sv_mul(k, r), i), c60_vtx(r, i)),
{
    let rs = crate::scalar::sv_mul(k, r);
    let e = i / 5;
    let j = i % 5;
    assert(0 <= e < 12 && 0 <= j < 5);
    lemma_ico_edge_in_range(e);
    let a = ico_edge_v(e) as int;
    let b = ico_edge_n(e, j) as int;
    crate::icosahedron::lemma_icosahedron_scales(k, r, a);
    crate::icosahedron::lemma_icosahedron_scales(k, r, b);
    crate::icosahedron::lemma_ico_vtx_den(r, a);
    crate::icosahedron::lemma_ico_vtx_den(r, b);
    crate::icosahedron::lemma_ico_vtx_den(rs, a);
    crate::icosahedron::lemma_ico_vtx_den(rs, b);
    assert(rs.d >= 1) by (nonlinear_arith)
        requires
            rs.d == k.d * r.d,
            k.d >= 1,
            r.d >= 1;
    crate::point::lemma_div_scales(
        k,
        ico_vtx(rs, a).x,
        ico_vtx(rs, b).x,
        ico_vtx(r, a).x,
        ico_vtx(r, b).x,
        1,
        2,
    );
    crate::point::lemma_div_scales(
        k,
        ico_vtx(rs, a).y,
        ico_vtx(rs, b).y,
        ico_vtx(r, a).y,
        ico_vtx(r, b).y,
        1,
        2,
    );
    crate::point::lemma_div_scales(
        k,
        ico_vtx(rs, a).z,
        ico_vtx(rs, b).z,
        ico_vtx(r, a).z,
        ico_vtx(r, b).z,
        1,
        2,
    );
}

/// Building the C60 twice with the same radius gives identical output: the
/// vertex and face tables coincide entry for entry.
pub proof fn lemma_c60_deterministic(s1: C60, s2: C60, r: ScalarV)
    requires
        is_c60(s1, r),
        is_c60(s2, r),
    ensures
        s1.ph.vtx@ == s2.ph.vtx@,
        s1.ph.tri@.len() == s2.ph.tri@.len(),
        forall|i: int|
            0 <= i < s1.ph.tri@.len() ==> (#[trigger] s1.ph.tri@[i])@ == s2.ph.tri@[i]@,
        s1.ph.center == s2.ph.center,
        s1.edges@.len() == s2.edges@.len(),
{
    assert forall|i: int| 0 <= i < 60 implies (#[trigger] s1.ph.vtx@[i]) == s2.ph.vtx@[i] by {
        assert(s1.ph.vtx@[i]@ == c60_vtx(r, i));
        assert(s2.ph.vtx@[i]@ == c60_vtx(r, i));
    }
    assert(s1.ph.vtx@ =~= s2.ph.vtx@);
}

/// Building the centered C60 twice with the same radius gives identical
/// output.
pub proof fn lemma_c60_center_deterministic(s1: C60Center, s2: C60Center, r: ScalarV)
    requires
        is_c60_center(s1, r),
        is_c60_center(s2, r),
    ensures
        s1.ph.vtx@ == s2.ph.vtx@,
        s1.ph.tri@.len() == s2.ph.tri@.len(),
        forall|i: int|
            0 <= i < s1.ph.tri@.len() ==> (#[trigger] s1.ph.tri@[i])@ == s2.ph.tri@[i]@,
        s1.ph.center == s2.ph.center,
        s1.edges@.len() == s2.edges@.len(),
{
    assert forall|i: int| 0 <= i < 92 implies (#[trigger] s1.ph.vtx@[i]) == s2.ph.vtx@[i] by {
        if i < 60 {
            assert(s1.ph.vtx@[i]@ == c60_vtx(r, i));
            assert(s2.ph.vtx@[i]@ == c60_vtx(r, i));
        } else if i < 72 {
            assert(s1.ph.vtx@[60 + (i - 60)]@ == c60c_edge_vtx(r, i - 60));
            assert(s2.ph.vtx@[60 + (i - 60)]@ == c60c_edge_vtx(r, i - 60));
        } else {
            assert(s1.ph.vtx@[72 + (i - 72)]@ == dod_vtx(r, i - 72));
            assert(s2.ph.vtx@[72 + (i - 72)]@ == dod_vtx(r, i - 72));
        }
    }
    assert(s1.ph.vtx@ =~= s2.ph.vtx@);
    assert forall|i: int| 0 <= i < s1.ph.tri@.len() implies (#[trigger] s1.ph.tri@[i])@
        == s2.ph.tri@[i]@ by {
        if i < 12 {
            assert(s1.ph.tri@[i]@ == fan_v((60 + i) as u16, c60_pent_group(i)));
            assert(s2.ph.tri@[i]@ == fan_v((60 + i) as u16, c60_pent_group(i)));
        } else {
            assert(s1.ph.tri@[12 + (i - 12)]@ == fan_v((72 + (i - 12)) as u16, c60_hex_group(i - 12)));
            assert(s2.ph.tri@[12 + (i - 12)]@ == fan_v((72 + (i - 12)) as u16, c60_hex_group(i - 12)));
        }
    }
}

/// Inserted edge-center vertex `e` of the C60 with centers: the icosahedron
/// edge endpoint divided toward the centroid of its neighbor set in the
/// ratio `1 : 2`.
pub open spec fn c60c_edge_vtx(r: ScalarV, e: int) -> PointV {
    pv_div(ico_vtx(r, ico_edge_v(e) as int), dodc_c5(r, e), 1, 2)
}

/// The C60 with inserted face centers, exactly: vertices 0 to 59 are the
/// C60's, 60 to 71 the edge-based centers, 72 to 91 the face centroids.
pub open spec fn is_c60_center(s: C60Center, r: ScalarV) -> bool {
    &&& s.ph.vtx@.len() == 92
    &&& (forall|i: int| 0 <= i < 60 ==> (#[trigger] s.ph.vtx@[i])@ == c60_vtx(r, i))
    &&& (forall|e: int| 0 <= e < 12 ==> (#[trigger] s.ph.vtx@[60 + e])@ == c60c_edge_vtx(r, e))
    &&& (forall|f: int| 0 <= f < 20 ==> (#[trigger] s.ph.vtx@[72 + f])@ == dod_vtx(r, f))
    &&& s.ph.tri@.len() == 32
    &&& (forall|q: int|
        0 <= q < 12 ==> (#[trigger] s.ph.tri@[q])@ == fan_v((60 + q) as u16, c60_pent_group(q)))
    &&& (forall|h: int|
        0 <= h < 20 ==> (#[trigger] s.ph.tri@[12 + h])@ == fan_v(
            (72 + h) as u16,
            c60_hex_group(h),
        ))
    &&& s.ph.center == true
    &&& s.edges@.len() == 0
}

/// The C60 with one added center vertex per face (ids 60 to 91), each face
/// re-fanned around it: pentagons into 5 triangles, hexagons into 6.
#[derive(Debug, Clone, PartialEq)]
pub struct C60Center {
    /// 12 face groups of 5 triangles and 20 of 6, over 92 vertices
    pub ph: Polyhedron,
    /// duplex edges; none are recorded for this solid
    pub edges: Vec<(u16, [u16; 3])>,
}

/// Inserted edge-center vertex `e`, computed from the icosahedron's tables.
#[verifier::rlimit(50)]
fn c60c_edge_point(r: &Scalar, icosa: &Icosahedron, e: usize) -> (p: Point3)
    requires
        radius_ok(r@),
        is_icosahedron(*icosa, r@),
        e < 12,
    ensures
        p@ == c60c_edge_vtx(r@, e as int),
{
    let c5p = neighbor_centroid(r, icosa, e);
    let v = icosa.edges[e].0;
    proof {
        lemma_ico_edge_in_range(e as int);
        assert(v == ico_edge_v(e as int));
        lemma_ico_vtx_in(r@, ico_edge_v(e as int) as int);
        lemma_div_fits_mixed(r@.d, icosa.ph.vtx@[v as int]@, c5p@, 1, 2);
    }
    let dp = divide_int(&icosa.ph.vtx[v as usize], &c5p, 1, 2);
    match dp {
        Ok(p) => p,
        Err(_) => unreached(),
    }
}

impl C60Center {
    /// Build the C60 of radius `r` with face centers.
    #[verifier::rlimit(50)]
    pub fn new(r: Scalar) -> (res: C60Center)
        requires
            radius_ok(r@),
        ensures
            is_c60_center(res, r@),
            res.ph.wf(),
    {
        let icosa = Icosahedron::new(r);
        let c60 = C60::new(r);
        let mut vtx: Vec<Point3> = Vec::new();
        let mut i: usize = 0;
        while i < 60
            invariant
                is_c60(c60, r@),
                0 <= i <= 60,
                vtx@.len() == i,
                forall|k: int| 0 <= k < i ==> (#[trigger] vtx@[k])@ == c60_vtx(r@, k),
            decreases 60 - i,
        {
            vtx.push(c60.ph.vtx[i]);
            i = i + 1;
        }
        let mut e: usize = 0;
        while e < 12
            invariant
                radius_ok(r@),
                is_icosahedron(icosa, r@),
                0 <= e <= 12,
                vtx@.len() == 60 + e,
                forall|k: int| 0 <= k < 60 ==> (#[trigger] vtx@[k])@ == c60_vtx(r@, k),
                forall|k: int| 0 <= k < e ==> (#[trigger] vtx@[60 + k])@ == c60c_edge_vtx(r@, k),
            decreases 12 - e,
        {
            let p = c60c_edge_point(&r, &icosa, e);
            vtx.push(p);
            e = e + 1;
        }
        let mut f: usize = 0;
        while f < 20
            invariant
                radius_ok(r@),
                is_icosahedron(icosa, r@),
                0 <= f <= 20,
                vtx@.len() == 72 + f,
                forall|k: int| 0 <= k < 60 ==> (#[trigger] vtx@[k])@ == c60_vtx(r@, k),
                forall|k: int| 0 <= k < 12 ==> (#[trigger] vtx@[60 + k])@ == c60c_edge_vtx(r@, k),
                forall|k: int| 0 <= k < f ==> (#[trigger] vtx@[72 + k])@ == dod_vtx(r@, k),
            decreases 20 - f,
        {
            let p = face_centroid(&r, &icosa, f);
            vtx.push(p);
            f = f + 1;
        }
        let mut tri: Vec<Vec<(u16, u16, u16)>> = Vec::new();
        let mut q: usize = 0;
        while q < 12
            invariant
                is_c60(c60, r@),
                0 <= q <= 12,
                tri@.len() == q,
                forall|k: int|
                    0 <= k < q ==> (#[trigger] tri@[k])@ == fan_v(
                        (60 + k) as u16,
                        c60_pent_group(k),
                    ),
            decreases 12 - q,
        {
            assert(c60.ph.tri@[q as int]@ == c60_pent_group(q as int));
            let c: u16 = 60 + (q as u16);
            tri.push(fan_around(c, &c60.ph.tri[q]));
            q = q + 1;
        }
        let mut h: usize = 0;
        while h < 20
            invariant
                is_c60(c60, r@),
                0 <= h <= 20,
                tri@.len() == 12 + h,
                forall|k: int|
                    0 <= k < 12 ==> (#[trigger] tri@[k])@ == fan_v(
                        (60 + k) as u16,
                        c60_pent_group(k),
                    ),
                forall|k: int|
                    0 <= k < h ==> (#[trigger] tri@[12 + k])@ == fan_v(
                        (72 + k) as u16,
                        c60_hex_group(k),
                    ),
            decreases 20 - h,
        {
            assert(c60.ph.tri@[12 + h as int]@ == c60_hex_group(h as int));
            let c: u16 = 72 + (h as u16);
            tri.push(fan_around(c, &c60.ph.tri[12 + h]));
            h = h + 1;
        }
        let edges: Vec<(u16, [u16; 3])> = Vec::new();
        let res = C60Center { ph: Polyhedron { vtx, tri, center: true }, edges };
        proof {
            assert forall|i2: int, j2: int|
                0 <= i2 < res.ph.tri@.len() && 0 <= j2 < res.ph.tri@[i2]@.len() implies tri_ok(
                #[trigger] res.ph.tri@[i2]@[j2],
                92,
            ) by {
                if i2 < 12 {
                    assert(res.ph.tri@[i2]@ == fan_v((60 + i2) as u16, c60_pent_group(i2)));
                    assert(forall|j3: int|
                        0 <= j3 < 3 ==> tri_ok(#[trigger] c60_pent_group(i2)[j3], 92));
                    lemma_fan_ok((60 + i2) as u16, c60_pent_group(i2), 92);
                } else {
                    assert(res.ph.tri@[12 + (i2 - 12)]@ == fan_v(
                        (72 + (i2 - 12)) as u16,
                        c60_hex_group(i2 - 12),
                    ));
                    assert(forall|j3: int|
                        0 <= j3 < 4 ==> tri_ok(#[trigger] c60_hex_group(i2 - 12)[j3], 92));
                    lemma_fan_ok((72 + (i2 - 12)) as u16, c60_hex_group(i2 - 12), 92);
                }
            }
        }
        res
    }
}

} // verus!
