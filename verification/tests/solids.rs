use fullerene::C60;
use fullerene::C60Center;
use fullerene::Dodecahedron;
use fullerene::DodecahedronCenter;
use fullerene::GeomError;
use fullerene::Icosahedron;
use fullerene::Point3;
use fullerene::Scalar;
use fullerene::point::average;
use fullerene::point::centroid_of_indices;
use fullerene::point::divide_ext;
use fullerene::point::divide_int;

/// The `f64` value of `(a + b*sqrt(5)) / d`.
fn sc_f64(s: &Scalar) -> f64 {
    (s.a as f64 + s.b as f64 * 5f64.sqrt()) / s.d as f64
}

fn sc_f32(s: &Scalar) -> f32 {
    sc_f64(s) as f32
}

/// Exact equality of `(a + b*sqrt(5)) / d` values by cross-multiplication.
fn sc_eq_val(x: &Scalar, y: &Scalar) -> bool {
    let (xa, xb, xd) = (x.a as i128, x.b as i128, x.d as i128);
    let (ya, yb, yd) = (y.a as i128, y.b as i128, y.d as i128);
    xa * yd == ya * xd && xb * yd == yb * xd
}

/// `y` denotes exactly twice the value of `x`.
fn sc_is_double(y: &Scalar, x: &Scalar) -> bool {
    let (xa, xb, xd) = (x.a as i128, x.b as i128, x.d as i128);
    let (ya, yb, yd) = (y.a as i128, y.b as i128, y.d as i128);
    ya * xd == 2 * xa * yd && yb * xd == 2 * xb * yd
}

fn pt(a: i64, b: i64, c: i64) -> Point3 {
    Point3 { x: Scalar::from_int(a), y: Scalar::from_int(b), z: Scalar::from_int(c) }
}

#[test]
fn test_icosahedron() {
    let icosa32_e = Icosahedron::new(Scalar::from_int(1));
    let icosa32 = icosa32_e.ph;
    assert_eq!(icosa32.tri.len(), 20);
    assert_eq!(icosa32.vtx.len(), 12);
    let v = &icosa32.vtx[0];
    let s32 = format!("{:?}", [sc_f32(&v.x), sc_f32(&v.y), sc_f32(&v.z)]);
    println!("{}", s32);
    assert_eq!(s32, "[0.0, -1.0, -1.618034]");

    let icosa64_e = Icosahedron::new(Scalar::from_int(1));
    let icosa64 = icosa64_e.ph;
    assert_eq!(icosa64.tri.len(), 20);
    assert_eq!(icosa64.vtx.len(), 12);
    let w = &icosa64.vtx[0];
    let s64 = format!("{:?}", [sc_f64(&w.x), sc_f64(&w.y), sc_f64(&w.z)]);
    println!("{}", s64);
    assert_eq!(s64, "[0.0, -1.0, -1.618033988749895]");
}

#[test]
fn test_dodecahedron() {
    let dodeca32_e = Dodecahedron::new(Scalar::from_int(1));
    let dodeca32 = dodeca32_e.ph;
    assert_eq!(dodeca32.tri.len(), 12); // 12(pentagon) x 3
    assert_eq!(dodeca32.vtx.len(), 20);
    let dodeca64_e = Dodecahedron::new(Scalar::from_int(1));
    let dodeca64 = dodeca64_e.ph;
    assert_eq!(dodeca64.tri.len(), 12); // 12(pentagon) x 3
    assert_eq!(dodeca64.vtx.len(), 20);
}

#[test]
fn test_dodecahedron_center() {
    let dodeca32_center_e = DodecahedronCenter::new(Scalar::from_int(1));
    let dodeca32_center = dodeca32_center_e.ph;
    assert_eq!(dodeca32_center.tri.len(), 12); // 12 x 5
    assert_eq!(dodeca32_center.vtx.len(), 32); // 20 + 12
    let dodeca64_center_e = DodecahedronCenter::new(Scalar::from_int(1));
    let dodeca64_center = dodeca64_center_e.ph;
    assert_eq!(dodeca64_center.tri.len(), 12); // 12 x 5
    assert_eq!(dodeca64_center.vtx.len(), 32); // 20 + 12

    let mt = vec![
        vec![(20, 0, 4), (20, 4, 3), (20, 3, 2), (20, 2, 1), (20, 1, 0)], // 0
        vec![(21, 4, 0), (21, 0, 7), (21, 7, 6), (21, 6, 5), (21, 5, 4)], // 4
        vec![(22, 0, 1), (22, 1, 9), (22, 9, 8), (22, 8, 7), (22, 7, 0)], // 8
        vec![(23, 1, 2), (23, 2, 11), (23, 11, 10), (23, 10, 9), (23, 9, 1)], // 9
        vec![(24, 2, 3), (24, 3, 13), (24, 13, 12), (24, 12, 11), (24, 11, 2)], // 7
        vec![(25, 3, 4), (25, 4, 5), (25, 5, 14), (25, 14, 13), (25, 13, 3)], // 1
        vec![(26, 15, 14), (26, 14, 5), (26, 5, 6), (26, 6, 16), (26, 16, 15)], // 11
        vec![(27, 16, 6), (27, 6, 7), (27, 7, 8), (27, 8, 17), (27, 17, 16)], // 5
        vec![(28, 17, 8), (28, 8, 9), (28, 9, 10), (28, 10, 18), (28, 18, 17)], // 3
        vec![(29, 18, 10), (29, 10, 11), (29, 11, 12), (29, 12, 19), (29, 19, 18)], // 6
        vec![(30, 19, 12), (30, 12, 13), (30, 13, 14), (30, 14, 15), (30, 15, 19)], // 10
        vec![(31, 19, 15), (31, 15, 16), (31, 16, 17), (31, 17, 18), (31, 18, 19)], // 2
    ];
    assert_eq!(dodeca32_center.tri, mt);
    assert_eq!(dodeca64_center.tri, mt);
}

#[test]
fn test_fullerene() {
    let c60_32_e = C60::new(Scalar::from_int(1));
    let c60_32 = c60_32_e.ph;
    assert_eq!(c60_32.tri.len(), 32); // 12(pentagon) x 3 + 20(hexagon) x 4
    assert_eq!(c60_32.vtx.len(), 60);
    let c60_64_e = C60::new(Scalar::from_int(1));
    let c60_64 = c60_64_e.ph;
    assert_eq!(c60_64.tri.len(), 32); // 12(pentagon) x 3 + 20(hexagon) x 4
    assert_eq!(c60_64.vtx.len(), 60);
}

#[test]
fn test_fullerene_center() {
    let c60_32_center_e = C60Center::new(Scalar::from_int(1));
    let c60_32_center = c60_32_center_e.ph;
    assert_eq!(c60_32_center.tri.len(), 32); // 12 x 5 + 20 x 6
    assert_eq!(c60_32_center.vtx.len(), 92); // 60 + 32
    let c60_64_center_e = C60Center::new(Scalar::from_int(1));
    let c60_64_center = c60_64_center_e.ph;
    assert_eq!(c60_64_center.tri.len(), 32); // 12 x 5 + 20 x 6
    assert_eq!(c60_64_center.vtx.len(), 92); // 60 + 32
}

#[test]
fn test_golden_ratio_square() {
    // phi * phi == phi + 1
    let phi = Scalar::golden();
    let sq = phi.mul_by(&phi);
    let plus_one = phi.add_to(&Scalar::from_int(1));
    assert_eq!(sq, Scalar { a: 6, b: 2, d: 4 });
    assert!(sc_eq_val(&sq, &plus_one));
}

#[test]
fn test_divide_int_midpoint() {
    let p = pt(1, 2, 3);
    let q = pt(3, 4, 5);
    let mid = divide_int(&p, &q, 1, 1).unwrap();
    assert_eq!(mid.x, Scalar { a: 4, b: 0, d: 2 });
    assert_eq!(mid.y, Scalar { a: 6, b: 0, d: 2 });
    assert_eq!(mid.z, Scalar { a: 8, b: 0, d: 2 });
    assert!(sc_eq_val(&mid.x, &Scalar::from_int(2)));
    assert!(sc_eq_val(&mid.y, &Scalar::from_int(3)));
    assert!(sc_eq_val(&mid.z, &Scalar::from_int(4)));
}

#[test]
fn test_divide_int_zero_ratio() {
    let p = pt(1, 2, 3);
    let q = pt(3, 4, 5);
    assert_eq!(divide_int(&p, &q, 1, -1), Err(GeomError::InvalidArgument));
    assert_eq!(divide_ext(&p, &q, 2, 2), Err(GeomError::InvalidArgument));
}

#[test]
fn test_divide_ext_recovers_endpoint() {
    let p = pt(1, -2, 7);
    let q = pt(4, 10, -5);
    let di = divide_int(&p, &q, 1, 2).unwrap();
    let de = divide_ext(&p, &di, 3, 2).unwrap();
    assert!(sc_eq_val(&de.x, &q.x));
    assert!(sc_eq_val(&de.y, &q.y));
    assert!(sc_eq_val(&de.z, &q.z));
}

#[test]
fn test_average_and_centroid_errors() {
    let empty: Vec<Point3> = Vec::new();
    assert_eq!(average(&empty), Err(GeomError::InvalidArgument));
    let pts = vec![pt(1, 0, 0), pt(3, 2, 4)];
    let m = average(&pts).unwrap();
    assert!(sc_eq_val(&m.x, &Scalar::from_int(2)));
    assert!(sc_eq_val(&m.y, &Scalar::from_int(1)));
    assert!(sc_eq_val(&m.z, &Scalar::from_int(2)));
    let idx_bad = vec![0u16, 7u16];
    assert_eq!(centroid_of_indices(&idx_bad, &pts), Err(GeomError::IndexOutOfRange));
    let idx_empty: Vec<u16> = Vec::new();
    assert_eq!(centroid_of_indices(&idx_empty, &pts), Err(GeomError::InvalidArgument));
}

#[test]
fn test_builders_idempotent() {
    let r = Scalar::from_int(3);
    assert_eq!(Icosahedron::new(r), Icosahedron::new(r));
    assert_eq!(Dodecahedron::new(r), Dodecahedron::new(r));
    assert_eq!(DodecahedronCenter::new(r), DodecahedronCenter::new(r));
    assert_eq!(C60::new(r), C60::new(r));
    assert_eq!(C60Center::new(r), C60Center::new(r));
}

#[test]
fn test_icosahedron_vertices_on_sphere() {
    // every vertex has squared norm r*r * (5 + sqrt(5)) / 2
    let icosa = Icosahedron::new(Scalar::from_int(1));
    let expect = Scalar { a: 5, b: 1, d: 2 };
    for v in icosa.ph.vtx.iter() {
        let mut na: i128 = 0;
        let mut nb: i128 = 0;
        let mut nd: i128 = 1;
        for s in [&v.x, &v.y, &v.z] {
            let (a, b, d) = (s.a as i128, s.b as i128, s.d as i128);
            let sq_a = a * a + 5 * b * b;
            let sq_b = 2 * a * b;
            let sq_d = d * d;
            // na/nd + sq_a/sq_d over the common denominator
            na = na * sq_d + sq_a * nd;
            nb = nb * sq_d + sq_b * nd;
            nd = nd * sq_d;
        }
        assert_eq!(na * expect.d as i128, expect.a as i128 * nd);
        assert_eq!(nb * expect.d as i128, expect.b as i128 * nd);
    }
}

#[test]
fn test_doubling_radius_doubles_coordinates() {
    let r1 = Scalar::from_int(1);
    let r2 = Scalar::from_int(2);
    let pairs: Vec<(Vec<Point3>, Vec<Point3>)> = vec![
        (Icosahedron::new(r1).ph.vtx, Icosahedron::new(r2).ph.vtx),
        (Dodecahedron::new(r1).ph.vtx, Dodecahedron::new(r2).ph.vtx),
        (DodecahedronCenter::new(r1).ph.vtx, DodecahedronCenter::new(r2).ph.vtx),
        (C60::new(r1).ph.vtx, C60::new(r2).ph.vtx),
        (C60Center::new(r1).ph.vtx, C60Center::new(r2).ph.vtx),
    ];
    for (small, big) in pairs.iter() {
        assert_eq!(small.len(), big.len());
        for (v1, v2) in small.iter().zip(big.iter()) {
            assert!(sc_is_double(&v2.x, &v1.x));
            assert!(sc_is_double(&v2.y, &v1.y));
            assert!(sc_is_double(&v2.z, &v1.z));
        }
    }
    // topology is independent of the radius
    assert_eq!(C60Center::new(r1).ph.tri, C60Center::new(r2).ph.tri);
    assert_eq!(Icosahedron::new(r1).edges, Icosahedron::new(r2).edges);
}

#[test]
fn test_c60_first_vertex_value() {
    // vertex 0 trisects the edge from vertex 0 to vertex 1 of the icosahedron
    let c60 = C60::new(Scalar::from_int(1));
    let v = &c60.ph.vtx[0];
    assert_eq!(v.x, Scalar { a: 0, b: 0, d: 6 });
    assert_eq!(v.y, Scalar { a: -2, b: 0, d: 6 });
    assert_eq!(v.z, Scalar { a: -3, b: -3, d: 6 });
}

#[test]
fn test_fullerene_center_fans() {
    let c = C60Center::new(Scalar::from_int(1));
    assert_eq!(c.ph.tri[0], vec![(60, 0, 1), (60, 1, 2), (60, 2, 3), (60, 3, 4), (60, 4, 0)]);
    assert_eq!(
        c.ph.tri[12],
        vec![(72, 3, 14), (72, 14, 13), (72, 13, 9), (72, 9, 8), (72, 8, 4), (72, 4, 3)]
    );
}
