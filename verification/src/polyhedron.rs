//! The output shape of every builder: a vertex table plus face groups of
//! indexed triangles, and the fan re-triangulation shared by the center
//! variants.

use vstd::prelude::*;

use crate::point::Point3;

verus! {

/// A vertex table and face groups; each face group is a list of index
/// triples into the vertex table, one triple per triangle.
#[derive(Debug, Clone, PartialEq)]
pub struct Polyhedron {
    /// vertex table; a triangle index names a position here
    pub vtx: Vec<Point3>,
    /// face groups of indexed triangles
    pub tri: Vec<Vec<(u16, u16, u16)>>,
    /// whether the face groups fan around inserted center vertices
    pub center: bool,
}

/// Every index of the triple lies below `n`.
pub open spec fn tri_ok(t: (u16, u16, u16), n: int) -> bool {
    t.0 < n && t.1 < n && t.2 < n
}

/// Every index of every triangle of every group lies below `n`.
pub open spec fn groups_ok(tri: Seq<Vec<(u16, u16, u16)>>, n: int) -> bool {
    forall|i: int, j: int|
        0 <= i < tri.len() && 0 <= j < tri[i]@.len() ==> tri_ok(#[trigger] tri[i]@[j], n)
}

impl Polyhedron {
    /// Every triangle indexes into the vertex table.
    pub open spec fn wf(self) -> bool {
        groups_ok(self.tri@, self.vtx@.len() as int)
    }
}

/// A face group of one triangle.
pub fn group1(t0: (u16, u16, u16)) -> (r: Vec<(u16, u16, u16)>)
    ensures
        r@ =~= seq![t0],
{
    let mut r: Vec<(u16, u16, u16)> = Vec::new();
    r.push(t0);
    r
}

/// A face group of three triangles.
pub fn group3(t0: (u16, u16, u16), t1: (u16, u16, u16), t2: (u16, u16, u16)) -> (r: Vec<
    (u16, u16, u16),
>)
    ensures
        r@ =~= seq![t0, t1, t2],
{
    let mut r: Vec<(u16, u16, u16)> = Vec::new();
    r.push(t0);
    r.push(t1);
    r.push(t2);
    r
}

/// The fan walk around `c` over an existing triangle list `t`: first
/// `(c, t[0].0, t[0].1)`, then `(c, t[p].1, t[p].2)` for each `p`, closed by
/// `(c, t[last].2, t[last].0)`.
pub open spec fn fan_v(c: u16, t: Seq<(u16, u16, u16)>) -> Seq<(u16, u16, u16)> {
    Seq::new(
        (t.len() + 2) as nat,
        |i: int|
            if i == 0 {
                (c, t[0].0, t[0].1)
            } else if i <= t.len() {
                (c, t[i - 1].1, t[i - 1].2)
            } else {
                (c, t[t.len() - 1].2, t[t.len() - 1].0)
            },
    )
}

/// A fan keeps all its indices below `n` when the walked triangles and the
/// center do.
pub proof fn lemma_fan_ok(c: u16, t: Seq<(u16, u16, u16)>, n: int)
    requires
        t.len() >= 1,
        c < n,
        forall|j: int| 0 <= j < t.len() ==> tri_ok(#[trigger] t[j], n),
    ensures
        forall|j: int| 0 <= j < fan_v(c, t).len() ==> tri_ok(#[trigger] fan_v(c, t)[j], n),
{
    assert forall|j: int| 0 <= j < fan_v(c, t).len() implies tri_ok(#[trigger] fan_v(c, t)[j], n) by {
        if j == 0 {
            assert(tri_ok(t[0], n));
        } else if j <= t.len() {
            assert(tri_ok(t[j - 1], n));
        } else {
            assert(tri_ok(t[t.len() - 1], n));
        }
    }
}

/// Re-triangulate one face as a fan around the vertex `c`, walking the
/// corners of its existing triangle list as [`fan_v`] describes.
pub fn fan_around(c: u16, t: &Vec<(u16, u16, u16)>) -> (r: Vec<(u16, u16, u16)>)
    requires
        t@.len() >= 1,
        t@.len() + 2 <= usize::MAX,
    ensures
        r@ == fan_v(c, t@),
{
    let mut r: Vec<(u16, u16, u16)> = Vec::new();
    let first = t[0];
    r.push((c, first.0, first.1));
    let mut p: usize = 0;
    while p < t.len()
        invariant
            0 <= p <= t@.len(),
            t@.len() >= 1,
            r@.len() == p + 1,
            r@[0] == (c, t@[0].0, t@[0].1),
            forall|j: int| 1 <= j <= p ==> (#[trigger] r@[j]) == (c, t@[j - 1].1, t@[j - 1].2),
        decreases t@.len() - p,
    {
        let tp = t[p];
        r.push((c, tp.1, tp.2));
        p = p + 1;
    }
    let last = t[t.len() - 1];
    r.push((c, last.2, last.0));
    proof {
        assert(r@ =~= fan_v(c, t@));
    }
    r
}

} // verus!
