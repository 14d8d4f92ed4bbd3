//! Containment predicates: rectangle-over-shape and polygon-over-shape
//! combinations consumed by the router.

use vstd::prelude::*;

verus! {

use crate::math::{spec_orientation, orientation};
use crate::primitive::{Pt, Rt, Segment, Tri, Polygon, pt_ok};
use crate::intersects::spec_seg_intersects;
use crate::distance::{spec_poly_edge, spec_rt_edge};

/// `a` contains `b`, give or take the tolerance on each side.
pub open spec fn spec_rt_contains_rt(a: Rt, b: Rt) -> bool {
    &&& crate::math::spec_le(a.x0 as int, b.x0 as int)
    &&& crate::math::spec_le(b.x1 as int, a.x1 as int)
    &&& crate::math::spec_le(a.y0 as int, b.y0 as int)
    &&& crate::math::spec_le(b.y1 as int, a.y1 as int)
}

pub fn rt_contains_rt(a: &Rt, b: &Rt) -> (r: bool)
    ensures
        r == spec_rt_contains_rt(*a, *b),
{
    crate::math::le(a.x0, b.x0) && crate::math::le(b.x1, a.x1) && crate::math::le(a.y0, b.y0)
        && crate::math::le(b.y1, a.y1)
}

/// The point lies inside the triangle: within its bounding rectangle, and on
/// the triangle's side of each edge within tolerance, for whichever winding
/// the triangle has. The bounding-rectangle clause keeps a near-degenerate
/// triangle from tolerantly containing far-away points.
pub open spec fn spec_tri_contains_pt(t: Tri, p: Pt) -> bool {
    &&& Rt::spec_enclosing(t.a, t.b).spec_union(Rt::spec_enclosing(t.c, t.c)).spec_contains(p)
    &&& if spec_orientation(t.a, t.b, t.c) >= 0 {
        &&& spec_orientation(t.a, t.b, p) >= 0
        &&& spec_orientation(t.b, t.c, p) >= 0
        &&& spec_orientation(t.c, t.a, p) >= 0
    } else {
        &&& spec_orientation(t.a, t.b, p) <= 0
        &&& spec_orientation(t.b, t.c, p) <= 0
        &&& spec_orientation(t.c, t.a, p) <= 0
    }
}

pub fn tri_contains_pt(t: &Tri, p: Pt) -> (r: bool)
    requires
        t.wf(),
        pt_ok(p),
    ensures
        r == spec_tri_contains_pt(*t, p),
{
    if !t.bounds().contains(p) {
        return false;
    }
    if orientation(t.a, t.b, t.c) >= 0 {
        orientation(t.a, t.b, p) >= 0 && orientation(t.b, t.c, p) >= 0 && orientation(
            t.c,
            t.a,
            p,
        ) >= 0
    } else {
        orientation(t.a, t.b, p) <= 0 && orientation(t.b, t.c, p) <= 0 && orientation(
            t.c,
            t.a,
            p,
        ) <= 0
    }
}

/// The point lies in some triangle of the polygon's triangulation.
pub open spec fn spec_polygon_contains_pt(a: Polygon, p: Pt) -> bool {
    exists|i: int| 0 <= i < a.tris@.len() && spec_tri_contains_pt(#[trigger] a.tris@[i], p)
}

pub fn polygon_contains_pt(a: &Polygon, p: Pt) -> (r: bool)
    requires
        a.wf(),
        pt_ok(p),
    ensures
        r == spec_polygon_contains_pt(*a, p),
{
    let n = a.tris.len();
    let mut i: usize = 0;
    while i < n
        invariant
            a.wf(),
            pt_ok(p),
            n == a.tris@.len(),
            i <= n,
            forall|j: int| 0 <= j < i ==> !spec_tri_contains_pt(#[trigger] a.tris@[j], p),
        decreases n - i,
    {
        if tri_contains_pt(&a.tris[i], p) {
            return true;
        }
        i = i + 1;
    }
    false
}

/// Some boundary edge of the polygon meets some edge of the rectangle.
pub open spec fn spec_poly_edge_meets_rt(a: Polygon, b: Rt) -> bool {
    exists|i: int, j: int|
        0 <= i < a.pts@.len() && 0 <= j < 4 && spec_seg_intersects(
            #[trigger] spec_poly_edge(a, i),
            #[trigger] spec_rt_edge(b, j),
        )
}

fn poly_edge_meets_rt(a: &Polygon, b: &Rt) -> (r: bool)
    requires
        a.wf(),
        b.wf(),
    ensures
        r == spec_poly_edge_meets_rt(*a, *b),
{
    let n = a.pts.len();
    let edges = b.segs();
    let mut i: usize = 0;
    while i < n
        invariant
            a.wf(),
            b.wf(),
            n == a.pts@.len(),
            i <= n,
            edges@[0] == spec_rt_edge(*b, 0),
            edges@[1] == spec_rt_edge(*b, 1),
            edges@[2] == spec_rt_edge(*b, 2),
            edges@[3] == spec_rt_edge(*b, 3),
            forall|k: int, j: int|
                0 <= k < i && 0 <= j < 4 ==> !spec_seg_intersects(
                    #[trigger] spec_poly_edge(*a, k),
                    #[trigger] spec_rt_edge(*b, j),
                ),
        decreases n - i,
    {
        let nx = if i + 1 == n {
            0
        } else {
            i + 1
        };
        let e = Segment { st: a.pts[i], en: a.pts[nx] };
        proof {
            assert(e == spec_poly_edge(*a, i as int));
        }
        if crate::intersects::seg_intersects_seg(&e, &edges[0]) {
            return true;
        }
        if crate::intersects::seg_intersects_seg(&e, &edges[1]) {
            return true;
        }
        if crate::intersects::seg_intersects_seg(&e, &edges[2]) {
            return true;
        }
        if crate::intersects::seg_intersects_seg(&e, &edges[3]) {
            return true;
        }
        i = i + 1;
    }
    false
}

/// The polygon contains the rectangle: every corner of the rectangle lies in
/// the polygon and no boundary edge of the polygon meets an edge of the
/// rectangle.
pub open spec fn spec_polygon_contains_rt(a: Polygon, b: Rt) -> bool {
    &&& spec_polygon_contains_pt(a, Pt { x: b.x0, y: b.y0 })
    &&& spec_polygon_contains_pt(a, Pt { x: b.x1, y: b.y0 })
    &&& spec_polygon_contains_pt(a, Pt { x: b.x1, y: b.y1 })
    &&& spec_polygon_contains_pt(a, Pt { x: b.x0, y: b.y1 })
    &&& !spec_poly_edge_meets_rt(a, b)
}

pub fn polygon_contains_rt(a: &Polygon, b: &Rt) -> (r: bool)
    requires
        a.wf(),
        b.wf(),
    ensures
        r == spec_polygon_contains_rt(*a, *b),
{
    let corners = b.pts();
    if !polygon_contains_pt(a, corners[0]) {
        return false;
    }
    if !polygon_contains_pt(a, corners[1]) {
        return false;
    }
    if !polygon_contains_pt(a, corners[2]) {
        return false;
    }
    if !polygon_contains_pt(a, corners[3]) {
        return false;
    }
    !poly_edge_meets_rt(a, b)
}

} // verus!
