//! Pairwise intersection predicates over the primitive family.
//!
//! Every predicate is total over well-formed inputs and deterministic, and
//! each has a spec-level mirror so that the kernel laws (symmetry, relation
//! to distance and containment, invariance under rigid motions) can be
//! stated and proved.

use vstd::prelude::*;

verus! {

use crate::math::{spec_orientation, spec_eq_area, spec_cross, orientation, EPS_AREA};
use crate::primitive::{Pt, Rt, Segment, Line, Tri, Capsule, Polygon, Path, pt_ok};
use crate::distance::{spec_rt_seg_dist, rt_seg_dist};

/// Segments intersect: their endpoints lie on opposite sides of each other's
/// supporting line, or a collinear endpoint falls inside the other segment's
/// bounding rectangle.
pub open spec fn spec_seg_intersects(a: Segment, b: Segment) -> bool {
    let a_st = spec_orientation(b.st, b.en, a.st);
    let a_en = spec_orientation(b.st, b.en, a.en);
    let b_st = spec_orientation(a.st, a.en, b.st);
    let b_en = spec_orientation(a.st, a.en, b.en);
    ||| (a_st != a_en && b_st != b_en)
    ||| (a_st == 0 && Rt::spec_enclosing(b.st, b.en).spec_contains(a.st))
    ||| (a_en == 0 && Rt::spec_enclosing(b.st, b.en).spec_contains(a.en))
    ||| (b_st == 0 && Rt::spec_enclosing(a.st, a.en).spec_contains(b.st))
    ||| (b_en == 0 && Rt::spec_enclosing(a.st, a.en).spec_contains(b.en))
}

pub fn seg_intersects_seg(a: &Segment, b: &Segment) -> (r: bool)
    requires
        a.wf(),
        b.wf(),
    ensures
        r == spec_seg_intersects(*a, *b),
{
    let a_st = orientation(b.st, b.en, a.st);
    let a_en = orientation(b.st, b.en, a.en);
    let b_st = orientation(a.st, a.en, b.st);
    let b_en = orientation(a.st, a.en, b.en);
    // No collinear points: everything on different sides.
    if a_st != a_en && b_st != b_en {
        return true;
    }
    // Collinear cases. The bounding rectangles handle vertical and
    // horizontal segments alike.
    let a_rt = Rt::enclosing(a.st, a.en);
    let b_rt = Rt::enclosing(b.st, b.en);
    if a_st == 0 && b_rt.contains(a.st) {
        return true;
    }
    if a_en == 0 && b_rt.contains(a.en) {
        return true;
    }
    if b_st == 0 && a_rt.contains(b.st) {
        return true;
    }
    if b_en == 0 && a_rt.contains(b.en) {
        return true;
    }
    false
}

/// Infinite lines intersect exactly when they are not parallel (within the
/// area tolerance).
pub open spec fn spec_line_intersects_line(a: Line, b: Line) -> bool {
    !spec_eq_area(
        (a.en.x - a.st.x) * (b.en.y - b.st.y) - (a.en.y - a.st.y) * (b.en.x - b.st.x),
        0,
    )
}

pub fn line_intersects_line(a: &Line, b: &Line) -> (r: bool)
    requires
        a.wf(),
        b.wf(),
    ensures
        r == spec_line_intersects_line(*a, *b),
{
    let adx: i128 = a.en.x as i128 - a.st.x as i128;
    let ady: i128 = a.en.y as i128 - a.st.y as i128;
    let bdx: i128 = b.en.x as i128 - b.st.x as i128;
    let bdy: i128 = b.en.y as i128 - b.st.y as i128;
    proof {
        crate::math::lemma_mul_bound(adx as int, bdy as int);
        crate::math::lemma_mul_bound(ady as int, bdx as int);
    }
    let c: i128 = adx * bdy - ady * bdx;
    !(-EPS_AREA <= c && c <= EPS_AREA)
}

/// A line meets a segment unless both segment endpoints lie strictly on the
/// same side of it.
pub open spec fn spec_line_intersects_seg(a: Line, b: Segment) -> bool {
    let o_st = spec_orientation(a.st, a.en, b.st);
    let o_en = spec_orientation(a.st, a.en, b.en);
    o_st != o_en || o_st == 0
}

pub fn line_intersects_seg(a: &Line, b: &Segment) -> (r: bool)
    requires
        a.wf(),
        b.wf(),
    ensures
        r == spec_line_intersects_seg(*a, *b),
{
    let o_st = orientation(a.st, a.en, b.st);
    let o_en = orientation(a.st, a.en, b.en);
    o_st != o_en || o_st == 0
}

pub open spec fn spec_rt_intersects_rt(a: Rt, b: Rt) -> bool {
    a.spec_intersects(b)
}

pub fn rt_intersects_rt(a: &Rt, b: &Rt) -> (r: bool)
    ensures
        r == spec_rt_intersects_rt(*a, *b),
{
    a.intersects(b)
}

/// Signed projection of `p` onto the normal of the directed edge `st -> en`,
/// relative to `st`: the cross product of `en - st` and `p - st`.
pub open spec fn spec_edge_proj(st: Pt, en: Pt, p: Pt) -> int {
    spec_cross(st, en, p)
}

/// The directed edge `st -> en` of a triangle whose third vertex is `opp`
/// separates the triangle from the rectangle: the rectangle's corners all
/// project strictly beyond the triangle's projection range on the edge
/// normal.
pub open spec fn spec_tri_edge_separates(st: Pt, en: Pt, opp: Pt, b: Rt) -> bool {
    let d = spec_edge_proj(st, en, opp);
    let lo = if d < 0 { d } else { 0 };
    let hi = if d < 0 { 0 } else { d };
    let c0 = spec_edge_proj(st, en, Pt { x: b.x0, y: b.y0 });
    let c1 = spec_edge_proj(st, en, Pt { x: b.x1, y: b.y0 });
    let c2 = spec_edge_proj(st, en, Pt { x: b.x1, y: b.y1 });
    let c3 = spec_edge_proj(st, en, Pt { x: b.x0, y: b.y1 });
    let m = 3 * (EPS_AREA as int);
    ||| (c0 + m < lo && c1 + m < lo && c2 + m < lo && c3 + m < lo)
    ||| (hi + m < c0 && hi + m < c1 && hi + m < c2 && hi + m < c3)
}

fn tri_edge_separates(st: Pt, en: Pt, opp: Pt, b: &Rt) -> (r: bool)
    requires
        pt_ok(st),
        pt_ok(en),
        pt_ok(opp),
        b.wf(),
    ensures
        r == spec_tri_edge_separates(st, en, opp, *b),
{
    let d = crate::math::cross_at(st, en, opp);
    let lo: i128 = if d < 0 { d } else { 0 };
    let hi: i128 = if d < 0 { 0 } else { d };
    let c0 = crate::math::cross_at(st, en, Pt { x: b.x0, y: b.y0 });
    let c1 = crate::math::cross_at(st, en, Pt { x: b.x1, y: b.y0 });
    let c2 = crate::math::cross_at(st, en, Pt { x: b.x1, y: b.y1 });
    let c3 = crate::math::cross_at(st, en, Pt { x: b.x0, y: b.y1 });
    let m: i128 = 3 * EPS_AREA;
    (c0 + m < lo && c1 + m < lo && c2 + m < lo && c3 + m < lo)
        || (hi + m < c0 && hi + m < c1 && hi + m < c2 && hi + m < c3)
}

/// Separating-axis test: the rectangle's two axes reduce to a bounding-box
/// overlap check, and each triangle edge normal is tried explicitly.
/// Non-separating on every axis means intersection.
pub open spec fn spec_rt_intersects_tri(a: Rt, b: Tri) -> bool {
    &&& a.spec_intersects(
        Rt::spec_enclosing(b.a, b.b).spec_union(Rt::spec_enclosing(b.c, b.c)),
    )
    &&& !spec_tri_edge_separates(b.a, b.b, b.c, a)
    &&& !spec_tri_edge_separates(b.b, b.c, b.a, a)
    &&& !spec_tri_edge_separates(b.c, b.a, b.b, a)
}

pub fn rt_intersects_tri(a: &Rt, b: &Tri) -> (r: bool)
    requires
        a.wf(),
        b.wf(),
    ensures
        r == spec_rt_intersects_tri(*a, *b),
{
    let tb = b.bounds();
    if !a.intersects(&tb) {
        return false;
    }
    if tri_edge_separates(b.a, b.b, b.c, a) {
        return false;
    }
    if tri_edge_separates(b.b, b.c, b.a, a) {
        return false;
    }
    if tri_edge_separates(b.c, b.a, b.b, a) {
        return false;
    }
    true
}

/// A segment meets a rectangle when an endpoint is inside it or the segment
/// crosses one of its edges.
pub open spec fn spec_rt_intersects_seg(a: Rt, b: Segment) -> bool {
    ||| a.spec_contains(b.st)
    ||| a.spec_contains(b.en)
    ||| spec_seg_intersects(Segment { st: Pt { x: a.x0, y: a.y0 }, en: Pt { x: a.x1, y: a.y0 } }, b)
    ||| spec_seg_intersects(Segment { st: Pt { x: a.x1, y: a.y0 }, en: Pt { x: a.x1, y: a.y1 } }, b)
    ||| spec_seg_intersects(Segment { st: Pt { x: a.x1, y: a.y1 }, en: Pt { x: a.x0, y: a.y1 } }, b)
    ||| spec_seg_intersects(Segment { st: Pt { x: a.x0, y: a.y1 }, en: Pt { x: a.x0, y: a.y0 } }, b)
}

pub fn rt_intersects_seg(a: &Rt, b: &Segment) -> (r: bool)
    requires
        a.wf(),
        b.wf(),
    ensures
        r == spec_rt_intersects_seg(*a, *b),
{
    if a.contains(b.st) || a.contains(b.en) {
        return true;
    }
    let edges = a.segs();
    if seg_intersects_seg(&edges[0], b) {
        return true;
    }
    if seg_intersects_seg(&edges[1], b) {
        return true;
    }
    if seg_intersects_seg(&edges[2], b) {
        return true;
    }
    if seg_intersects_seg(&edges[3], b) {
        return true;
    }
    false
}

/// A capsule meets a rectangle when an endpoint of its axis is inside, or
/// the axis comes within the capsule radius of the rectangle.
pub open spec fn spec_cap_intersects_rt(a: Capsule, b: Rt) -> bool {
    ||| b.spec_contains(a.st)
    ||| b.spec_contains(a.en)
    ||| crate::math::spec_le(spec_rt_seg_dist(b, a.spec_seg()), a.r as int)
}

pub fn cap_intersect_rt(a: &Capsule, b: &Rt) -> (r: bool)
    requires
        a.wf(),
        b.wf(),
    ensures
        r == spec_cap_intersects_rt(*a, *b),
{
    if b.contains(a.st) || b.contains(a.en) {
        true
    } else {
        crate::math::le(rt_seg_dist(b, &a.seg()), a.r)
    }
}

/// A path meets a rectangle when any of its capsules does.
pub open spec fn spec_path_intersects_rt(a: Path, b: Rt) -> bool {
    exists|i: int| 0 <= i < a.pts@.len() - 1 && spec_cap_intersects_rt(#[trigger] a.spec_cap(i), b)
}

pub fn path_intersects_rt(a: &Path, b: &Rt) -> (r: bool)
    requires
        a.wf(),
        b.wf(),
    ensures
        r == spec_path_intersects_rt(*a, *b),
{
    let n = a.pts.len();
    let mut i: usize = 0;
    while i < n - 1
        invariant
            a.wf(),
            b.wf(),
            n == a.pts@.len(),
            2 <= n,
            i <= n - 1,
            forall|j: int| 0 <= j < i ==> !spec_cap_intersects_rt(#[trigger] a.spec_cap(j), *b),
        decreases n - 1 - i,
    {
        let c = a.cap_at(i);
        if cap_intersect_rt(&c, b) {
            return true;
        }
        i = i + 1;
    }
    false
}

/// A polygon meets a rectangle when any triangle of its triangulation does.
pub open spec fn spec_poly_intersects_rt(a: Polygon, b: Rt) -> bool {
    exists|i: int| 0 <= i < a.tris@.len() && spec_rt_intersects_tri(b, #[trigger] a.tris@[i])
}

pub fn poly_intersects_rt(a: &Polygon, b: &Rt) -> (r: bool)
    requires
        a.wf(),
        b.wf(),
    ensures
        r == spec_poly_intersects_rt(*a, *b),
{
    let n = a.tris.len();
    let mut i: usize = 0;
    while i < n
        invariant
            a.wf(),
            b.wf(),
            n == a.tris@.len(),
            i <= n,
            forall|j: int| 0 <= j < i ==> !spec_rt_intersects_tri(*b, #[trigger] a.tris@[j]),
        decreases n - i,
    {
        if rt_intersects_tri(b, &a.tris[i]) {
            return true;
        }
        i = i + 1;
    }
    false
}

/// Rectangle–polygon intersection, the other way round.
pub fn rt_intersects_polygon(a: &Rt, b: &Polygon) -> (r: bool)
    requires
        a.wf(),
        b.wf(),
    ensures
        r == spec_poly_intersects_rt(*b, *a),
{
    poly_intersects_rt(b, a)
}

} // verus!
