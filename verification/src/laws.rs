//! Kernel laws, stated and proved over the spec-level predicates: symmetry
//! of intersection, distance vanishing on intersection, containment implying
//! intersection, and invariance of the segment predicate under translation,
//! negation, quarter-turn rotation, endpoint reversal and argument order.

use vstd::prelude::*;

verus! {

use crate::coord_ok;
use crate::math::{EPS_AREA, spec_cross};
use crate::primitive::{Pt, Rt, Segment, Line, Polygon, pt_ok};
use crate::intersects::{
    spec_seg_intersects, spec_line_intersects_line, spec_rt_intersects_rt, spec_rt_intersects_tri,
    spec_tri_edge_separates, spec_poly_intersects_rt,
};
use crate::distance::{
    spec_seg_seg_dist, spec_rt_rt_dist, spec_circ_rt_dist, spec_circ_intersects_rt,
};
use crate::contains::{
    spec_rt_contains_rt, spec_polygon_contains_rt, spec_tri_contains_pt, spec_polygon_contains_pt,
};
use crate::shape::Shape;

/// Segment intersection does not depend on the order of its arguments.
pub proof fn lemma_seg_intersects_sym(a: Segment, b: Segment)
    ensures
        spec_seg_intersects(a, b) == spec_seg_intersects(b, a),
{
}

/// Rectangle intersection does not depend on the order of its arguments.
pub proof fn lemma_rt_intersects_sym(a: Rt, b: Rt)
    ensures
        spec_rt_intersects_rt(a, b) == spec_rt_intersects_rt(b, a),
{
}

/// Line intersection does not depend on the order of its arguments.
pub proof fn lemma_line_intersects_sym(a: Line, b: Line)
    ensures
        spec_line_intersects_line(a, b) == spec_line_intersects_line(b, a),
{
    let ca = (a.en.x - a.st.x) * (b.en.y - b.st.y) - (a.en.y - a.st.y) * (b.en.x - b.st.x);
    let cb = (b.en.x - b.st.x) * (a.en.y - a.st.y) - (b.en.y - b.st.y) * (a.en.x - a.st.x);
    assert(ca == -cb) by (nonlinear_arith)
        requires
            ca == (a.en.x - a.st.x) * (b.en.y - b.st.y) - (a.en.y - a.st.y) * (b.en.x - b.st.x),
            cb == (b.en.x - b.st.x) * (a.en.y - a.st.y) - (b.en.y - b.st.y) * (a.en.x - a.st.x),
    ;
}

/// Intersection of shapes is symmetric: whenever a pair is supported, so is
/// the flipped pair, and the answers agree.
pub proof fn lemma_shape_intersects_sym(a: Shape, b: Shape)
    requires
        a.intersects_supported(b),
    ensures
        b.intersects_supported(a),
        a.spec_intersects(b) == b.spec_intersects(a),
{
    match (a, b) {
        (Shape::Segment(x), Shape::Segment(y)) => lemma_seg_intersects_sym(x, y),
        (Shape::Rect(x), Shape::Rect(y)) => lemma_rt_intersects_sym(x, y),
        (Shape::Line(x), Shape::Line(y)) => lemma_line_intersects_sym(x, y),
        (Shape::Point(x), Shape::Point(y)) => lemma_seg_intersects_sym(
            Segment { st: x, en: x },
            Segment { st: y, en: y },
        ),
        _ => {},
    }
}

/// Intersecting segments are at distance zero.
pub proof fn lemma_seg_intersects_dist_zero(a: Segment, b: Segment)
    requires
        spec_seg_intersects(a, b),
    ensures
        spec_seg_seg_dist(a, b) == 0,
{
}

/// Intersecting rectangles are at distance zero.
pub proof fn lemma_rt_intersects_dist_zero(a: Rt, b: Rt)
    requires
        spec_rt_intersects_rt(a, b),
    ensures
        spec_rt_rt_dist(a, b) == 0,
{
}

/// A circle intersecting a rectangle is at distance zero from it.
pub proof fn lemma_circ_intersects_dist_zero(a: crate::primitive::Circle, b: Rt)
    requires
        spec_circ_intersects_rt(a, b),
    ensures
        spec_circ_rt_dist(a, b) == 0,
{
}

/// A capsule whose axis comes within the capsule radius of a rectangle is at
/// distance zero from it.
pub proof fn lemma_cap_touching_dist_zero(a: crate::primitive::Capsule, b: Rt)
    requires
        crate::distance::spec_rt_seg_dist(b, a.spec_seg()) <= a.r,
    ensures
        crate::distance::spec_cap_rt_dist(a, b) == 0,
{
}

/// A rectangle containing another intersects it.
pub proof fn lemma_rt_contains_implies_intersects(a: Rt, b: Rt)
    requires
        a.wf(),
        b.wf(),
        spec_rt_contains_rt(a, b),
    ensures
        spec_rt_intersects_rt(a, b),
{
}

/// The cyclic sum of the cross products of a point against a triangle's
/// edges is the triangle's own cross product.
pub proof fn lemma_barycentric(a: Pt, b: Pt, c: Pt, p: Pt)
    ensures
        spec_cross(a, b, p) + spec_cross(b, c, p) + spec_cross(c, a, p) == spec_cross(a, b, c),
{
    // Expand each product into monomials; the cyclic sum then cancels
    // linearly.
    assert((b.x - a.x) * (p.y - a.y) == b.x * p.y - a.y * b.x - a.x * p.y + a.x * a.y)
        by (nonlinear_arith);
    assert((b.y - a.y) * (p.x - a.x) == b.y * p.x - a.x * b.y - a.y * p.x + a.x * a.y)
        by (nonlinear_arith);
    assert((c.x - b.x) * (p.y - b.y) == c.x * p.y - b.y * c.x - b.x * p.y + b.x * b.y)
        by (nonlinear_arith);
    assert((c.y - b.y) * (p.x - b.x) == c.y * p.x - b.x * c.y - b.y * p.x + b.x * b.y)
        by (nonlinear_arith);
    assert((a.x - c.x) * (p.y - c.y) == a.x * p.y - a.x * c.y - c.x * p.y + c.x * c.y)
        by (nonlinear_arith);
    assert((a.y - c.y) * (p.x - c.x) == a.y * p.x - a.y * c.x - c.y * p.x + c.x * c.y)
        by (nonlinear_arith);
    assert((b.x - a.x) * (c.y - a.y) == b.x * c.y - a.y * b.x - a.x * c.y + a.x * a.y)
        by (nonlinear_arith);
    assert((b.y - a.y) * (c.x - a.x) == b.y * c.x - a.x * b.y - a.y * c.x + a.x * a.y)
        by (nonlinear_arith);
}

/// A triangle edge cannot separate the triangle from a rectangle whose
/// minimum corner the triangle tolerantly contains, counter-clockwise case.
proof fn lemma_edge_not_sep_ccw(st: Pt, en: Pt, opp: Pt, b: Rt, c: Pt)
    requires
        c == (Pt { x: b.x0, y: b.y0 }),
        spec_cross(st, en, c) >= -(EPS_AREA as int),
        spec_cross(en, opp, c) >= -(EPS_AREA as int),
        spec_cross(opp, st, c) >= -(EPS_AREA as int),
    ensures
        !spec_tri_edge_separates(st, en, opp, b),
{
    lemma_barycentric(st, en, opp, c);
}

/// The same, clockwise case.
proof fn lemma_edge_not_sep_cw(st: Pt, en: Pt, opp: Pt, b: Rt, c: Pt)
    requires
        c == (Pt { x: b.x0, y: b.y0 }),
        spec_cross(st, en, c) <= EPS_AREA as int,
        spec_cross(en, opp, c) <= EPS_AREA as int,
        spec_cross(opp, st, c) <= EPS_AREA as int,
    ensures
        !spec_tri_edge_separates(st, en, opp, b),
{
    lemma_barycentric(st, en, opp, c);
}

/// A triangle that tolerantly contains a rectangle's minimum corner
/// intersects that rectangle.
pub proof fn lemma_tri_contains_corner_implies_intersects(t: crate::primitive::Tri, b: Rt)
    requires
        b.wf(),
        spec_tri_contains_pt(t, Pt { x: b.x0, y: b.y0 }),
    ensures
        spec_rt_intersects_tri(b, t),
{
    let c = Pt { x: b.x0, y: b.y0 };
    if crate::math::spec_orientation(t.a, t.b, t.c) >= 0 {
        lemma_edge_not_sep_ccw(t.a, t.b, t.c, b, c);
        lemma_edge_not_sep_ccw(t.b, t.c, t.a, b, c);
        lemma_edge_not_sep_ccw(t.c, t.a, t.b, b, c);
    } else {
        lemma_edge_not_sep_cw(t.a, t.b, t.c, b, c);
        lemma_edge_not_sep_cw(t.b, t.c, t.a, b, c);
        lemma_edge_not_sep_cw(t.c, t.a, t.b, b, c);
    }
}

/// A polygon containing a rectangle intersects it.
pub proof fn lemma_polygon_contains_implies_intersects(a: Polygon, b: Rt)
    requires
        b.wf(),
        spec_polygon_contains_rt(a, b),
    ensures
        spec_poly_intersects_rt(a, b),
{
    let c = Pt { x: b.x0, y: b.y0 };
    assert(spec_polygon_contains_pt(a, c));
    let i = choose|i: int| 0 <= i < a.tris@.len() && spec_tri_contains_pt(#[trigger] a.tris@[i], c);
    lemma_tri_contains_corner_implies_intersects(a.tris@[i], b);
}

/// Shape-level form: wherever both dispatches cover a pair, containment
/// implies intersection.
pub proof fn lemma_shape_contains_implies_intersects(a: Shape, b: Shape)
    requires
        a.contains_supported(b),
        a.intersects_supported(b),
        a.spec_shape_contains(b),
        match a {
            Shape::Rect(r) => r.wf(),
            _ => true,
        },
        match b {
            Shape::Rect(r) => r.wf(),
            _ => true,
        },
    ensures
        a.spec_intersects(b),
{
    match (a, b) {
        (Shape::Polygon(x), Shape::Rect(y)) => lemma_polygon_contains_implies_intersects(x, y),
        (Shape::Rect(x), Shape::Rect(y)) => lemma_rt_contains_implies_intersects(x, y),
        _ => {},
    }
}

/// Translation of a point by an integer vector, which must stay in range.
pub open spec fn pt_translate(p: Pt, dx: i64, dy: i64) -> Pt {
    Pt { x: (p.x + dx) as i64, y: (p.y + dy) as i64 }
}

/// The translated point stays within the kernel's working range.
pub open spec fn tr_ok(p: Pt, dx: i64, dy: i64) -> bool {
    coord_ok(p.x + dx) && coord_ok(p.y + dy)
}

/// Negation of both coordinates.
pub open spec fn pt_negate(p: Pt) -> Pt {
    Pt { x: (-p.x) as i64, y: (-p.y) as i64 }
}

/// Counter-clockwise quarter-turn rotation about the origin.
pub open spec fn pt_rot90(p: Pt) -> Pt {
    Pt { x: (-p.y) as i64, y: p.x }
}

pub open spec fn seg_translate(s: Segment, dx: i64, dy: i64) -> Segment {
    Segment { st: pt_translate(s.st, dx, dy), en: pt_translate(s.en, dx, dy) }
}

pub open spec fn seg_negate(s: Segment) -> Segment {
    Segment { st: pt_negate(s.st), en: pt_negate(s.en) }
}

pub open spec fn seg_rot90(s: Segment) -> Segment {
    Segment { st: pt_rot90(s.st), en: pt_rot90(s.en) }
}

/// Cross products are invariant under translation.
pub proof fn lemma_cross_translate(o: Pt, a: Pt, b: Pt, dx: i64, dy: i64)
    requires
        tr_ok(o, dx, dy),
        tr_ok(a, dx, dy),
        tr_ok(b, dx, dy),
    ensures
        spec_cross(pt_translate(o, dx, dy), pt_translate(a, dx, dy), pt_translate(b, dx, dy))
            == spec_cross(o, a, b),
{
}

/// Cross products are invariant under negation of all coordinates.
pub proof fn lemma_cross_negate(o: Pt, a: Pt, b: Pt)
    requires
        pt_ok(o),
        pt_ok(a),
        pt_ok(b),
    ensures
        spec_cross(pt_negate(o), pt_negate(a), pt_negate(b)) == spec_cross(o, a, b),
{
    let no = pt_negate(o);
    let na = pt_negate(a);
    let nb = pt_negate(b);
    assert((na.x - no.x) * (nb.y - no.y) - (na.y - no.y) * (nb.x - no.x) == (a.x - o.x) * (b.y
        - o.y) - (a.y - o.y) * (b.x - o.x)) by (nonlinear_arith)
        requires
            na.x == -(a.x as int),
            na.y == -(a.y as int),
            nb.x == -(b.x as int),
            nb.y == -(b.y as int),
            no.x == -(o.x as int),
            no.y == -(o.y as int),
    ;
}

/// Cross products are invariant under a quarter-turn rotation.
pub proof fn lemma_cross_rot90(o: Pt, a: Pt, b: Pt)
    requires
        pt_ok(o),
        pt_ok(a),
        pt_ok(b),
    ensures
        spec_cross(pt_rot90(o), pt_rot90(a), pt_rot90(b)) == spec_cross(o, a, b),
{
    let no = pt_rot90(o);
    let na = pt_rot90(a);
    let nb = pt_rot90(b);
    assert((na.x - no.x) * (nb.y - no.y) - (na.y - no.y) * (nb.x - no.x) == (a.x - o.x) * (b.y
        - o.y) - (a.y - o.y) * (b.x - o.x)) by (nonlinear_arith)
        requires
            na.x == -(a.y as int),
            na.y == a.x as int,
            nb.x == -(b.y as int),
            nb.y == b.x as int,
            no.x == -(o.y as int),
            no.y == o.x as int,
    ;
}

/// Reversing a directed line flips the sign of the cross product.
pub proof fn lemma_cross_rev(st: Pt, en: Pt, p: Pt)
    ensures
        spec_cross(en, st, p) == -spec_cross(st, en, p),
{
    assert((st.x - en.x) * (p.y - en.y) - (st.y - en.y) * (p.x - en.x) == -((en.x - st.x) * (p.y
        - st.y) - (en.y - st.y) * (p.x - st.x))) by (nonlinear_arith);
}

/// Segment intersection is invariant under translation.
pub proof fn lemma_seg_intersects_translate(a: Segment, b: Segment, dx: i64, dy: i64)
    requires
        tr_ok(a.st, dx, dy),
        tr_ok(a.en, dx, dy),
        tr_ok(b.st, dx, dy),
        tr_ok(b.en, dx, dy),
    ensures
        spec_seg_intersects(seg_translate(a, dx, dy), seg_translate(b, dx, dy))
            == spec_seg_intersects(a, b),
{
    lemma_cross_translate(b.st, b.en, a.st, dx, dy);
    lemma_cross_translate(b.st, b.en, a.en, dx, dy);
    lemma_cross_translate(a.st, a.en, b.st, dx, dy);
    lemma_cross_translate(a.st, a.en, b.en, dx, dy);
}

/// Segment intersection is invariant under negation of all coordinates.
pub proof fn lemma_seg_intersects_negate(a: Segment, b: Segment)
    requires
        a.wf(),
        b.wf(),
    ensures
        spec_seg_intersects(seg_negate(a), seg_negate(b)) == spec_seg_intersects(a, b),
{
    lemma_cross_negate(b.st, b.en, a.st);
    lemma_cross_negate(b.st, b.en, a.en);
    lemma_cross_negate(a.st, a.en, b.st);
    lemma_cross_negate(a.st, a.en, b.en);
}

/// Segment intersection is invariant under a quarter-turn rotation.
pub proof fn lemma_seg_intersects_rot90(a: Segment, b: Segment)
    requires
        a.wf(),
        b.wf(),
    ensures
        spec_seg_intersects(seg_rot90(a), seg_rot90(b)) == spec_seg_intersects(a, b),
{
    lemma_cross_rot90(b.st, b.en, a.st);
    lemma_cross_rot90(b.st, b.en, a.en);
    lemma_cross_rot90(a.st, a.en, b.st);
    lemma_cross_rot90(a.st, a.en, b.en);
}

/// Segment intersection is invariant under reversing a segment's endpoints.
pub proof fn lemma_seg_intersects_rev(a: Segment, b: Segment)
    ensures
        spec_seg_intersects(Segment { st: a.en, en: a.st }, b) == spec_seg_intersects(a, b),
{
    lemma_cross_rev(b.st, b.en, a.st);
    lemma_cross_rev(b.st, b.en, a.en);
    lemma_cross_rev(a.st, a.en, b.st);
    lemma_cross_rev(a.st, a.en, b.en);
}

} // verus!
