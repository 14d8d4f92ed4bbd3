//! The closed tagged union over the primitive family, with pairwise
//! predicate dispatch. Symmetry is exploited: each unordered pair is handled
//! by one kernel function.

use vstd::prelude::*;

verus! {

use crate::primitive::{Pt, Rt, Segment, Line, Tri, Circle, Polygon, Path, pt_ok, poly};
use crate::intersects::{
    spec_seg_intersects, spec_line_intersects_line, spec_line_intersects_seg,
    spec_rt_intersects_rt, spec_rt_intersects_tri, spec_rt_intersects_seg,
    spec_path_intersects_rt, spec_poly_intersects_rt,
    seg_intersects_seg, line_intersects_line, line_intersects_seg, rt_intersects_rt,
    rt_intersects_tri, rt_intersects_seg, path_intersects_rt, poly_intersects_rt,
};
use crate::distance::{spec_circ_intersects_rt, circ_intersect_rt};
use crate::contains::{
    spec_rt_contains_rt, spec_polygon_contains_rt, spec_polygon_contains_pt, rt_contains_rt,
    polygon_contains_rt, polygon_contains_pt,
};

/// A shape: one of the closed family of primitives.
#[derive(Clone, Debug)]
pub enum Shape {
    Circle(Circle),
    Line(Line),
    Path(Path),
    Point(Pt),
    Polygon(Polygon),
    Rect(Rt),
    Segment(Segment),
    Tri(Tri),
}

impl Shape {
    pub open spec fn wf(self) -> bool {
        match self {
            Shape::Circle(s) => s.wf(),
            Shape::Line(s) => s.wf(),
            Shape::Path(s) => s.wf(),
            Shape::Point(s) => pt_ok(s),
            Shape::Polygon(s) => s.wf(),
            Shape::Rect(s) => s.wf(),
            Shape::Segment(s) => s.wf(),
            Shape::Tri(s) => s.wf(),
        }
    }

    /// The unordered pairs the intersection dispatch covers. A point is
    /// treated as a degenerate segment, so it pairs with points, segments
    /// and rectangles.
    pub open spec fn intersects_supported(self, s: Shape) -> bool {
        match (self, s) {
            (Shape::Circle(_), Shape::Rect(_)) => true,
            (Shape::Rect(_), Shape::Circle(_)) => true,
            (Shape::Line(_), Shape::Line(_)) => true,
            (Shape::Line(_), Shape::Segment(_)) => true,
            (Shape::Segment(_), Shape::Line(_)) => true,
            (Shape::Path(_), Shape::Rect(_)) => true,
            (Shape::Rect(_), Shape::Path(_)) => true,
            (Shape::Polygon(_), Shape::Rect(_)) => true,
            (Shape::Rect(_), Shape::Polygon(_)) => true,
            (Shape::Rect(_), Shape::Rect(_)) => true,
            (Shape::Rect(_), Shape::Segment(_)) => true,
            (Shape::Segment(_), Shape::Rect(_)) => true,
            (Shape::Rect(_), Shape::Tri(_)) => true,
            (Shape::Tri(_), Shape::Rect(_)) => true,
            (Shape::Segment(_), Shape::Segment(_)) => true,
            (Shape::Point(_), Shape::Point(_)) => true,
            (Shape::Point(_), Shape::Segment(_)) => true,
            (Shape::Segment(_), Shape::Point(_)) => true,
            (Shape::Point(_), Shape::Rect(_)) => true,
            (Shape::Rect(_), Shape::Point(_)) => true,
            _ => false,
        }
    }

    /// What the dispatch computes for each supported pair; symmetric by
    /// construction.
    pub open spec fn spec_intersects(self, s: Shape) -> bool {
        match (self, s) {
            (Shape::Circle(a), Shape::Rect(b)) => spec_circ_intersects_rt(a, b),
            (Shape::Rect(a), Shape::Circle(b)) => spec_circ_intersects_rt(b, a),
            (Shape::Line(a), Shape::Line(b)) => spec_line_intersects_line(a, b),
            (Shape::Line(a), Shape::Segment(b)) => spec_line_intersects_seg(a, b),
            (Shape::Segment(a), Shape::Line(b)) => spec_line_intersects_seg(b, a),
            (Shape::Path(a), Shape::Rect(b)) => spec_path_intersects_rt(a, b),
            (Shape::Rect(a), Shape::Path(b)) => spec_path_intersects_rt(b, a),
            (Shape::Polygon(a), Shape::Rect(b)) => spec_poly_intersects_rt(a, b),
            (Shape::Rect(a), Shape::Polygon(b)) => spec_poly_intersects_rt(b, a),
            (Shape::Rect(a), Shape::Rect(b)) => spec_rt_intersects_rt(a, b),
            (Shape::Rect(a), Shape::Segment(b)) => spec_rt_intersects_seg(a, b),
            (Shape::Segment(a), Shape::Rect(b)) => spec_rt_intersects_seg(b, a),
            (Shape::Rect(a), Shape::Tri(b)) => spec_rt_intersects_tri(a, b),
            (Shape::Tri(a), Shape::Rect(b)) => spec_rt_intersects_tri(b, a),
            (Shape::Segment(a), Shape::Segment(b)) => spec_seg_intersects(a, b),
            (Shape::Point(a), Shape::Point(b)) => spec_seg_intersects(
                Segment { st: a, en: a },
                Segment { st: b, en: b },
            ),
            (Shape::Point(a), Shape::Segment(b)) => spec_seg_intersects(
                Segment { st: a, en: a },
                b,
            ),
            (Shape::Segment(a), Shape::Point(b)) => spec_seg_intersects(
                a,
                Segment { st: b, en: b },
            ),
            (Shape::Point(a), Shape::Rect(b)) => b.spec_contains(a),
            (Shape::Rect(a), Shape::Point(b)) => a.spec_contains(b),
            _ => false,
        }
    }

    pub fn intersects(&self, s: &Shape) -> (r: bool)
        requires
            self.wf(),
            s.wf(),
            self.intersects_supported(*s),
        ensures
            r == self.spec_intersects(*s),
    {
        match (self, s) {
            (Shape::Circle(a), Shape::Rect(b)) => circ_intersect_rt(a, b),
            (Shape::Rect(a), Shape::Circle(b)) => circ_intersect_rt(b, a),
            (Shape::Line(a), Shape::Line(b)) => line_intersects_line(a, b),
            (Shape::Line(a), Shape::Segment(b)) => line_intersects_seg(a, b),
            (Shape::Segment(a), Shape::Line(b)) => line_intersects_seg(b, a),
            (Shape::Path(a), Shape::Rect(b)) => path_intersects_rt(a, b),
            (Shape::Rect(a), Shape::Path(b)) => path_intersects_rt(b, a),
            (Shape::Polygon(a), Shape::Rect(b)) => poly_intersects_rt(a, b),
            (Shape::Rect(a), Shape::Polygon(b)) => poly_intersects_rt(b, a),
            (Shape::Rect(a), Shape::Rect(b)) => rt_intersects_rt(a, b),
            (Shape::Rect(a), Shape::Segment(b)) => rt_intersects_seg(a, b),
            (Shape::Segment(a), Shape::Rect(b)) => rt_intersects_seg(b, a),
            (Shape::Rect(a), Shape::Tri(b)) => rt_intersects_tri(a, b),
            (Shape::Tri(a), Shape::Rect(b)) => rt_intersects_tri(b, a),
            (Shape::Segment(a), Shape::Segment(b)) => seg_intersects_seg(a, b),
            (Shape::Point(a), Shape::Point(b)) => seg_intersects_seg(
                &Segment { st: *a, en: *a },
                &Segment { st: *b, en: *b },
            ),
            (Shape::Point(a), Shape::Segment(b)) => seg_intersects_seg(
                &Segment { st: *a, en: *a },
                b,
            ),
            (Shape::Segment(a), Shape::Point(b)) => seg_intersects_seg(
                a,
                &Segment { st: *b, en: *b },
            ),
            (Shape::Point(a), Shape::Rect(b)) => b.contains(*a),
            (Shape::Rect(a), Shape::Point(b)) => a.contains(*b),
            _ => false,
        }
    }

    /// The ordered pairs the containment dispatch covers.
    pub open spec fn contains_supported(self, s: Shape) -> bool {
        match (self, s) {
            (Shape::Polygon(_), Shape::Rect(_)) => true,
            (Shape::Polygon(_), Shape::Point(_)) => true,
            (Shape::Rect(_), Shape::Rect(_)) => true,
            (Shape::Rect(_), Shape::Point(_)) => true,
            _ => false,
        }
    }

    pub open spec fn spec_shape_contains(self, s: Shape) -> bool {
        match (self, s) {
            (Shape::Polygon(a), Shape::Rect(b)) => spec_polygon_contains_rt(a, b),
            (Shape::Polygon(a), Shape::Point(b)) => spec_polygon_contains_pt(a, b),
            (Shape::Rect(a), Shape::Rect(b)) => spec_rt_contains_rt(a, b),
            (Shape::Rect(a), Shape::Point(b)) => a.spec_contains(b),
            _ => false,
        }
    }

    /// `self` fully contains `s`.
    pub fn contains(&self, s: &Shape) -> (r: bool)
        requires
            self.wf(),
            s.wf(),
            self.contains_supported(*s),
        ensures
            r == self.spec_shape_contains(*s),
    {
        match (self, s) {
            (Shape::Polygon(a), Shape::Rect(b)) => polygon_contains_rt(a, b),
            (Shape::Polygon(a), Shape::Point(b)) => polygon_contains_pt(a, *b),
            (Shape::Rect(a), Shape::Rect(b)) => rt_contains_rt(a, b),
            (Shape::Rect(a), Shape::Point(b)) => a.contains(*b),
            _ => false,
        }
    }

    /// A zero-width path stands for a polygon outline; `filled` turns it
    /// into that polygon. Other shapes are already filled.
    pub open spec fn filled_ok(self) -> bool {
        match self {
            Shape::Path(s) => crate::math::spec_eq(s.r as int, 0) && s.pts@.len() >= 3,
            _ => true,
        }
    }

    /// The vertex ring of `filled`, up to the winding normalization.
    pub open spec fn filled_ring_of(self, r: Shape) -> bool {
        match self {
            Shape::Path(s) => r matches Shape::Polygon(p) && (p.pts@ == s.pts@ || p.pts@
                == s.pts@.reverse()) && p.pts@.len() == s.pts@.len(),
            _ => r == self,
        }
    }

    pub fn filled(self) -> (r: Shape)
        requires
            self.wf(),
            self.filled_ok(),
        ensures
            r.wf(),
            self.filled_ring_of(r),
    {
        match self {
            Shape::Path(s) => Shape::Polygon(poly(s.pts)),
            s => s,
        }
    }

    /// The same geometry: equal up to the identity of the backing vectors.
    pub open spec fn shape_eq(self, o: Shape) -> bool {
        match (self, o) {
            (Shape::Circle(a), Shape::Circle(b)) => a == b,
            (Shape::Line(a), Shape::Line(b)) => a == b,
            (Shape::Path(a), Shape::Path(b)) => a.pts@ == b.pts@ && a.r == b.r,
            (Shape::Point(a), Shape::Point(b)) => a == b,
            (Shape::Polygon(a), Shape::Polygon(b)) => a.pts@ == b.pts@ && a.tris@ == b.tris@,
            (Shape::Rect(a), Shape::Rect(b)) => a == b,
            (Shape::Segment(a), Shape::Segment(b)) => a == b,
            (Shape::Tri(a), Shape::Tri(b)) => a == b,
            _ => false,
        }
    }

    /// An owned copy of the shape: the same geometry, well-formed whenever
    /// the original is.
    pub fn duplicate(&self) -> (r: Shape)
        requires
            self.wf(),
        ensures
            r.wf(),
            r.shape_eq(*self),
    {
        match self {
            Shape::Circle(s) => Shape::Circle(*s),
            Shape::Line(s) => Shape::Line(*s),
            Shape::Path(s) => Shape::Path(
                Path { pts: crate::primitive::clone_copy_vec(&s.pts), r: s.r },
            ),
            Shape::Point(s) => Shape::Point(*s),
            Shape::Polygon(s) => Shape::Polygon(
                Polygon {
                    pts: crate::primitive::clone_copy_vec(&s.pts),
                    tris: crate::primitive::clone_copy_vec(&s.tris),
                },
            ),
            Shape::Rect(s) => Shape::Rect(*s),
            Shape::Segment(s) => Shape::Segment(*s),
            Shape::Tri(s) => Shape::Tri(*s),
        }
    }

    /// The smallest rectangle containing the shape (for a line, the
    /// rectangle spanned by its two defining points).
    pub open spec fn spec_bounds(self) -> Rt {
        match self {
            Shape::Circle(s) => s.spec_bounds(),
            Shape::Line(s) => Rt::spec_enclosing(s.st, s.en),
            Shape::Path(s) => s.spec_bounds(),
            Shape::Point(s) => Rt::spec_enclosing(s, s),
            Shape::Polygon(s) => s.spec_bounds(),
            Shape::Rect(s) => s,
            Shape::Segment(s) => Rt::spec_enclosing(s.st, s.en),
            Shape::Tri(s) => s.spec_bounds(),
        }
    }

    /// Equal geometry has equal bounds.
    pub proof fn lemma_shape_eq_bounds(self, o: Shape)
        requires
            self.shape_eq(o),
        ensures
            self.spec_bounds() == o.spec_bounds(),
    {
    }

    /// Equal geometry is equally well-formed.
    pub proof fn lemma_shape_eq_wf(self, o: Shape)
        requires
            self.shape_eq(o),
        ensures
            self.wf() == o.wf(),
    {
    }

    pub fn bounds(&self) -> (r: Rt)
        requires
            self.wf(),
        ensures
            r.wf(),
            r == self.spec_bounds(),
    {
        match self {
            Shape::Circle(s) => s.bounds(),
            Shape::Line(s) => Rt::enclosing(s.st, s.en),
            Shape::Path(s) => s.bounds(),
            Shape::Point(s) => Rt::enclosing(*s, *s),
            Shape::Polygon(s) => s.bounds(),
            Shape::Rect(s) => *s,
            Shape::Segment(s) => s.bounds(),
            Shape::Tri(s) => s.bounds(),
        }
    }
}

} // verus!
