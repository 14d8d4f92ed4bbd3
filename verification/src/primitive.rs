//! The closed family of geometric primitives. Coordinates are fixed-point
//! integers (internal units); every primitive carries a well-formedness
//! predicate that bounds its coordinates so kernel arithmetic cannot
//! overflow.

use vstd::prelude::*;

verus! {

use crate::COORD_MAX;
use crate::coord_ok;

/// A point: a pair of fixed-point coordinates.
#[derive(Clone, Copy, Debug, PartialEq, Eq, Structural, Hash)]
pub struct Pt {
    pub x: i64,
    pub y: i64,
}

pub open spec fn pt_ok(p: Pt) -> bool {
    coord_ok(p.x as int) && coord_ok(p.y as int)
}

/// The point, padded by `r` in every direction, stays within the kernel's
/// working range.
pub open spec fn pt_pad_ok(p: Pt, r: i64) -> bool {
    &&& coord_ok(p.x - r) && coord_ok(p.x + r)
    &&& coord_ok(p.y - r) && coord_ok(p.y + r)
}

/// A point that fits with a large pad also fits with any smaller one.
pub proof fn lemma_pt_pad_mono(p: Pt, big: i64, small: i64)
    requires
        pt_pad_ok(p, big),
        0 <= small <= big,
    ensures
        pt_pad_ok(p, small),
{
}

pub fn pt(x: i64, y: i64) -> (r: Pt)
    ensures
        r.x == x,
        r.y == y,
{
    Pt { x, y }
}

/// An axis-aligned rectangle, stored as its minimum and maximum corners.
#[derive(Clone, Copy, Debug, PartialEq, Eq, Structural, Hash)]
pub struct Rt {
    pub x0: i64,
    pub y0: i64,
    pub x1: i64,
    pub y1: i64,
}

impl Rt {
    pub open spec fn wf(self) -> bool {
        &&& coord_ok(self.x0 as int)
        &&& coord_ok(self.y0 as int)
        &&& coord_ok(self.x1 as int)
        &&& coord_ok(self.y1 as int)
        &&& self.x0 <= self.x1
        &&& self.y0 <= self.y1
    }

    /// The smallest rectangle holding both `a` and `b`.
    pub fn enclosing(a: Pt, b: Pt) -> (r: Rt)
        requires
            pt_ok(a),
            pt_ok(b),
        ensures
            r.wf(),
            r.x0 == if a.x <= b.x { a.x } else { b.x },
            r.x1 == if a.x <= b.x { b.x } else { a.x },
            r.y0 == if a.y <= b.y { a.y } else { b.y },
            r.y1 == if a.y <= b.y { b.y } else { a.y },
    {
        let x0: i64 = if a.x <= b.x { a.x } else { b.x };
        let x1: i64 = if a.x <= b.x { b.x } else { a.x };
        let y0: i64 = if a.y <= b.y { a.y } else { b.y };
        let y1: i64 = if a.y <= b.y { b.y } else { a.y };
        Rt { x0, y0, x1, y1 }
    }

    pub open spec fn spec_union(self, o: Rt) -> Rt {
        Rt {
            x0: if self.x0 <= o.x0 { self.x0 } else { o.x0 },
            y0: if self.y0 <= o.y0 { self.y0 } else { o.y0 },
            x1: if self.x1 >= o.x1 { self.x1 } else { o.x1 },
            y1: if self.y1 >= o.y1 { self.y1 } else { o.y1 },
        }
    }

    /// The union of two rectangles' extents.
    pub fn union(self, o: Rt) -> (r: Rt)
        requires
            self.wf(),
            o.wf(),
        ensures
            r.wf(),
            r == self.spec_union(o),
    {
        Rt {
            x0: if self.x0 <= o.x0 { self.x0 } else { o.x0 },
            y0: if self.y0 <= o.y0 { self.y0 } else { o.y0 },
            x1: if self.x1 >= o.x1 { self.x1 } else { o.x1 },
            y1: if self.y1 >= o.y1 { self.y1 } else { o.y1 },
        }
    }

    /// Rectangle contains the point, within tolerance.
    pub open spec fn spec_contains(self, p: Pt) -> bool {
        &&& crate::math::spec_le(self.x0 as int, p.x as int)
        &&& crate::math::spec_le(p.x as int, self.x1 as int)
        &&& crate::math::spec_le(self.y0 as int, p.y as int)
        &&& crate::math::spec_le(p.y as int, self.y1 as int)
    }

    pub fn contains(&self, p: Pt) -> (r: bool)
        ensures
            r == self.spec_contains(p),
    {
        crate::math::le(self.x0, p.x) && crate::math::le(p.x, self.x1)
            && crate::math::le(self.y0, p.y) && crate::math::le(p.y, self.y1)
    }

    /// Rectangles overlap, within tolerance.
    pub open spec fn spec_intersects(self, o: Rt) -> bool {
        &&& crate::math::spec_le(self.x0 as int, o.x1 as int)
        &&& crate::math::spec_le(o.x0 as int, self.x1 as int)
        &&& crate::math::spec_le(self.y0 as int, o.y1 as int)
        &&& crate::math::spec_le(o.y0 as int, self.y1 as int)
    }

    pub fn intersects(&self, o: &Rt) -> (r: bool)
        ensures
            r == self.spec_intersects(*o),
    {
        crate::math::le(self.x0, o.x1) && crate::math::le(o.x0, self.x1)
            && crate::math::le(self.y0, o.y1) && crate::math::le(o.y0, self.y1)
    }

    /// `self` encloses every point of `o` (exact, no tolerance).
    pub open spec fn spec_encloses(self, o: Rt) -> bool {
        self.x0 <= o.x0 && o.x1 <= self.x1 && self.y0 <= o.y0 && o.y1 <= self.y1
    }

    pub fn encloses(&self, o: &Rt) -> (r: bool)
        ensures
            r == self.spec_encloses(*o),
    {
        self.x0 <= o.x0 && o.x1 <= self.x1 && self.y0 <= o.y0 && o.y1 <= self.y1
    }

    /// The four corners, counter-clockwise from the minimum corner.
    pub fn pts(&self) -> (r: [Pt; 4])
        requires
            self.wf(),
        ensures
            r[0] == (Pt { x: self.x0, y: self.y0 }),
            r[1] == (Pt { x: self.x1, y: self.y0 }),
            r[2] == (Pt { x: self.x1, y: self.y1 }),
            r[3] == (Pt { x: self.x0, y: self.y1 }),
            forall|i: int| 0 <= i < 4 ==> pt_ok(#[trigger] r[i]),
    {
        [
            Pt { x: self.x0, y: self.y0 },
            Pt { x: self.x1, y: self.y0 },
            Pt { x: self.x1, y: self.y1 },
            Pt { x: self.x0, y: self.y1 },
        ]
    }

    /// The four edges, counter-clockwise from the bottom edge.
    pub fn segs(&self) -> (r: [Segment; 4])
        requires
            self.wf(),
        ensures
            forall|i: int| 0 <= i < 4 ==> (#[trigger] r[i]).wf(),
            r[0] == (Segment { st: Pt { x: self.x0, y: self.y0 }, en: Pt { x: self.x1, y: self.y0 } }),
            r[1] == (Segment { st: Pt { x: self.x1, y: self.y0 }, en: Pt { x: self.x1, y: self.y1 } }),
            r[2] == (Segment { st: Pt { x: self.x1, y: self.y1 }, en: Pt { x: self.x0, y: self.y1 } }),
            r[3] == (Segment { st: Pt { x: self.x0, y: self.y1 }, en: Pt { x: self.x0, y: self.y0 } }),
    {
        let c = self.pts();
        [
            Segment { st: c[0], en: c[1] },
            Segment { st: c[1], en: c[2] },
            Segment { st: c[2], en: c[3] },
            Segment { st: c[3], en: c[0] },
        ]
    }
}

pub fn rt(x0: i64, y0: i64, x1: i64, y1: i64) -> (r: Rt)
    requires
        coord_ok(x0 as int),
        coord_ok(y0 as int),
        coord_ok(x1 as int),
        coord_ok(y1 as int),
        x0 <= x1,
        y0 <= y1,
    ensures
        r == (Rt { x0, y0, x1, y1 }),
        r.wf(),
{
    Rt { x0, y0, x1, y1 }
}

/// A zero-width segment from `st` to `en`; the two may coincide.
#[derive(Clone, Copy, Debug, PartialEq, Eq, Structural, Hash)]
pub struct Segment {
    pub st: Pt,
    pub en: Pt,
}

impl Segment {
    pub open spec fn wf(self) -> bool {
        pt_ok(self.st) && pt_ok(self.en)
    }

    pub fn st(&self) -> (r: Pt)
        ensures
            r == self.st,
    {
        self.st
    }

    pub fn en(&self) -> (r: Pt)
        ensures
            r == self.en,
    {
        self.en
    }

    /// The smallest rectangle containing the segment.
    pub fn bounds(&self) -> (r: Rt)
        requires
            self.wf(),
        ensures
            r.wf(),
            r == Rt::spec_enclosing(self.st, self.en),
    {
        Rt::enclosing(self.st, self.en)
    }
}

impl Rt {
    pub open spec fn spec_enclosing(a: Pt, b: Pt) -> Rt {
        Rt {
            x0: if a.x <= b.x { a.x } else { b.x },
            x1: if a.x <= b.x { b.x } else { a.x },
            y0: if a.y <= b.y { a.y } else { b.y },
            y1: if a.y <= b.y { b.y } else { a.y },
        }
    }
}

pub fn seg(st: Pt, en: Pt) -> (r: Segment)
    ensures
        r.st == st,
        r.en == en,
{
    Segment { st, en }
}

/// An infinite line through `st` and `en`.
#[derive(Clone, Copy, Debug, PartialEq, Eq, Structural, Hash)]
pub struct Line {
    pub st: Pt,
    pub en: Pt,
}

impl Line {
    pub open spec fn wf(self) -> bool {
        pt_ok(self.st) && pt_ok(self.en)
    }
}

pub fn line(st: Pt, en: Pt) -> (r: Line)
    ensures
        r.st == st,
        r.en == en,
{
    Line { st, en }
}

/// A circle with a non-negative radius.
#[derive(Clone, Copy, Debug, PartialEq, Eq, Structural, Hash)]
pub struct Circle {
    pub p: Pt,
    pub r: i64,
}

impl Circle {
    pub open spec fn wf(self) -> bool {
        0 <= self.r && pt_pad_ok(self.p, self.r)
    }

    pub fn p(&self) -> (r: Pt)
        ensures
            r == self.p,
    {
        self.p
    }

    pub fn r(&self) -> (r: i64)
        ensures
            r == self.r,
    {
        self.r
    }

    /// The smallest rectangle containing the circle.
    pub open spec fn spec_bounds(self) -> Rt {
        Rt {
            x0: (self.p.x - self.r) as i64,
            y0: (self.p.y - self.r) as i64,
            x1: (self.p.x + self.r) as i64,
            y1: (self.p.y + self.r) as i64,
        }
    }

    pub fn bounds(&self) -> (r: Rt)
        requires
            self.wf(),
        ensures
            r.wf(),
            r == self.spec_bounds(),
            r.x0 == self.p.x - self.r,
            r.y0 == self.p.y - self.r,
            r.x1 == self.p.x + self.r,
            r.y1 == self.p.y + self.r,
    {
        Rt { x0: self.p.x - self.r, y0: self.p.y - self.r, x1: self.p.x + self.r, y1: self.p.y + self.r }
    }
}

pub fn circ(p: Pt, r: i64) -> (c: Circle)
    ensures
        c.p == p,
        c.r == r,
{
    Circle { p, r }
}

/// A segment expanded by a radius.
#[derive(Clone, Copy, Debug, PartialEq, Eq, Structural, Hash)]
pub struct Capsule {
    pub st: Pt,
    pub en: Pt,
    pub r: i64,
}

impl Capsule {
    pub open spec fn wf(self) -> bool {
        0 <= self.r && pt_pad_ok(self.st, self.r) && pt_pad_ok(self.en, self.r)
    }

    pub fn st(&self) -> (r: Pt)
        ensures
            r == self.st,
    {
        self.st
    }

    pub fn en(&self) -> (r: Pt)
        ensures
            r == self.en,
    {
        self.en
    }

    pub fn r(&self) -> (r: i64)
        ensures
            r == self.r,
    {
        self.r
    }

    /// The capsule's axis.
    pub open spec fn spec_seg(self) -> Segment {
        Segment { st: self.st, en: self.en }
    }

    pub fn seg(&self) -> (r: Segment)
        ensures
            r == self.spec_seg(),
    {
        Segment { st: self.st, en: self.en }
    }

    /// The smallest rectangle containing the capsule.
    pub open spec fn spec_bounds(self) -> Rt {
        let e = Rt::spec_enclosing(self.st, self.en);
        Rt {
            x0: (e.x0 - self.r) as i64,
            y0: (e.y0 - self.r) as i64,
            x1: (e.x1 + self.r) as i64,
            y1: (e.y1 + self.r) as i64,
        }
    }

    pub fn bounds(&self) -> (b: Rt)
        requires
            self.wf(),
        ensures
            b.wf(),
            b == self.spec_bounds(),
    {
        let e = Rt::enclosing(self.st, self.en);
        Rt { x0: e.x0 - self.r, y0: e.y0 - self.r, x1: e.x1 + self.r, y1: e.y1 + self.r }
    }
}

pub fn cap(st: Pt, en: Pt, r: i64) -> (c: Capsule)
    ensures
        c.st == st,
        c.en == en,
        c.r == r,
{
    Capsule { st, en, r }
}

/// A triangle.
#[derive(Clone, Copy, Debug, PartialEq, Eq, Structural, Hash)]
pub struct Tri {
    pub a: Pt,
    pub b: Pt,
    pub c: Pt,
}

impl Tri {
    pub open spec fn wf(self) -> bool {
        pt_ok(self.a) && pt_ok(self.b) && pt_ok(self.c)
    }

    pub fn pts(&self) -> (r: [Pt; 3])
        ensures
            r[0] == self.a,
            r[1] == self.b,
            r[2] == self.c,
    {
        [self.a, self.b, self.c]
    }

    /// The smallest rectangle containing the triangle.
    pub open spec fn spec_bounds(self) -> Rt {
        Rt::spec_enclosing(self.a, self.b).spec_union(Rt::spec_enclosing(self.c, self.c))
    }

    pub fn bounds(&self) -> (r: Rt)
        requires
            self.wf(),
        ensures
            r.wf(),
            r == self.spec_bounds(),
    {
        Rt::enclosing(self.a, self.b).union(Rt::enclosing(self.c, self.c))
    }
}

pub fn tri(a: Pt, b: Pt, c: Pt) -> (t: Tri)
    ensures
        t.a == a,
        t.b == b,
        t.c == c,
{
    Tri { a, b, c }
}

/// The bounding rectangle of the first `n` points of a vertex list.
pub open spec fn pts_bounds(pts: Seq<Pt>, n: int) -> Rt
    decreases n,
{
    if n <= 1 {
        Rt::spec_enclosing(pts[0], pts[0])
    } else {
        pts_bounds(pts, n - 1).spec_union(Rt::spec_enclosing(pts[n - 1], pts[n - 1]))
    }
}

/// A closed simple polygon, triangulated on construction. The triangle list
/// is the polygon's working model: area predicates are defined over it, and
/// boundary predicates over the vertex sequence.
#[derive(Clone, Debug)]
pub struct Polygon {
    pub pts: Vec<Pt>,
    pub tris: Vec<Tri>,
}

impl Polygon {
    pub open spec fn wf(self) -> bool {
        &&& self.pts@.len() >= 3
        &&& forall|i: int| 0 <= i < self.pts@.len() ==> pt_ok(#[trigger] self.pts@[i])
        &&& forall|i: int| 0 <= i < self.tris@.len() ==> (#[trigger] self.tris@[i]).wf()
    }

    /// The smallest rectangle containing the polygon's vertices.
    pub open spec fn spec_bounds(self) -> Rt {
        pts_bounds(self.pts@, self.pts@.len() as int)
    }

    pub fn bounds(&self) -> (r: Rt)
        requires
            self.wf(),
        ensures
            r.wf(),
            r == self.spec_bounds(),
            forall|i: int|
                0 <= i < self.pts@.len() ==> r.spec_encloses(
                    Rt::spec_enclosing(#[trigger] self.pts@[i], self.pts@[i]),
                ),
    {
        let mut r = Rt::enclosing(self.pts[0], self.pts[0]);
        let mut i: usize = 1;
        while i < self.pts.len()
            invariant
                self.wf(),
                1 <= i <= self.pts@.len(),
                r.wf(),
                r == pts_bounds(self.pts@, i as int),
                forall|j: int|
                    0 <= j < i ==> r.spec_encloses(
                        Rt::spec_enclosing(#[trigger] self.pts@[j], self.pts@[j]),
                    ),
            decreases self.pts@.len() - i,
        {
            r = r.union(Rt::enclosing(self.pts[i], self.pts[i]));
            i = i + 1;
        }
        r
    }
}

/// Is any vertex of `idxs` other than positions `ia`, `ib`, `ic` strictly
/// inside the candidate ear?
fn ear_blocked(pts: &Vec<Pt>, idxs: &Vec<usize>, ia: usize, ib: usize, ic: usize) -> (r: bool)
    requires
        forall|i: int| 0 <= i < pts@.len() ==> pt_ok(#[trigger] pts@[i]),
        forall|i: int| 0 <= i < idxs@.len() ==> #[trigger] idxs@[i] < pts@.len(),
        ia < idxs@.len(),
        ib < idxs@.len(),
        ic < idxs@.len(),
{
    let a = pts[idxs[ia]];
    let b = pts[idxs[ib]];
    let c = pts[idxs[ic]];
    let mut k: usize = 0;
    while k < idxs.len()
        invariant
            forall|i: int| 0 <= i < pts@.len() ==> pt_ok(#[trigger] pts@[i]),
            forall|i: int| 0 <= i < idxs@.len() ==> #[trigger] idxs@[i] < pts@.len(),
            pt_ok(a),
            pt_ok(b),
            pt_ok(c),
            k <= idxs@.len(),
        decreases idxs@.len() - k,
    {
        if k != ia && k != ib && k != ic {
            let p = pts[idxs[k]];
            let o1 = crate::math::orientation(a, b, p);
            let o2 = crate::math::orientation(b, c, p);
            let o3 = crate::math::orientation(c, a, p);
            if o1 >= 0 && o2 >= 0 && o3 >= 0 {
                return true;
            }
        }
        k = k + 1;
    }
    false
}

/// Triangulate a simple polygon by ear clipping. On degenerate input the
/// clipping falls back to removing the current vertex, so construction is
/// total; the result is a list of well-formed triangles over the vertices.
fn triangulate(pts: &Vec<Pt>) -> (r: Vec<Tri>)
    requires
        pts@.len() >= 3,
        forall|i: int| 0 <= i < pts@.len() ==> pt_ok(#[trigger] pts@[i]),
    ensures
        forall|i: int| 0 <= i < r@.len() ==> (#[trigger] r@[i]).wf(),
{
    let mut idxs: Vec<usize> = Vec::new();
    let mut i: usize = 0;
    while i < pts.len()
        invariant
            i <= pts@.len(),
            idxs@.len() == i,
            forall|j: int| 0 <= j < idxs@.len() ==> #[trigger] idxs@[j] < pts@.len(),
        decreases pts@.len() - i,
    {
        idxs.push(i);
        i = i + 1;
    }
    let mut tris: Vec<Tri> = Vec::new();
    while idxs.len() > 3
        invariant
            idxs@.len() >= 3,
            forall|j: int| 0 <= j < idxs@.len() ==> #[trigger] idxs@[j] < pts@.len(),
            forall|j: int| 0 <= j < pts@.len() ==> pt_ok(#[trigger] pts@[j]),
            forall|j: int| 0 <= j < tris@.len() ==> (#[trigger] tris@[j]).wf(),
        decreases idxs@.len(),
    {
        // Find an ear: a convex corner with no other vertex inside it.
        let n = idxs.len();
        let mut ear: usize = 0;
        let mut found = false;
        let mut j: usize = 0;
        while j < n
            invariant
                n == idxs@.len(),
                3 < n,
                forall|k: int| 0 <= k < idxs@.len() ==> #[trigger] idxs@[k] < pts@.len(),
                forall|k: int| 0 <= k < pts@.len() ==> pt_ok(#[trigger] pts@[k]),
                j <= n,
                ear < n,
            decreases n - j,
        {
            let ia = if j == 0 { n - 1 } else { j - 1 };
            let ic = if j == n - 1 { 0 } else { j + 1 };
            let a = pts[idxs[ia]];
            let b = pts[idxs[j]];
            let c = pts[idxs[ic]];
            if crate::math::orientation(a, b, c) >= 0 && !ear_blocked(pts, &idxs, ia, j, ic) {
                ear = j;
                found = true;
                break ;
            }
            j = j + 1;
        }
        if !found {
            ear = 0;
        }
        let n2 = idxs.len();
        let ia = if ear == 0 { n2 - 1 } else { ear - 1 };
        let ic = if ear == n2 - 1 { 0 } else { ear + 1 };
        tris.push(Tri { a: pts[idxs[ia]], b: pts[idxs[ear]], c: pts[idxs[ic]] });
        idxs.remove(ear);
    }
    tris.push(Tri { a: pts[idxs[0]], b: pts[idxs[1]], c: pts[idxs[2]] });
    tris
}

/// Twice the signed area of the closed vertex ring: positive when the ring
/// winds counter-clockwise.
fn signed_area2(pts: &Vec<Pt>) -> (r: i128)
    requires
        3 <= pts@.len() <= 1_000_000,
        forall|i: int| 0 <= i < pts@.len() ==> pt_ok(#[trigger] pts@[i]),
{
    let n = pts.len();
    let mut acc: i128 = 0;
    let mut i: usize = 0;
    while i < n
        invariant
            3 <= n <= 1_000_000,
            n == pts@.len(),
            i <= n,
            forall|k: int| 0 <= k < pts@.len() ==> pt_ok(#[trigger] pts@[k]),
            -8_000_000_000_000_000_000_000_000i128 <= acc
                <= 8_000_000_000_000_000_000_000_000i128,
            acc >= i * (-8_000_000_000_000_000_000i128),
            acc <= i * 8_000_000_000_000_000_000i128,
        decreases n - i,
    {
        let j = if i + 1 == n {
            0
        } else {
            i + 1
        };
        let a = pts[i];
        let b = pts[j];
        proof {
            crate::math::lemma_mul_bound(a.x as int, b.y as int);
            crate::math::lemma_mul_bound(a.y as int, b.x as int);
            assert((i + 1) * 8_000_000_000_000_000_000i128 == i * 8_000_000_000_000_000_000i128
                + 8_000_000_000_000_000_000i128) by (nonlinear_arith);
            assert((i + 1) * (-8_000_000_000_000_000_000i128) == i * (
            -8_000_000_000_000_000_000i128) - 8_000_000_000_000_000_000i128) by (nonlinear_arith);
            assert(i * 8_000_000_000_000_000_000i128 <= 8_000_000_000_000_000_000_000_000i128
                - 8_000_000_000_000_000_000i128 && i * (-8_000_000_000_000_000_000i128)
                >= -8_000_000_000_000_000_000_000_000i128 + 8_000_000_000_000_000_000i128)
                by (nonlinear_arith)
                requires
                    0 <= i < 1_000_000,
            ;
        }
        acc = acc + ((a.x as i128) * (b.y as i128) - (a.y as i128) * (b.x as i128));
        i = i + 1;
    }
    acc
}

/// Build a polygon: the ring is normalized to wind counter-clockwise (the
/// ear search accepts counter-clockwise corners), then triangulated.
pub fn poly(pts: Vec<Pt>) -> (r: Polygon)
    requires
        3 <= pts@.len() <= 1_000_000,
        forall|i: int| 0 <= i < pts@.len() ==> pt_ok(#[trigger] pts@[i]),
    ensures
        r.wf(),
        r.pts@ == pts@ || r.pts@ == pts@.reverse(),
        r.pts@.len() == pts@.len(),
{
    let pts = if signed_area2(&pts) < 0 {
        let n = pts.len();
        let mut rev: Vec<Pt> = Vec::new();
        let mut i: usize = 0;
        while i < n
            invariant
                n == pts@.len(),
                i <= n,
                rev@.len() == i,
                forall|k: int| 0 <= k < i ==> #[trigger] rev@[k] == pts@[n - 1 - k],
            decreases n - i,
        {
            rev.push(pts[n - 1 - i]);
            i = i + 1;
        }
        proof {
            assert(rev@ =~= pts@.reverse());
        }
        rev
    } else {
        pts
    };
    let tris = triangulate(&pts);
    Polygon { pts, tris }
}

/// An open polyline expanded by a radius: a chain of abutting capsules.
#[derive(Clone, Debug)]
pub struct Path {
    pub pts: Vec<Pt>,
    pub r: i64,
}

impl Path {
    pub open spec fn wf(self) -> bool {
        &&& 2 <= self.pts@.len() <= 1_000_000
        &&& 0 <= self.r
        &&& forall|i: int| 0 <= i < self.pts@.len() ==> pt_pad_ok(#[trigger] self.pts@[i], self.r)
    }

    /// The capsule covering the `i`-th leg of the polyline.
    pub open spec fn spec_cap(self, i: int) -> Capsule {
        Capsule { st: self.pts@[i], en: self.pts@[i + 1], r: self.r }
    }

    pub fn r(&self) -> (r: i64)
        ensures
            r == self.r,
    {
        self.r
    }

    pub fn cap_at(&self, i: usize) -> (r: Capsule)
        requires
            self.wf(),
            i + 1 < self.pts@.len(),
        ensures
            r == self.spec_cap(i as int),
            r.wf(),
    {
        let n: usize = self.pts.len();
        proof {
            assert(i + 1 < n);
        }
        Capsule { st: self.pts[i], en: self.pts[i + 1], r: self.r }
    }

    /// The smallest rectangle containing the widened polyline.
    pub open spec fn spec_bounds(self) -> Rt {
        let e = pts_bounds(self.pts@, self.pts@.len() as int);
        Rt {
            x0: (e.x0 - self.r) as i64,
            y0: (e.y0 - self.r) as i64,
            x1: (e.x1 + self.r) as i64,
            y1: (e.y1 + self.r) as i64,
        }
    }

    pub fn bounds(&self) -> (b: Rt)
        requires
            self.wf(),
        ensures
            b.wf(),
            b == self.spec_bounds(),
    {
        let mut b = Rt::enclosing(self.pts[0], self.pts[0]);
        let mut i: usize = 1;
        while i < self.pts.len()
            invariant
                self.wf(),
                1 <= i <= self.pts@.len(),
                b.wf(),
                b == pts_bounds(self.pts@, i as int),
                coord_ok(b.x0 - self.r) && coord_ok(b.x1 + self.r),
                coord_ok(b.y0 - self.r) && coord_ok(b.y1 + self.r),
            decreases self.pts@.len() - i,
        {
            b = b.union(Rt::enclosing(self.pts[i], self.pts[i]));
            i = i + 1;
        }
        Rt { x0: b.x0 - self.r, y0: b.y0 - self.r, x1: b.x1 + self.r, y1: b.y1 + self.r }
    }
}

/// A copy of a vector of copyable values.
pub fn clone_copy_vec<T: Copy>(v: &Vec<T>) -> (r: Vec<T>)
    ensures
        r@ == v@,
{
    let mut out: Vec<T> = Vec::new();
    let n = v.len();
    let mut i: usize = 0;
    while i < n
        invariant
            n == v@.len(),
            out@ == v@.take(i as int),
            i <= n,
        decreases n - i,
    {
        out.push(v[i]);
        i = i + 1;
    }
    proof {
        assert(v@.take(n as int) =~= v@);
    }
    out
}

/// Build a path from its polyline and radius.
pub fn path(pts: Vec<Pt>, r: i64) -> (p: Path)
    requires
        2 <= pts@.len() <= 1_000_000,
        0 <= r,
        forall|i: int| 0 <= i < pts@.len() ==> pt_pad_ok(#[trigger] pts@[i], r),
    ensures
        p.wf(),
        p.pts == pts,
        p.r == r,
{
    Path { pts, r }
}

} // verus!
