//! Distance functions over the primitive family.
//!
//! Distances are measured in internal units and rounded down to an integer
//! (the floor of the true Euclidean distance). Every distance function
//! returns 0 for intersecting inputs — the spatial index relies on this.

use vstd::prelude::*;

verus! {

use crate::math::{
    lemma_mul_bound, lemma_mul_mono_nonneg, lemma_sq_nonneg, lemma_sq_bound, lemma_lagrange,
    spec_cross,
};
use crate::primitive::{Pt, Rt, Segment, Circle, Capsule, Polygon, Path, pt_ok};
use crate::intersects::{
    spec_seg_intersects, spec_rt_intersects_rt, spec_rt_intersects_seg, seg_intersects_seg,
    rt_intersects_rt, rt_intersects_seg,
};

/// `r` is the floor of the square root of `n`.
pub open spec fn is_floor_sqrt(n: int, r: int) -> bool {
    0 <= r && r * r <= n && n < (r + 1) * (r + 1)
}

/// The floor of the square root of `n` (meaningful for `n >= 0`).
pub open spec fn spec_floor_sqrt(n: int) -> int {
    choose|r: int| is_floor_sqrt(n, r)
}

/// Every non-negative integer has a floor square root, so the chosen value
/// satisfies its defining property.
pub proof fn lemma_floor_sqrt_exists(n: int)
    requires
        n >= 0,
    ensures
        is_floor_sqrt(n, spec_floor_sqrt(n)),
    decreases n,
{
    if n == 0 {
        assert(is_floor_sqrt(0, 0));
    } else {
        lemma_floor_sqrt_exists(n - 1);
        let r = spec_floor_sqrt(n - 1);
        if (r + 1) * (r + 1) <= n {
            assert((r + 2) * (r + 2) > n) by (nonlinear_arith)
                requires
                    n == (r + 1) * (r + 1),
                    r >= 0,
            ;
            assert(is_floor_sqrt(n, r + 1));
        } else {
            assert(is_floor_sqrt(n, r));
        }
    }
}

/// The floor square root is unique, so any witness is the canonical value.
pub proof fn lemma_floor_sqrt_canon(n: int, r: int)
    requires
        is_floor_sqrt(n, r),
    ensures
        spec_floor_sqrt(n) == r,
{
    assert(exists|x: int| is_floor_sqrt(n, x));
    let c = spec_floor_sqrt(n);
    assert(is_floor_sqrt(n, c));
    if c < r {
        lemma_mul_mono_nonneg(c + 1, r, c + 1, r);
        assert(false);
    }
    if r < c {
        lemma_mul_mono_nonneg(r + 1, c, r + 1, c);
        assert(false);
    }
}

/// Floor square roots of numbers within the kernel's squared-distance range
/// fit comfortably in `i64`.
pub proof fn lemma_floor_sqrt_small(n: int, r: int)
    requires
        is_floor_sqrt(n, r),
        n <= 8_000_000_000_000_000_000,
    ensures
        r <= 3_000_000_000,
{
    if r > 3_000_000_000 {
        lemma_mul_mono_nonneg(3_000_000_001, r, 3_000_000_001, r);
        assert(false);
    }
}

/// Binary search for the floor of the square root.
pub fn isqrt(n: u128) -> (r: u64)
    ensures
        is_floor_sqrt(n as int, r as int),
{
    let mut lo: u128 = 0;
    let mut hi: u128 = 0xFFFF_FFFF_FFFF_FFFF;
    proof {
        lemma_mul_mono_nonneg(n as int, 0xFFFF_FFFF_FFFF_FFFF_FFFF_FFFF_FFFF_FFFF, 1, 1);
        assert((hi as int + 1) * (hi as int + 1) > n as int) by (nonlinear_arith)
            requires
                hi as int == 0xFFFF_FFFF_FFFF_FFFF,
                n as int <= 0xFFFF_FFFF_FFFF_FFFF_FFFF_FFFF_FFFF_FFFF,
        ;
    }
    while lo < hi
        invariant
            lo <= hi <= 0xFFFF_FFFF_FFFF_FFFF,
            lo * lo <= n,
            n < (hi + 1) * (hi + 1),
        decreases hi - lo,
    {
        let mid: u128 = lo + (hi - lo + 1) / 2;
        proof {
            assert(lo < mid <= hi);
            lemma_mul_mono_nonneg(mid as int, 0xFFFF_FFFF_FFFF_FFFF, mid as int, 0xFFFF_FFFF_FFFF_FFFF);
        }
        if mid * mid <= n {
            lo = mid;
        } else {
            hi = mid - 1;
        }
    }
    proof {
        assert(lo == hi);
    }
    lo as u64
}

/// Squared Euclidean distance between two points.
pub open spec fn spec_dsq(a: Pt, b: Pt) -> int {
    (a.x - b.x) * (a.x - b.x) + (a.y - b.y) * (a.y - b.y)
}

/// Distance between two points, rounded down.
pub fn pt_pt_dist(a: Pt, b: Pt) -> (r: i64)
    requires
        pt_ok(a),
        pt_ok(b),
    ensures
        r as int == spec_floor_sqrt(spec_dsq(a, b)),
        0 <= r <= 3_000_000_000,
{
    let dx: i128 = a.x as i128 - b.x as i128;
    let dy: i128 = a.y as i128 - b.y as i128;
    proof {
        lemma_mul_bound(dx as int, dx as int);
        lemma_mul_bound(dy as int, dy as int);
    }
    let dsq: i128 = dx * dx + dy * dy;
    proof {
        lemma_sq_nonneg(dx as int);
        lemma_sq_nonneg(dy as int);
    }
    let d: u64 = isqrt(dsq as u128);
    proof {
        lemma_floor_sqrt_canon(spec_dsq(a, b), d as int);
        lemma_floor_sqrt_small(spec_dsq(a, b), d as int);
    }
    d as i64
}

/// The smaller of two values.
pub open spec fn imin(a: int, b: int) -> int {
    if a <= b {
        a
    } else {
        b
    }
}

/// `a`, clamped from below at zero.
pub open spec fn imax0(a: int) -> int {
    if a < 0 {
        0
    } else {
        a
    }
}

/// Distance from value `v` to the interval `[lo, hi]`.
pub open spec fn spec_axis_gap(v: int, lo: int, hi: int) -> int {
    if v < lo {
        lo - v
    } else if v > hi {
        v - hi
    } else {
        0
    }
}

/// Distance between the intervals `[alo, ahi]` and `[blo, bhi]`.
pub open spec fn spec_range_gap(alo: int, ahi: int, blo: int, bhi: int) -> int {
    if ahi < blo {
        blo - ahi
    } else if bhi < alo {
        alo - bhi
    } else {
        0
    }
}

/// The floor of the perpendicular distance from `p` to the line through
/// `st` and `en` (which must be distinct).
fn perp_dist(st: Pt, en: Pt, p: Pt) -> (r: i64)
    requires
        pt_ok(st),
        pt_ok(en),
        pt_ok(p),
        (en.x - st.x) * (en.x - st.x) + (en.y - st.y) * (en.y - st.y) != 0,
    ensures
        r as int == spec_floor_sqrt(
            (spec_cross(st, en, p) * spec_cross(st, en, p)) / ((en.x - st.x) * (en.x - st.x) + (
            en.y - st.y) * (en.y - st.y)),
        ),
        0 <= r <= 3_000_000_000,
{
    let dx: i128 = en.x as i128 - st.x as i128;
    let dy: i128 = en.y as i128 - st.y as i128;
    let pdx: i128 = p.x as i128 - st.x as i128;
    let pdy: i128 = p.y as i128 - st.y as i128;
    proof {
        lemma_mul_bound(dx as int, dx as int);
        lemma_mul_bound(dy as int, dy as int);
        lemma_sq_nonneg(dx as int);
        lemma_sq_nonneg(dy as int);
    }
    let lensq: i128 = dx * dx + dy * dy;
    let cr: i128 = crate::math::cross_at(st, en, p);
    proof {
        lemma_sq_bound(cr as int);
        lemma_sq_nonneg(cr as int);
        lemma_sq_nonneg(pdx as int);
        lemma_sq_nonneg(pdy as int);
        lemma_lagrange(dx as int, dy as int, pdx as int, pdy as int);
        lemma_sq_nonneg((pdx * dx + pdy * dy) as int);
        lemma_mul_bound(pdx as int, dx as int);
        lemma_mul_bound(pdy as int, dy as int);
        lemma_mul_bound(pdx as int, pdx as int);
        lemma_mul_bound(pdy as int, pdy as int);
    }
    let q: u128 = (cr * cr) as u128 / lensq as u128;
    proof {
        vstd::arithmetic::div_mod::lemma_fundamental_div_mod((cr * cr) as int, lensq as int);
        vstd::arithmetic::div_mod::lemma_mod_bound((cr * cr) as int, lensq as int);
        vstd::arithmetic::div_mod::lemma_div_pos_is_pos((cr * cr) as int, lensq as int);
        let psq = (pdx as int) * (pdx as int) + (pdy as int) * (pdy as int);
        if q as int > psq {
            lemma_mul_mono_nonneg(psq + 1, q as int, lensq as int, lensq as int);
            assert((q as int) * (lensq as int) == (lensq as int) * (q as int)) by (nonlinear_arith);
            assert((psq + 1) * (lensq as int) == psq * (lensq as int) + lensq as int)
                by (nonlinear_arith);
            assert((lensq as int) * psq == psq * (lensq as int)) by (nonlinear_arith);
            assert(false);
        }
    }
    let d: u64 = isqrt(q);
    proof {
        lemma_floor_sqrt_canon(q as int, d as int);
        lemma_floor_sqrt_small(q as int, d as int);
    }
    d as i64
}

/// Distance from a point to a segment, rounded down: the perpendicular
/// distance when the point projects onto the segment, else the distance to
/// the nearer endpoint.
pub open spec fn spec_pt_seg_dist(p: Pt, s: Segment) -> int {
    let dx = s.en.x - s.st.x;
    let dy = s.en.y - s.st.y;
    let lensq = dx * dx + dy * dy;
    let dot = (p.x - s.st.x) * dx + (p.y - s.st.y) * dy;
    let cr = spec_cross(s.st, s.en, p);
    if lensq == 0 || dot < 0 {
        spec_floor_sqrt(spec_dsq(p, s.st))
    } else if dot > lensq {
        spec_floor_sqrt(spec_dsq(p, s.en))
    } else {
        spec_floor_sqrt((cr * cr) / lensq)
    }
}

pub fn pt_seg_dist(a: &Pt, b: &Segment) -> (r: i64)
    requires
        pt_ok(*a),
        b.wf(),
    ensures
        r as int == spec_pt_seg_dist(*a, *b),
        0 <= r <= 3_000_000_000,
{
    let dx: i128 = b.en.x as i128 - b.st.x as i128;
    let dy: i128 = b.en.y as i128 - b.st.y as i128;
    let pdx: i128 = a.x as i128 - b.st.x as i128;
    let pdy: i128 = a.y as i128 - b.st.y as i128;
    proof {
        lemma_mul_bound(dx as int, dx as int);
        lemma_mul_bound(dy as int, dy as int);
        lemma_mul_bound(pdx as int, dx as int);
        lemma_mul_bound(pdy as int, dy as int);
        lemma_sq_nonneg(dx as int);
        lemma_sq_nonneg(dy as int);
    }
    let lensq: i128 = dx * dx + dy * dy;
    let dot: i128 = pdx * dx + pdy * dy;
    if lensq == 0 || dot < 0 {
        pt_pt_dist(*a, b.st)
    } else if dot > lensq {
        pt_pt_dist(*a, b.en)
    } else {
        perp_dist(b.st, b.en, *a)
    }
}

/// Distance from a point to an infinite line (zero if the line is
/// degenerate at a point, the distance to that point).
pub open spec fn spec_line_pt_dist(a: crate::primitive::Line, b: Pt) -> int {
    let dx = a.en.x - a.st.x;
    let dy = a.en.y - a.st.y;
    let lensq = dx * dx + dy * dy;
    let cr = spec_cross(a.st, a.en, b);
    if lensq == 0 {
        spec_floor_sqrt(spec_dsq(b, a.st))
    } else {
        spec_floor_sqrt((cr * cr) / lensq)
    }
}

pub fn line_pt_dist(a: &crate::primitive::Line, b: &Pt) -> (r: i64)
    requires
        a.wf(),
        pt_ok(*b),
    ensures
        r as int == spec_line_pt_dist(*a, *b),
        0 <= r <= 3_000_000_000,
{
    let dx: i128 = a.en.x as i128 - a.st.x as i128;
    let dy: i128 = a.en.y as i128 - a.st.y as i128;
    proof {
        lemma_mul_bound(dx as int, dx as int);
        lemma_mul_bound(dy as int, dy as int);
        lemma_sq_nonneg(dx as int);
        lemma_sq_nonneg(dy as int);
    }
    let lensq: i128 = dx * dx + dy * dy;
    if lensq == 0 {
        pt_pt_dist(*b, a.st)
    } else {
        perp_dist(a.st, a.en, *b)
    }
}

/// Distance between two segments: zero when they intersect, else the least
/// of the four endpoint-to-segment distances.
pub open spec fn spec_seg_seg_dist(a: Segment, b: Segment) -> int {
    if spec_seg_intersects(a, b) {
        0
    } else {
        imin(
            imin(spec_pt_seg_dist(a.st, b), spec_pt_seg_dist(a.en, b)),
            imin(spec_pt_seg_dist(b.st, a), spec_pt_seg_dist(b.en, a)),
        )
    }
}

pub fn seg_seg_dist(a: &Segment, b: &Segment) -> (r: i64)
    requires
        a.wf(),
        b.wf(),
    ensures
        r as int == spec_seg_seg_dist(*a, *b),
        0 <= r <= 3_000_000_000,
{
    if seg_intersects_seg(a, b) {
        return 0;
    }
    let d1 = pt_seg_dist(&a.st, b);
    let d2 = pt_seg_dist(&a.en, b);
    let d3 = pt_seg_dist(&b.st, a);
    let d4 = pt_seg_dist(&b.en, a);
    let m1 = if d1 <= d2 { d1 } else { d2 };
    let m2 = if d3 <= d4 { d3 } else { d4 };
    if m1 <= m2 { m1 } else { m2 }
}

/// Distance from a point to a rectangle's area: zero inside.
pub open spec fn spec_pt_rt_dist(a: Pt, b: Rt) -> int {
    let gx = spec_axis_gap(a.x as int, b.x0 as int, b.x1 as int);
    let gy = spec_axis_gap(a.y as int, b.y0 as int, b.y1 as int);
    spec_floor_sqrt(gx * gx + gy * gy)
}

pub fn pt_rt_dist(a: &Pt, b: &Rt) -> (r: i64)
    requires
        pt_ok(*a),
        b.wf(),
    ensures
        r as int == spec_pt_rt_dist(*a, *b),
        0 <= r <= 3_000_000_000,
{
    let gx: i64 = if a.x < b.x0 {
        b.x0 - a.x
    } else if a.x > b.x1 {
        a.x - b.x1
    } else {
        0
    };
    let gy: i64 = if a.y < b.y0 {
        b.y0 - a.y
    } else if a.y > b.y1 {
        a.y - b.y1
    } else {
        0
    };
    proof {
        lemma_mul_bound(gx as int, gx as int);
        lemma_mul_bound(gy as int, gy as int);
        lemma_sq_nonneg(gx as int);
        lemma_sq_nonneg(gy as int);
    }
    let dsq: i128 = (gx as i128) * (gx as i128) + (gy as i128) * (gy as i128);
    let d: u64 = isqrt(dsq as u128);
    proof {
        lemma_floor_sqrt_canon(dsq as int, d as int);
        lemma_floor_sqrt_small(dsq as int, d as int);
    }
    d as i64
}

/// Distance between two rectangles' areas: zero when they intersect.
pub open spec fn spec_rt_rt_dist(a: Rt, b: Rt) -> int {
    if spec_rt_intersects_rt(a, b) {
        0
    } else {
        let gx = spec_range_gap(a.x0 as int, a.x1 as int, b.x0 as int, b.x1 as int);
        let gy = spec_range_gap(a.y0 as int, a.y1 as int, b.y0 as int, b.y1 as int);
        spec_floor_sqrt(gx * gx + gy * gy)
    }
}

pub fn rt_rt_dist(a: &Rt, b: &Rt) -> (r: i64)
    requires
        a.wf(),
        b.wf(),
    ensures
        r as int == spec_rt_rt_dist(*a, *b),
        0 <= r <= 3_000_000_000,
{
    if rt_intersects_rt(a, b) {
        return 0;
    }
    let gx: i64 = if a.x1 < b.x0 {
        b.x0 - a.x1
    } else if b.x1 < a.x0 {
        a.x0 - b.x1
    } else {
        0
    };
    let gy: i64 = if a.y1 < b.y0 {
        b.y0 - a.y1
    } else if b.y1 < a.y0 {
        a.y0 - b.y1
    } else {
        0
    };
    proof {
        lemma_mul_bound(gx as int, gx as int);
        lemma_mul_bound(gy as int, gy as int);
        lemma_sq_nonneg(gx as int);
        lemma_sq_nonneg(gy as int);
    }
    let dsq: i128 = (gx as i128) * (gx as i128) + (gy as i128) * (gy as i128);
    let d: u64 = isqrt(dsq as u128);
    proof {
        lemma_floor_sqrt_canon(dsq as int, d as int);
        lemma_floor_sqrt_small(dsq as int, d as int);
    }
    d as i64
}

/// The `i`-th edge of a rectangle, counter-clockwise from the bottom.
pub open spec fn spec_rt_edge(a: Rt, i: int) -> Segment {
    if i == 0 {
        Segment { st: Pt { x: a.x0, y: a.y0 }, en: Pt { x: a.x1, y: a.y0 } }
    } else if i == 1 {
        Segment { st: Pt { x: a.x1, y: a.y0 }, en: Pt { x: a.x1, y: a.y1 } }
    } else if i == 2 {
        Segment { st: Pt { x: a.x1, y: a.y1 }, en: Pt { x: a.x0, y: a.y1 } }
    } else {
        Segment { st: Pt { x: a.x0, y: a.y1 }, en: Pt { x: a.x0, y: a.y0 } }
    }
}

/// Distance from a rectangle to a segment: zero when they meet, else the
/// least distance from an edge of the rectangle to the segment.
pub open spec fn spec_rt_seg_dist(a: Rt, b: Segment) -> int {
    if spec_rt_intersects_seg(a, b) {
        0
    } else {
        imin(
            imin(
                spec_seg_seg_dist(spec_rt_edge(a, 0), b),
                spec_seg_seg_dist(spec_rt_edge(a, 1), b),
            ),
            imin(
                spec_seg_seg_dist(spec_rt_edge(a, 2), b),
                spec_seg_seg_dist(spec_rt_edge(a, 3), b),
            ),
        )
    }
}

pub fn rt_seg_dist(a: &Rt, b: &Segment) -> (r: i64)
    requires
        a.wf(),
        b.wf(),
    ensures
        r as int == spec_rt_seg_dist(*a, *b),
        0 <= r <= 3_000_000_000,
{
    if rt_intersects_seg(a, b) {
        return 0;
    }
    let edges = a.segs();
    let d1 = seg_seg_dist(&edges[0], b);
    let d2 = seg_seg_dist(&edges[1], b);
    let d3 = seg_seg_dist(&edges[2], b);
    let d4 = seg_seg_dist(&edges[3], b);
    let m1 = if d1 <= d2 { d1 } else { d2 };
    let m2 = if d3 <= d4 { d3 } else { d4 };
    if m1 <= m2 { m1 } else { m2 }
}

/// A circle meets a rectangle when its centre is inside or the boundary
/// comes closer than the radius.
pub open spec fn spec_circ_intersects_rt(a: Circle, b: Rt) -> bool {
    ||| b.spec_contains(a.p)
    ||| crate::math::spec_lt(spec_pt_rt_dist(a.p, b) - a.r, 0)
}

pub fn circ_intersect_rt(a: &Circle, b: &Rt) -> (r: bool)
    requires
        a.wf(),
        b.wf(),
    ensures
        r == spec_circ_intersects_rt(*a, *b),
{
    if b.contains(a.p) {
        return true;
    }
    let d = pt_rt_dist(&a.p, b);
    crate::math::lt(d - a.r, 0)
}

/// Distance from a circle to a rectangle: zero when they intersect.
pub open spec fn spec_circ_rt_dist(a: Circle, b: Rt) -> int {
    if spec_circ_intersects_rt(a, b) {
        0
    } else {
        imax0(spec_pt_rt_dist(a.p, b) - a.r)
    }
}

pub fn circ_rt_dist(a: &Circle, b: &Rt) -> (r: i64)
    requires
        a.wf(),
        b.wf(),
    ensures
        r as int == spec_circ_rt_dist(*a, *b),
        0 <= r,
{
    if circ_intersect_rt(a, b) {
        return 0;
    }
    let d = pt_rt_dist(&a.p, b);
    if d - a.r < 0 {
        0
    } else {
        d - a.r
    }
}

/// Distance from a capsule to a circle: the axis-to-centre distance less
/// both radii, clamped at zero.
pub open spec fn spec_cap_circ_dist(a: Capsule, b: Circle) -> int {
    imax0(spec_pt_seg_dist(b.p, a.spec_seg()) - a.r - b.r)
}

pub fn cap_circ_dist(a: &Capsule, b: &Circle) -> (r: i64)
    requires
        a.wf(),
        b.wf(),
    ensures
        r as int == spec_cap_circ_dist(*a, *b),
        0 <= r,
{
    let d = pt_seg_dist(&b.p, &a.seg());
    let s = d - a.r - b.r;
    if s < 0 {
        0
    } else {
        s
    }
}

/// Distance from a capsule to a segment: the axis distance less the radius,
/// clamped at zero.
pub open spec fn spec_cap_seg_dist(a: Capsule, b: Segment) -> int {
    imax0(spec_seg_seg_dist(a.spec_seg(), b) - a.r)
}

pub fn cap_seg_dist(a: &Capsule, b: &Segment) -> (r: i64)
    requires
        a.wf(),
        b.wf(),
    ensures
        r as int == spec_cap_seg_dist(*a, *b),
        0 <= r,
{
    let d = seg_seg_dist(&a.seg(), b);
    let s = d - a.r;
    if s < 0 {
        0
    } else {
        s
    }
}

/// Distance from a capsule to a rectangle: the axis-to-rectangle distance
/// less the radius, clamped at zero.
pub open spec fn spec_cap_rt_dist(a: Capsule, b: Rt) -> int {
    imax0(spec_rt_seg_dist(b, a.spec_seg()) - a.r)
}

pub fn cap_rt_dist(a: &Capsule, b: &Rt) -> (r: i64)
    requires
        a.wf(),
        b.wf(),
    ensures
        r as int == spec_cap_rt_dist(*a, *b),
        0 <= r,
{
    let d = rt_seg_dist(b, &a.seg());
    let s = d - a.r;
    if s < 0 {
        0
    } else {
        s
    }
}

/// The `i`-th boundary edge of a polygon (the last edge closes the ring).
pub open spec fn spec_poly_edge(b: Polygon, i: int) -> Segment {
    Segment {
        st: b.pts@[i],
        en: b.pts@[if i + 1 == b.pts@.len() {
            0
        } else {
            i + 1
        }],
    }
}

/// Least distance from the point to the first `n` boundary edges.
pub open spec fn spec_pt_poly_min(a: Pt, b: Polygon, n: int) -> int
    decreases n,
{
    if n <= 1 {
        spec_pt_seg_dist(a, spec_poly_edge(b, 0))
    } else {
        imin(spec_pt_poly_min(a, b, n - 1), spec_pt_seg_dist(a, spec_poly_edge(b, n - 1)))
    }
}

/// Distance from a point to a polygon's boundary; defined inside the
/// polygon too.
pub open spec fn spec_pt_poly_dist(a: Pt, b: Polygon) -> int {
    spec_pt_poly_min(a, b, b.pts@.len() as int)
}

pub fn pt_poly_dist(a: &Pt, b: &Polygon) -> (r: i64)
    requires
        pt_ok(*a),
        b.wf(),
    ensures
        r as int == spec_pt_poly_dist(*a, *b),
        0 <= r <= 3_000_000_000,
{
    let n = b.pts.len();
    let e0 = Segment { st: b.pts[0], en: b.pts[1] };
    let mut best = pt_seg_dist(a, &e0);
    let mut i: usize = 1;
    while i < n
        invariant
            pt_ok(*a),
            b.wf(),
            n == b.pts@.len(),
            1 <= i <= n,
            best as int == spec_pt_poly_min(*a, *b, i as int),
            0 <= best <= 3_000_000_000,
        decreases n - i,
    {
        let j = if i + 1 == n {
            0
        } else {
            i + 1
        };
        let e = Segment { st: b.pts[i], en: b.pts[j] };
        let d = pt_seg_dist(a, &e);
        if d < best {
            best = d;
        }
        i = i + 1;
    }
    best
}

/// Least distance from the capsule to the first `n` boundary edges.
pub open spec fn spec_cap_poly_min(a: Capsule, b: Polygon, n: int) -> int
    decreases n,
{
    if n <= 1 {
        spec_cap_seg_dist(a, spec_poly_edge(b, 0))
    } else {
        imin(spec_cap_poly_min(a, b, n - 1), spec_cap_seg_dist(a, spec_poly_edge(b, n - 1)))
    }
}

/// Distance from a capsule to a polygon's boundary.
pub open spec fn spec_cap_poly_dist(a: Capsule, b: Polygon) -> int {
    spec_cap_poly_min(a, b, b.pts@.len() as int)
}

pub fn cap_poly_dist(a: &Capsule, b: &Polygon) -> (r: i64)
    requires
        a.wf(),
        b.wf(),
    ensures
        r as int == spec_cap_poly_dist(*a, *b),
        0 <= r,
{
    let n = b.pts.len();
    let e0 = Segment { st: b.pts[0], en: b.pts[1] };
    let mut best = cap_seg_dist(a, &e0);
    let mut i: usize = 1;
    while i < n
        invariant
            a.wf(),
            b.wf(),
            n == b.pts@.len(),
            1 <= i <= n,
            best as int == spec_cap_poly_min(*a, *b, i as int),
            0 <= best,
        decreases n - i,
    {
        let j = if i + 1 == n {
            0
        } else {
            i + 1
        };
        let e = Segment { st: b.pts[i], en: b.pts[j] };
        let d = cap_seg_dist(a, &e);
        if d < best {
            best = d;
        }
        i = i + 1;
    }
    best
}

/// Least distance from the circle to the first `n` legs of the path.
pub open spec fn spec_circ_path_min(a: Circle, b: Path, n: int) -> int
    decreases n,
{
    if n <= 1 {
        spec_cap_circ_dist(b.spec_cap(0), a)
    } else {
        imin(spec_circ_path_min(a, b, n - 1), spec_cap_circ_dist(b.spec_cap(n - 1), a))
    }
}

/// Distance from a circle to a path.
pub open spec fn spec_circ_path_dist(a: Circle, b: Path) -> int {
    spec_circ_path_min(a, b, b.pts@.len() - 1)
}

pub fn circ_path_dist(a: &Circle, b: &Path) -> (r: i64)
    requires
        a.wf(),
        b.wf(),
    ensures
        r as int == spec_circ_path_dist(*a, *b),
        0 <= r,
{
    let n = b.pts.len();
    let c0 = b.cap_at(0);
    let mut best = cap_circ_dist(&c0, a);
    let mut i: usize = 1;
    while i < n - 1
        invariant
            a.wf(),
            b.wf(),
            n == b.pts@.len(),
            2 <= n,
            1 <= i <= n - 1,
            best as int == spec_circ_path_min(*a, *b, i as int),
            0 <= best,
        decreases n - 1 - i,
    {
        let c = b.cap_at(i);
        let d = cap_circ_dist(&c, a);
        if d < best {
            best = d;
        }
        i = i + 1;
    }
    best
}

/// Least distance from the first `n` legs of the path to the polygon.
pub open spec fn spec_path_poly_min(a: Path, b: Polygon, n: int) -> int
    decreases n,
{
    if n <= 1 {
        spec_cap_poly_dist(a.spec_cap(0), b)
    } else {
        imin(spec_path_poly_min(a, b, n - 1), spec_cap_poly_dist(a.spec_cap(n - 1), b))
    }
}

/// Distance from a path to a polygon's boundary.
pub open spec fn spec_path_poly_dist(a: Path, b: Polygon) -> int {
    spec_path_poly_min(a, b, a.pts@.len() - 1)
}

pub fn path_poly_dist(a: &Path, b: &Polygon) -> (r: i64)
    requires
        a.wf(),
        b.wf(),
    ensures
        r as int == spec_path_poly_dist(*a, *b),
        0 <= r,
{
    let n = a.pts.len();
    let c0 = a.cap_at(0);
    let mut best = cap_poly_dist(&c0, b);
    let mut i: usize = 1;
    while i < n - 1
        invariant
            a.wf(),
            b.wf(),
            n == a.pts@.len(),
            2 <= n,
            1 <= i <= n - 1,
            best as int == spec_path_poly_min(*a, *b, i as int),
            0 <= best,
        decreases n - 1 - i,
    {
        let c = a.cap_at(i);
        let d = cap_poly_dist(&c, b);
        if d < best {
            best = d;
        }
        i = i + 1;
    }
    best
}

/// Least distance from the rectangle to the first `n` legs of the path.
pub open spec fn spec_rt_path_min(a: Rt, b: Path, n: int) -> int
    decreases n,
{
    if n <= 1 {
        spec_cap_rt_dist(b.spec_cap(0), a)
    } else {
        imin(spec_rt_path_min(a, b, n - 1), spec_cap_rt_dist(b.spec_cap(n - 1), a))
    }
}

/// Distance from a rectangle to a path.
pub open spec fn spec_rt_path_dist(a: Rt, b: Path) -> int {
    spec_rt_path_min(a, b, b.pts@.len() - 1)
}

pub fn rt_path_dist(a: &Rt, b: &Path) -> (r: i64)
    requires
        a.wf(),
        b.wf(),
    ensures
        r as int == spec_rt_path_dist(*a, *b),
        0 <= r,
{
    let n = b.pts.len();
    let c0 = b.cap_at(0);
    let mut best = cap_rt_dist(&c0, a);
    let mut i: usize = 1;
    while i < n - 1
        invariant
            a.wf(),
            b.wf(),
            n == b.pts@.len(),
            2 <= n,
            1 <= i <= n - 1,
            best as int == spec_rt_path_min(*a, *b, i as int),
            0 <= best,
        decreases n - 1 - i,
    {
        let c = b.cap_at(i);
        let d = cap_rt_dist(&c, a);
        if d < best {
            best = d;
        }
        i = i + 1;
    }
    best
}

} // verus!
