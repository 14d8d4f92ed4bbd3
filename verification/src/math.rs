//! Tolerance-based scalar comparisons shared by the whole geometry kernel.
//!
//! Coordinates are 64-bit fixed-point integers (internal units). All
//! comparisons are made with a shared tolerance `EPS`; quantities with the
//! dimension of an area (cross products) use `EPS_AREA`. Arithmetic is done
//! in `i128`, so no comparison here can overflow.

use vstd::prelude::*;

verus! {

/// Shared tolerance for length-dimension comparisons, in internal units.
pub const EPS: i64 = 100;

/// Shared tolerance for area-dimension comparisons (cross products), in
/// internal units squared.
pub const EPS_AREA: i128 = 10_000_000_000;

/// `a` and `b` are equal within tolerance.
pub open spec fn spec_eq(a: int, b: int) -> bool {
    -(EPS as int) <= a - b <= EPS as int
}

/// `a` is less than `b` by more than the tolerance.
pub open spec fn spec_lt(a: int, b: int) -> bool {
    a + EPS < b
}

/// `a` is at most `b`, give or take the tolerance.
pub open spec fn spec_le(a: int, b: int) -> bool {
    a <= b + EPS
}

pub fn eq(a: i64, b: i64) -> (r: bool)
    ensures
        r == spec_eq(a as int, b as int),
{
    let d: i128 = a as i128 - b as i128;
    -(EPS as i128) <= d && d <= EPS as i128
}

pub fn ne(a: i64, b: i64) -> (r: bool)
    ensures
        r == !spec_eq(a as int, b as int),
{
    !eq(a, b)
}

pub fn lt(a: i64, b: i64) -> (r: bool)
    ensures
        r == spec_lt(a as int, b as int),
{
    (a as i128) + (EPS as i128) < (b as i128)
}

pub fn le(a: i64, b: i64) -> (r: bool)
    ensures
        r == spec_le(a as int, b as int),
{
    (a as i128) <= (b as i128) + (EPS as i128)
}

pub fn gt(a: i64, b: i64) -> (r: bool)
    ensures
        r == spec_lt(b as int, a as int),
{
    lt(b, a)
}

pub fn ge(a: i64, b: i64) -> (r: bool)
    ensures
        r == spec_le(b as int, a as int),
{
    le(b, a)
}

/// Two points are equal within tolerance on both coordinates.
pub fn pt_eq(a: crate::primitive::Pt, b: crate::primitive::Pt) -> (r: bool)
    ensures
        r == (spec_eq(a.x as int, b.x as int) && spec_eq(a.y as int, b.y as int)),
{
    eq(a.x, b.x) && eq(a.y, b.y)
}

/// `a` and `b` are equal within the area tolerance.
pub open spec fn spec_eq_area(a: int, b: int) -> bool {
    -(EPS_AREA as int) <= a - b <= EPS_AREA as int
}

/// Cross product of `a - o` and `b - o`: twice the signed area of the
/// triangle `o a b`. Positive when `o`, `a`, `b` turn counter-clockwise.
pub open spec fn spec_cross(o: crate::primitive::Pt, a: crate::primitive::Pt, b: crate::primitive::Pt) -> int {
    (a.x - o.x) * (b.y - o.y) - (a.y - o.y) * (b.x - o.x)
}

/// Orientation of the triple `o a b`: `1` for a counter-clockwise turn,
/// `-1` for a clockwise turn, `0` when collinear within tolerance.
pub open spec fn spec_orientation(o: crate::primitive::Pt, a: crate::primitive::Pt, b: crate::primitive::Pt) -> int {
    if spec_cross(o, a, b) > EPS_AREA as int {
        1
    } else if spec_cross(o, a, b) < -(EPS_AREA as int) {
        -1
    } else {
        0
    }
}

/// Products of coordinate differences stay far inside the `i128` range.
pub proof fn lemma_mul_bound(a: int, b: int)
    requires
        -2_000_000_000 <= a <= 2_000_000_000,
        -2_000_000_000 <= b <= 2_000_000_000,
    ensures
        -4_000_000_000_000_000_000 <= a * b <= 4_000_000_000_000_000_000,
{
    assert(-4_000_000_000_000_000_000 <= a * b <= 4_000_000_000_000_000_000) by (nonlinear_arith)
        requires
            -2_000_000_000 <= a <= 2_000_000_000,
            -2_000_000_000 <= b <= 2_000_000_000,
    ;
}

/// Multiplication is monotone in both non-negative factors.
pub proof fn lemma_mul_mono_nonneg(a: int, b: int, c: int, d: int)
    requires
        0 <= a <= b,
        0 <= c <= d,
    ensures
        a * c <= b * d,
{
    assert(a * c <= b * d) by (nonlinear_arith)
        requires
            0 <= a <= b,
            0 <= c <= d,
    ;
}

/// A square is never negative.
pub proof fn lemma_sq_nonneg(a: int)
    ensures
        0 <= a * a,
{
    assert(0 <= a * a) by (nonlinear_arith);
}

/// The square of anything bounded by the largest cross product still fits
/// well inside `i128`.
pub proof fn lemma_sq_bound(a: int)
    requires
        -8_000_000_000_000_000_000 <= a <= 8_000_000_000_000_000_000,
    ensures
        0 <= a * a <= 64_000_000_000_000_000_000_000_000_000_000_000_000,
{
    assert(0 <= a * a <= 64_000_000_000_000_000_000_000_000_000_000_000_000) by (nonlinear_arith)
        requires
            -8_000_000_000_000_000_000 <= a <= 8_000_000_000_000_000_000,
    ;
}

/// Lagrange's identity for two plane vectors: the squared cross product and
/// the squared dot product sum to the product of the squared norms.
pub proof fn lemma_lagrange(ux: int, uy: int, vx: int, vy: int)
    ensures
        (ux * vy - uy * vx) * (ux * vy - uy * vx) + (ux * vx + uy * vy) * (ux * vx + uy * vy)
            == (ux * ux + uy * uy) * (vx * vx + vy * vy),
{
    let a = ux * vy;
    let b = uy * vx;
    let c = ux * vx;
    let d = uy * vy;
    assert((a - b) * (a - b) == a * a - 2 * (a * b) + b * b) by (nonlinear_arith);
    assert((c + d) * (c + d) == c * c + 2 * (c * d) + d * d) by (nonlinear_arith);
    assert(a * b == c * d) by (nonlinear_arith)
        requires
            a == ux * vy,
            b == uy * vx,
            c == ux * vx,
            d == uy * vy,
    ;
    assert(a * a == (ux * ux) * (vy * vy)) by (nonlinear_arith)
        requires
            a == ux * vy,
    ;
    assert(b * b == (uy * uy) * (vx * vx)) by (nonlinear_arith)
        requires
            b == uy * vx,
    ;
    assert(c * c == (ux * ux) * (vx * vx)) by (nonlinear_arith)
        requires
            c == ux * vx,
    ;
    assert(d * d == (uy * uy) * (vy * vy)) by (nonlinear_arith)
        requires
            d == uy * vy,
    ;
    assert((ux * ux + uy * uy) * (vx * vx + vy * vy)
        == (ux * ux) * (vx * vx) + (ux * ux) * (vy * vy) + (uy * uy) * (vx * vx) + (uy * uy) * (vy
        * vy)) by (nonlinear_arith);
}

pub fn cross_at(o: crate::primitive::Pt, a: crate::primitive::Pt, b: crate::primitive::Pt) -> (r: i128)
    requires
        crate::primitive::pt_ok(o),
        crate::primitive::pt_ok(a),
        crate::primitive::pt_ok(b),
    ensures
        r as int == spec_cross(o, a, b),
        -8_000_000_000_000_000_000 <= r as int <= 8_000_000_000_000_000_000,
{
    let ax: i128 = a.x as i128 - o.x as i128;
    let ay: i128 = a.y as i128 - o.y as i128;
    let bx: i128 = b.x as i128 - o.x as i128;
    let by: i128 = b.y as i128 - o.y as i128;
    proof {
        lemma_mul_bound(ax as int, by as int);
        lemma_mul_bound(ay as int, bx as int);
    }
    ax * by - ay * bx
}

pub fn orientation(o: crate::primitive::Pt, a: crate::primitive::Pt, b: crate::primitive::Pt) -> (r: i8)
    requires
        crate::primitive::pt_ok(o),
        crate::primitive::pt_ok(a),
        crate::primitive::pt_ok(b),
    ensures
        r as int == spec_orientation(o, a, b),
{
    let c: i128 = cross_at(o, a, b);
    if c > EPS_AREA {
        1
    } else if c < -EPS_AREA {
        -1
    } else {
        0
    }
}

/// `p` lies strictly to the left of the directed line from `st` to `en`.
pub fn is_strictly_left_of(p: crate::primitive::Pt, st: crate::primitive::Pt, en: crate::primitive::Pt) -> (r: bool)
    requires
        crate::primitive::pt_ok(p),
        crate::primitive::pt_ok(st),
        crate::primitive::pt_ok(en),
    ensures
        r == (spec_orientation(st, en, p) == 1),
{
    orientation(st, en, p) == 1
}

/// `p` lies on or to the left of the directed line from `st` to `en`.
pub fn is_left_of(p: crate::primitive::Pt, st: crate::primitive::Pt, en: crate::primitive::Pt) -> (r: bool)
    requires
        crate::primitive::pt_ok(p),
        crate::primitive::pt_ok(st),
        crate::primitive::pt_ok(en),
    ensures
        r == (spec_orientation(st, en, p) >= 0),
{
    orientation(st, en, p) >= 0
}

/// `a`, `b`, `c` are collinear within tolerance.
pub fn is_collinear(a: crate::primitive::Pt, b: crate::primitive::Pt, c: crate::primitive::Pt) -> (r: bool)
    requires
        crate::primitive::pt_ok(a),
        crate::primitive::pt_ok(b),
        crate::primitive::pt_ok(c),
    ensures
        r == (spec_orientation(a, b, c) == 0),
{
    orientation(a, b, c) == 0
}

} // verus!
