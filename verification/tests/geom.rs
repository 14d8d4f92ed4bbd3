//! Geometry kernel tests: the segment-segment oracle under every endpoint
//! permutation and rigid motion, and spot checks of distances, containment
//! and the shape dispatch.

use memeroute::contains::{polygon_contains_rt, rt_contains_rt, tri_contains_pt};
use memeroute::distance::{
    cap_seg_dist, circ_rt_dist, pt_poly_dist, pt_pt_dist, pt_rt_dist, pt_seg_dist, rt_rt_dist,
    rt_seg_dist, seg_seg_dist,
};
use memeroute::intersects::{
    cap_intersect_rt, line_intersects_line, line_intersects_seg, path_intersects_rt,
    poly_intersects_rt, rt_intersects_rt, rt_intersects_seg, rt_intersects_tri, seg_intersects_seg,
};
use memeroute::math::{is_collinear, is_left_of, is_strictly_left_of};
use memeroute::primitive::{cap, circ, poly, pt, rt, seg, tri, Pt, Segment};
use memeroute::shape::Shape;

/// Internal units per test coordinate unit.
const S: f64 = 100_000_000.0;

fn q(p: (f64, f64)) -> Pt {
    pt((p.0 * S).round() as i64, (p.1 * S).round() as i64)
}

fn qseg(a: (f64, f64), b: (f64, f64)) -> Segment {
    seg(q(a), q(b))
}

type FSeg = [(f64, f64); 2];

fn test_seg_seg_permutations(a: FSeg, b: FSeg, res: bool) {
    let sa = qseg(a[0], a[1]);
    let sb = qseg(b[0], b[1]);
    assert_eq!(seg_intersects_seg(&sa, &sb), res);
    assert_eq!(seg_intersects_seg(&sb, &sa), res);
    let ra = seg(sa.en, sa.st);
    let rb = seg(sb.en, sb.st);
    assert_eq!(seg_intersects_seg(&ra, &rb), res);
    assert_eq!(seg_intersects_seg(&rb, &ra), res);
}

fn neg(s: FSeg) -> FSeg {
    [(-s[0].0, -s[0].1), (-s[1].0, -s[1].1)]
}

fn rot(s: FSeg, deg: f64) -> FSeg {
    let th = deg.to_radians();
    let r = |p: (f64, f64)| (p.0 * th.cos() - p.1 * th.sin(), p.0 * th.sin() + p.1 * th.cos());
    [r(s[0]), r(s[1])]
}

fn translate(s: FSeg, d: (f64, f64)) -> FSeg {
    [(s[0].0 + d.0, s[0].1 + d.1), (s[1].0 + d.0, s[1].1 + d.1)]
}

fn scale(s: FSeg, f: (f64, f64)) -> FSeg {
    [(s[0].0 * f.0, s[0].1 * f.1), (s[1].0 * f.0, s[1].1 * f.1)]
}

#[test]
fn test_seg_seg() {
    let cases: [(FSeg, FSeg, bool); 18] = [
        // Crossing
        ([(1.0, 1.0), (3.0, 4.0)], [(2.0, 4.0), (3.0, 1.0)], true),
        // Shared endpoints, not parallel
        ([(1.0, 1.0), (2.0, 3.0)], [(2.0, 3.0), (4.0, 1.0)], true),
        // Shared endpoints, parallel, one point of intersection
        ([(1.0, 1.0), (3.0, 2.0)], [(3.0, 2.0), (5.0, 3.0)], true),
        // Endpoint abutting segment, perpendicular
        ([(1.0, 1.0), (3.0, 3.0)], [(2.0, 4.0), (4.0, 2.0)], true),
        // Same segments
        ([(1.0, 1.0), (1.0, 1.0)], [(1.0, 1.0), (1.0, 1.0)], true),
        // Parallel and overlapping
        ([(1.0, 1.0), (3.0, 1.0)], [(2.0, 1.0), (4.0, 1.0)], true),
        // Parallel and contained
        ([(1.0, 1.0), (4.0, 1.0)], [(2.0, 1.0), (3.0, 1.0)], true),
        // Parallel segments with one shared endpoint overlapping
        ([(1.0, 1.0), (3.0, 1.0)], [(1.0, 1.0), (4.0, 1.0)], true),
        // Degenerate: one segment is a point, on the other segment
        ([(1.0, 1.0), (3.0, 1.0)], [(2.0, 1.0), (2.0, 1.0)], true),
        // Degenerate: one segment is a point, on the other's endpoint
        ([(1.0, 1.0), (3.0, 1.0)], [(3.0, 1.0), (3.0, 1.0)], true),
        // Degenerate: same segments and they are points
        ([(1.0, 1.0), (1.0, 1.0)], [(1.0, 1.0), (1.0, 1.0)], true),
        // Parallel, not intersecting
        ([(1.0, 3.0), (3.0, 1.0)], [(2.0, 4.0), (4.0, 2.0)], false),
        // Perpendicular, not intersecting, projection of endpoint onto
        // other is an endpoint
        ([(1.0, 1.0), (3.0, 3.0)], [(4.0, 2.0), (5.0, 1.0)], false),
        // Perpendicular, not intersecting
        ([(1.0, 1.0), (3.0, 3.0)], [(3.0, 1.0), (4.0, 0.0)], false),
        // Degenerate: both are points, not intersecting
        ([(1.0, 1.0), (1.0, 1.0)], [(2.0, 1.0), (2.0, 1.0)], false),
        // Degenerate: one is a point, collinear with the other segment,
        // not intersecting
        ([(1.0, 1.0), (3.0, 3.0)], [(4.0, 4.0), (4.0, 4.0)], false),
        // Degenerate: one is a point, not intersecting
        ([(1.0, 1.0), (3.0, 3.0)], [(1.0, 2.0), (1.0, 2.0)], false),
        // Crossing at a steep angle
        ([(1.0, 1.0), (2.0, 5.0)], [(1.0, 4.0), (3.0, 3.0)], true),
    ];
    for (a, b, res) in cases {
        test_seg_seg_permutations(a, b, res);
        // Negating points should not change the result.
        let a = neg(a);
        let b = neg(b);
        test_seg_seg_permutations(a, b, res);
        // Rotating should not change the result.
        let a = rot(a, 42.0);
        let b = rot(b, 42.0);
        test_seg_seg_permutations(a, b, res);
        // Translating should not change the result.
        let a = translate(a, (-3.0, 4.0));
        let b = translate(b, (-3.0, 4.0));
        test_seg_seg_permutations(a, b, res);
        // Scaling should not change the result.
        let a = scale(a, (-0.4, 0.7));
        let b = scale(b, (-0.4, 0.7));
        test_seg_seg_permutations(a, b, res);
    }
}

#[test]
fn point_equality_tolerance() {
    // The shared tolerance admits differences up to 100 units.
    assert!(memeroute::math::pt_eq(pt(0, 0), pt(100, -100)));
    assert!(!memeroute::math::pt_eq(pt(0, 0), pt(101, 0)));
}

#[test]
fn orientation_predicates() {
    let st = pt(0, 0);
    let en = pt(100_000_000, 0);
    assert!(is_strictly_left_of(pt(0, 100_000_000), st, en));
    assert!(!is_strictly_left_of(pt(0, -100_000_000), st, en));
    assert!(is_left_of(pt(50_000_000, 0), st, en));
    assert!(is_collinear(st, en, pt(200_000_000, 0)));
    assert!(!is_collinear(st, en, pt(0, 100_000_000)));
}

#[test]
fn point_distances_exact() {
    // 3-4-5 triangle: the distance is exact.
    assert_eq!(pt_pt_dist(pt(0, 0), pt(300_000_000, 400_000_000)), 500_000_000);
    // Projection inside the segment: perpendicular distance.
    let s = seg(pt(0, 0), pt(100_000_000, 0));
    assert_eq!(pt_seg_dist(&pt(50_000_000, 25_000_000), &s), 25_000_000);
    // Projection outside: distance to the nearer endpoint.
    assert_eq!(pt_seg_dist(&pt(130_000_000, 40_000_000), &s), 50_000_000);
    // Point in a rectangle is at distance zero.
    let r = rt(0, 0, 100_000_000, 100_000_000);
    assert_eq!(pt_rt_dist(&pt(70_000_000, 30_000_000), &r), 0);
    assert_eq!(pt_rt_dist(&pt(130_000_000, 140_000_000), &r), 50_000_000);
}

#[test]
fn segment_distances() {
    // Crossing segments are at distance zero.
    let a = seg(pt(0, 0), pt(100_000_000, 100_000_000));
    let b = seg(pt(0, 100_000_000), pt(100_000_000, 0));
    assert_eq!(seg_seg_dist(&a, &b), 0);
    // Parallel horizontal segments at a vertical gap.
    let c = seg(pt(0, 0), pt(100_000_000, 0));
    let d = seg(pt(0, 30_000_000), pt(100_000_000, 30_000_000));
    assert_eq!(seg_seg_dist(&c, &d), 30_000_000);
    // A capsule eats its radius out of that gap.
    let k = cap(pt(0, 30_000_000), pt(100_000_000, 30_000_000), 10_000_000);
    assert_eq!(cap_seg_dist(&k, &c), 20_000_000);
}

#[test]
fn rect_distances_and_intersections() {
    let a = rt(0, 0, 100_000_000, 100_000_000);
    let b = rt(200_000_000, 0, 300_000_000, 100_000_000);
    assert!(!rt_intersects_rt(&a, &b));
    assert_eq!(rt_rt_dist(&a, &b), 100_000_000);
    let c = rt(50_000_000, 50_000_000, 150_000_000, 150_000_000);
    assert!(rt_intersects_rt(&a, &c));
    assert_eq!(rt_rt_dist(&a, &c), 0);
    // Containment implies intersection.
    let inner = rt(10_000_000, 10_000_000, 90_000_000, 90_000_000);
    assert!(rt_contains_rt(&a, &inner));
    assert!(rt_intersects_rt(&a, &inner));
    // Segment crossing the rectangle.
    let s = seg(pt(-50_000_000, 50_000_000), pt(150_000_000, 50_000_000));
    assert!(rt_intersects_seg(&a, &s));
    assert_eq!(rt_seg_dist(&a, &s), 0);
    // A segment a diagonal corner step away: the distance is the floor of
    // the diagonal between the nearest corner and the segment end.
    let far = seg(pt(200_000_000, 200_000_000), pt(300_000_000, 200_000_000));
    assert!(!rt_intersects_seg(&a, &far));
    assert_eq!(rt_seg_dist(&a, &far), 141_421_356);
}

#[test]
fn circle_and_capsule_against_rect() {
    let r = rt(0, 0, 100_000_000, 100_000_000);
    let inside = circ(pt(50_000_000, 50_000_000), 10_000_000);
    assert!(cap_intersect_rt(&cap(pt(20_000_000, 20_000_000), pt(80_000_000, 80_000_000), 5_000_000), &r));
    assert!(memeroute::distance::circ_intersect_rt(&inside, &r));
    assert_eq!(circ_rt_dist(&inside, &r), 0);
    let outside = circ(pt(180_000_000, 50_000_000), 10_000_000);
    assert!(!memeroute::distance::circ_intersect_rt(&outside, &r));
    assert_eq!(circ_rt_dist(&outside, &r), 70_000_000);
    let far_cap = cap(pt(300_000_000, 0), pt(300_000_000, 100_000_000), 50_000_000);
    assert!(!cap_intersect_rt(&far_cap, &r));
}

#[test]
fn triangle_and_polygon_against_rect() {
    let r = rt(0, 0, 100_000_000, 100_000_000);
    let t = tri(pt(50_000_000, 50_000_000), pt(200_000_000, 50_000_000), pt(50_000_000, 200_000_000));
    assert!(rt_intersects_tri(&r, &t));
    let t2 = tri(pt(500_000_000, 500_000_000), pt(600_000_000, 500_000_000), pt(500_000_000, 600_000_000));
    assert!(!rt_intersects_tri(&r, &t2));
    assert!(tri_contains_pt(&t, pt(70_000_000, 70_000_000)));
    assert!(!tri_contains_pt(&t, pt(0, 0)));
    // A large square polygon contains and intersects a small rectangle.
    let square = poly(vec![
        pt(-200_000_000, -200_000_000),
        pt(200_000_000, -200_000_000),
        pt(200_000_000, 200_000_000),
        pt(-200_000_000, 200_000_000),
    ]);
    assert!(polygon_contains_rt(&square, &r));
    assert!(poly_intersects_rt(&square, &r));
    assert_eq!(pt_poly_dist(&pt(0, 0), &square), 200_000_000);
    // A distant polygon neither contains nor intersects it.
    let far = poly(vec![
        pt(800_000_000, 800_000_000),
        pt(900_000_000, 800_000_000),
        pt(850_000_000, 900_000_000),
    ]);
    assert!(!polygon_contains_rt(&far, &r));
    assert!(!poly_intersects_rt(&far, &r));
}

#[test]
fn paths_and_lines() {
    let r = rt(0, 0, 100_000_000, 100_000_000);
    let p = memeroute::primitive::path(
        vec![pt(-200_000_000, 50_000_000), pt(200_000_000, 50_000_000), pt(200_000_000, 300_000_000)],
        10_000_000,
    );
    assert!(path_intersects_rt(&p, &r));
    let p2 = memeroute::primitive::path(
        vec![pt(-200_000_000, 500_000_000), pt(200_000_000, 500_000_000)],
        10_000_000,
    );
    assert!(!path_intersects_rt(&p2, &r));
    let l1 = memeroute::primitive::line(pt(0, 0), pt(100_000_000, 0));
    let l2 = memeroute::primitive::line(pt(0, 0), pt(0, 100_000_000));
    let l3 = memeroute::primitive::line(pt(0, 50_000_000), pt(100_000_000, 50_000_000));
    assert!(line_intersects_line(&l1, &l2));
    assert!(!line_intersects_line(&l1, &l3));
    assert!(line_intersects_seg(&l1, &seg(pt(50_000_000, -10_000_000), pt(50_000_000, 10_000_000))));
    assert!(!line_intersects_seg(&l1, &seg(pt(50_000_000, 10_000_000), pt(70_000_000, 20_000_000))));
}

#[test]
fn shape_dispatch() {
    let r = Shape::Rect(rt(0, 0, 100_000_000, 100_000_000));
    let c = Shape::Circle(circ(pt(50_000_000, 50_000_000), 10_000_000));
    assert!(r.intersects(&c));
    assert!(c.intersects(&r));
    let sp = Shape::Point(pt(50_000_000, 50_000_000));
    assert!(r.intersects(&sp));
    assert!(r.contains(&sp));
    let outside = Shape::Point(pt(500_000_000, 500_000_000));
    assert!(!r.intersects(&outside));
    let square = Shape::Polygon(poly(vec![
        pt(-200_000_000, -200_000_000),
        pt(200_000_000, -200_000_000),
        pt(200_000_000, 200_000_000),
        pt(-200_000_000, 200_000_000),
    ]));
    assert!(square.contains(&r));
    assert!(square.intersects(&r));
    // A zero-width path closes into a polygon.
    let outline = Shape::Path(memeroute::primitive::path(
        vec![pt(0, 0), pt(100_000_000, 0), pt(50_000_000, 100_000_000)],
        0,
    ));
    let filled = outline.filled();
    match filled {
        Shape::Polygon(p) => assert_eq!(p.pts.len(), 3),
        _ => panic!("a zero-width path should fill into a polygon"),
    }
}
