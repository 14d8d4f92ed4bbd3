//! End-to-end routing scenarios on small boards, the result-merge laws, the
//! cost formula, and the net-order driver.

use memeroute::driver::{Driver, DriverCfg};
use memeroute::pcb::{
    Component, Keepout, KeepoutType, LayerShape, Net, Padstack, Pcb, Pin, PinRef, Rules, Via, Wire,
};
use memeroute::primitive::{circ, pt, rt};
use memeroute::router::{
    apply_route_result, path_len, route_cost, RouteResult, Router, K_FAIL, K_VIA,
};
use memeroute::shape::Shape;

/// One unit of board coordinates in internal units.
const U: i64 = 1_000_000;

/// A board of the given size in units with the given number of layers.
fn board(w: i64, h: i64, layers: usize) -> Pcb {
    let mut pcb = Pcb::new();
    pcb.rules = Rules {
        clearance: 100_000,
        trace_width: 100_000,
        grid_step: 500_000,
        via_cost: 100,
    };
    for l in 0..layers {
        pcb.add_layer(l as u64);
    }
    pcb.add_boundary(LayerShape {
        layer: 0,
        shape: Shape::Rect(rt(0, 0, w * U, h * U)),
    });
    let mut shapes = Vec::new();
    for l in 0..layers {
        shapes.push(LayerShape {
            layer: l,
            shape: Shape::Circle(circ(pt(0, 0), 200_000)),
        });
    }
    pcb.add_via_padstack(Padstack { id: 900, shapes, attach: true });
    pcb
}

/// A one-pin component whose circular pad sits at `(x, y)` units, on each of
/// the given layers.
fn pad(id: u64, x: i64, y: i64, layers: &[usize]) -> Component {
    let p = pt(x * U, y * U);
    let mut shapes = Vec::new();
    for &l in layers {
        shapes.push(LayerShape {
            layer: l,
            shape: Shape::Circle(circ(p, 200_000)),
        });
    }
    Component {
        id,
        p,
        pins: vec![Pin { id: 1, p, padstack: Padstack { id, shapes, attach: false } }],
        keepouts: vec![],
    }
}

fn net(id: u64, comps: &[u64]) -> Net {
    Net {
        id,
        pins: comps.iter().map(|&c| PinRef { component: c, pin: 1 }).collect(),
    }
}

fn total_wire_len(r: &RouteResult) -> u64 {
    let mut t = 0u64;
    for w in &r.wires {
        t += path_len(&w.path);
    }
    t
}

#[test]
fn two_pin_straight_line() {
    let mut pcb = board(10, 10, 1);
    pcb.add_component(pad(1, 2, 5, &[0]));
    pcb.add_component(pad(2, 8, 5, &[0]));
    pcb.add_net(net(1, &[1, 2]));
    let router = Router::new(pcb);
    let res = router.route(vec![1]).unwrap();
    assert!(!res.failed);
    assert_eq!(res.wires.len(), 1);
    assert_eq!(res.vias.len(), 0);
    // Length equal to the pin-to-pin distance, give or take one grid step.
    let len = total_wire_len(&res);
    assert!(len >= 5_500_000, "wire too short: {}", len);
    assert!(len <= 6_500_000, "wire too long: {}", len);
}

#[test]
fn two_pin_keepout_detour() {
    let mut pcb = board(10, 10, 1);
    pcb.add_component(pad(1, 2, 5, &[0]));
    pcb.add_component(pad(2, 8, 5, &[0]));
    pcb.add_net(net(1, &[1, 2]));
    // A vertical wall between the pins, leaving room above and below.
    pcb.add_keepout(Keepout {
        kind: KeepoutType::Keepout,
        shape: LayerShape {
            layer: 0,
            shape: Shape::Rect(rt(4_800_000, 2 * U, 5_200_000, 8 * U)),
        },
    });
    let router = Router::new(pcb);
    let res = router.route(vec![1]).unwrap();
    assert!(!res.failed);
    assert_eq!(res.vias.len(), 0);
    let len = total_wire_len(&res);
    // The wire must detour around the wall: longer than the straight line,
    // and within ten percent of the shortest detour through the gap.
    assert!(len > 7_000_000, "no detour: {}", len);
    assert!(len <= 11_000_000, "detour too long: {}", len);
}

#[test]
fn two_layer_via_crossing() {
    let mut pcb = board(10, 10, 2);
    pcb.add_component(pad(1, 2, 5, &[0]));
    pcb.add_component(pad(2, 8, 5, &[0]));
    pcb.add_net(net(1, &[1, 2]));
    // A full-height wall on the top layer only.
    pcb.add_keepout(Keepout {
        kind: KeepoutType::Keepout,
        shape: LayerShape {
            layer: 0,
            shape: Shape::Rect(rt(4_800_000, 0, 5_200_000, 10 * U)),
        },
    });
    let router = Router::new(pcb);
    let res = router.route(vec![1]).unwrap();
    assert!(!res.failed);
    assert_eq!(res.vias.len(), 2);
    assert!(res.wires.iter().any(|w| w.layer == 0));
    assert!(res.wires.iter().any(|w| w.layer == 1));
}

#[test]
fn three_pin_tree() {
    let mut pcb = board(10, 10, 1);
    pcb.add_component(pad(1, 2, 2, &[0]));
    pcb.add_component(pad(2, 8, 2, &[0]));
    pcb.add_component(pad(3, 5, 8, &[0]));
    pcb.add_net(net(1, &[1, 2, 3]));
    let router = Router::new(pcb);
    let res = router.route(vec![1]).unwrap();
    assert!(!res.failed);
    assert_eq!(res.vias.len(), 0);
    // A tree over three pins: one wire per connection grown from the tree.
    assert_eq!(res.wires.len(), 2);
}

#[test]
fn crossing_nets_both_orders() {
    fn make() -> Pcb {
        let mut pcb = board(10, 10, 1);
        pcb.add_component(pad(1, 2, 2, &[0]));
        pcb.add_component(pad(2, 8, 8, &[0]));
        pcb.add_component(pad(3, 2, 8, &[0]));
        pcb.add_component(pad(4, 8, 2, &[0]));
        pcb.add_net(net(1, &[1, 2]));
        pcb.add_net(net(2, &[3, 4]));
        pcb
    }
    let router = Router::new(make());
    let res_ab = router.route(vec![1, 2]).unwrap();
    assert!(!res_ab.failed, "order [1, 2] failed");
    let res_ba = router.route(vec![2, 1]).unwrap();
    assert!(!res_ba.failed, "order [2, 1] failed");
    let cost_ab = route_cost(&res_ab);
    let cost_ba = route_cost(&res_ba);
    // The driver's chosen order costs no more than either fixed order.
    let driver = Driver::new(Router::new(make()), DriverCfg::new(2, 11));
    let d = driver.run().unwrap();
    assert!(d.best_cost <= cost_ab.min(cost_ba));
    assert!(!d.result.failed);
}

#[test]
fn unroutable_net_is_flagged() {
    let mut pcb = board(10, 10, 1);
    pcb.add_component(pad(1, 5, 5, &[0]));
    pcb.add_component(pad(2, 8, 8, &[0]));
    pcb.add_component(pad(3, 2, 2, &[0]));
    pcb.add_component(pad(4, 2, 8, &[0]));
    // Enclose the first pad fully in a keepout on its only layer.
    pcb.add_keepout(Keepout {
        kind: KeepoutType::Keepout,
        shape: LayerShape {
            layer: 0,
            shape: Shape::Rect(rt(4 * U, 4 * U, 6 * U, 6 * U)),
        },
    });
    pcb.add_net(net(1, &[1, 2]));
    pcb.add_net(net(2, &[3, 4]));
    let router = Router::new(pcb);
    let res = router.route(vec![1, 2]).unwrap();
    assert!(res.failed);
    assert_eq!(res.failed_nets, vec![1]);
    // The other net is still routed.
    assert!(res.wires.iter().any(|w| w.net == 2));
    assert!(!res.wires.iter().any(|w| w.net == 1));
}

#[test]
fn invalid_board_is_fatal() {
    // No layers and no boundary: routing must refuse the board.
    let pcb = Pcb::new();
    let router = Router::new(pcb);
    assert!(router.route(vec![]).is_err());
    // A net whose pin reference does not resolve is refused too.
    let mut pcb = board(10, 10, 1);
    pcb.add_net(net(1, &[42]));
    let router = Router::new(pcb);
    assert!(router.route(vec![1]).is_err());
    // Duplicate ids are refused: two nets sharing an id...
    let mut pcb = board(10, 10, 1);
    pcb.add_component(pad(1, 2, 5, &[0]));
    pcb.add_component(pad(2, 8, 5, &[0]));
    pcb.add_net(net(7, &[1, 2]));
    pcb.add_net(net(7, &[1, 2]));
    assert!(Router::new(pcb).route(vec![7]).is_err());
    // ... and two components sharing an id.
    let mut pcb = board(10, 10, 1);
    pcb.add_component(pad(1, 2, 5, &[0]));
    pcb.add_component(pad(1, 8, 5, &[0]));
    pcb.add_net(net(1, &[1]));
    assert!(Router::new(pcb).route(vec![1]).is_err());
}

#[test]
fn merge_is_associative_and_ors_failure() {
    fn mk(net: u64, failed: bool) -> RouteResult {
        let mut r = RouteResult::new();
        r.vias.push(Via { p: pt(net as i64, 0), padstack: 900, net });
        if failed {
            r.failed = true;
            r.failed_nets.push(net);
        }
        r
    }
    // (a + b) + c
    let mut ab = mk(1, false);
    ab.merge(mk(2, true));
    let mut ab_c = ab;
    ab_c.merge(mk(3, false));
    // a + (b + c)
    let mut bc = mk(2, true);
    bc.merge(mk(3, false));
    let mut a_bc = mk(1, false);
    a_bc.merge(bc);
    assert_eq!(ab_c.vias.len(), a_bc.vias.len());
    for i in 0..ab_c.vias.len() {
        assert_eq!(ab_c.vias[i].net, a_bc.vias[i].net);
    }
    assert_eq!(ab_c.failed_nets, a_bc.failed_nets);
    assert_eq!(ab_c.failed, a_bc.failed);
    assert!(ab_c.failed);
    // Merging an empty result changes nothing.
    let mut a = mk(1, false);
    a.merge(RouteResult::new());
    assert_eq!(a.vias.len(), 1);
    assert!(!a.failed);
}

#[test]
fn cost_formula_exact() {
    let mut r = RouteResult::new();
    r.failed = true;
    r.failed_nets.push(7);
    r.vias.push(Via { p: pt(0, 0), padstack: 900, net: 7 });
    r.vias.push(Via { p: pt(U, 0), padstack: 900, net: 7 });
    // One wire: a 3-4-5 leg of exactly 500 units.
    r.wires.push(Wire {
        path: memeroute::primitive::path(vec![pt(0, 0), pt(300, 400)], 50),
        layer: 0,
        net: 7,
    });
    assert_eq!(route_cost(&r), K_FAIL + 2 * K_VIA + 500);
}

#[test]
fn best_permutation_reproducible_from_seed() {
    fn make() -> Pcb {
        let mut pcb = board(10, 10, 1);
        pcb.add_component(pad(1, 2, 2, &[0]));
        pcb.add_component(pad(2, 8, 8, &[0]));
        pcb.add_component(pad(3, 2, 8, &[0]));
        pcb.add_component(pad(4, 8, 2, &[0]));
        pcb.add_net(net(1, &[1, 2]));
        pcb.add_net(net(2, &[3, 4]));
        pcb
    }
    let d1 = Driver::new(Router::new(make()), DriverCfg::new(3, 42)).run().unwrap();
    let d2 = Driver::new(Router::new(make()), DriverCfg::new(3, 42)).run().unwrap();
    assert_eq!(d1.best_order, d2.best_order);
    assert_eq!(d1.best_cost, d2.best_cost);
}

#[test]
fn routed_cost_never_beats_driver_best() {
    fn make() -> Pcb {
        let mut pcb = board(10, 10, 1);
        pcb.add_component(pad(1, 2, 2, &[0]));
        pcb.add_component(pad(2, 8, 8, &[0]));
        pcb.add_component(pad(3, 2, 8, &[0]));
        pcb.add_component(pad(4, 8, 2, &[0]));
        pcb.add_net(net(1, &[1, 2]));
        pcb.add_net(net(2, &[3, 4]));
        pcb
    }
    let router = Router::new(make());
    let d = Driver::new(Router::new(make()), DriverCfg::new(3, 5)).run().unwrap();
    // Routing any permutation costs at least the driver's best, and every
    // ordering the driver evaluated did too.
    for order in [vec![1u64, 2], vec![2u64, 1]] {
        let res = router.route(order).unwrap();
        assert!(route_cost(&res) >= d.best_cost);
    }
    for e in &d.evals {
        assert!(e.cost >= d.best_cost);
    }
}

#[test]
fn sorted_net_order_and_apply() {
    let mut pcb = board(10, 10, 1);
    pcb.add_component(pad(1, 2, 5, &[0]));
    pcb.add_component(pad(2, 8, 5, &[0]));
    pcb.add_net(net(3, &[1, 2]));
    pcb.add_net(net(1, &[1, 2]));
    pcb.add_net(net(2, &[1, 2]));
    let router = Router::new(pcb.snapshot());
    assert_eq!(router.rand_net_order(), vec![1, 2, 3]);
    let res = router.route(vec![1]).unwrap();
    let wires_before = pcb.wires.len();
    let added = res.wires.len();
    apply_route_result(&mut pcb, res);
    assert_eq!(pcb.wires.len(), wires_before + added);
}
