//! Spatial index and ratsnest tests.

use memeroute::index::{build, QtEntry, SpatialIndex, MAX_DEPTH};
use memeroute::pcb::{Component, LayerShape, Net, Padstack, Pcb, Pin, PinRef};
use memeroute::primitive::{circ, pt, rt};
use memeroute::ratsnest::{edges_to_shapes, full_net_interconnect, kruskal_mst};
use memeroute::router::Router;
use memeroute::shape::Shape;

#[test]
fn quadtree_query_finds_exactly_the_overlapping() {
    let board = rt(0, 0, 1_000_000, 1_000_000);
    let mut items = Vec::new();
    // A grid of tiny boxes with ids 0..=99.
    for gx in 0..10i64 {
        for gy in 0..10i64 {
            let x = gx * 100_000;
            let y = gy * 100_000;
            items.push(QtEntry {
                id: (gx * 10 + gy) as u64,
                bounds: rt(x, y, x + 50_000, y + 50_000),
            });
        }
    }
    let tree = build(items, board, MAX_DEPTH);
    // A query over the lower-left quarter: boxes with gx, gy in 0..=3 overlap
    // it within tolerance; others are far away.
    let q = rt(0, 0, 330_000, 330_000);
    let mut got = tree.query(&q);
    got.sort_unstable();
    let mut want = Vec::new();
    for gx in 0..=3i64 {
        for gy in 0..=3i64 {
            want.push((gx * 10 + gy) as u64);
        }
    }
    assert_eq!(got, want);
    // A query far outside the tree answers nothing.
    assert!(tree.query(&rt(2_000_000, 2_000_000, 3_000_000, 3_000_000)).is_empty());
}

#[test]
fn spatial_index_layers_and_removal() {
    let board = rt(0, 0, 1_000_000, 1_000_000);
    let layer0 = vec![
        QtEntry { id: 1, bounds: rt(0, 0, 100_000, 100_000) },
        QtEntry { id: 2, bounds: rt(500_000, 500_000, 600_000, 600_000) },
    ];
    let layer1 = vec![QtEntry { id: 3, bounds: rt(0, 0, 100_000, 100_000) }];
    let mut idx = SpatialIndex::build_layers(vec![layer0, layer1], board).unwrap();
    let q = rt(0, 0, 50_000, 50_000);
    assert_eq!(idx.query(0, &q), vec![1]);
    assert_eq!(idx.query(1, &q), vec![3]);
    idx.remove(0, 1);
    assert!(idx.query(0, &q).is_empty());
    assert_eq!(idx.query(0, &rt(400_000, 400_000, 700_000, 700_000)), vec![2]);
}

fn two_pad_board() -> Pcb {
    let mut pcb = Pcb::new();
    pcb.add_layer(0);
    pcb.add_boundary(LayerShape {
        layer: 0,
        shape: Shape::Rect(rt(0, 0, 10_000_000, 10_000_000)),
    });
    for (id, x, y) in [(1u64, 2_000_000i64, 5_000_000i64), (2, 8_000_000, 5_000_000), (3, 5_000_000, 8_000_000)] {
        let p = pt(x, y);
        pcb.add_component(Component {
            id,
            p,
            pins: vec![Pin {
                id: 1,
                p,
                padstack: Padstack {
                    id,
                    shapes: vec![LayerShape { layer: 0, shape: Shape::Circle(circ(p, 200_000)) }],
                    attach: false,
                },
            }],
            keepouts: vec![],
        });
    }
    pcb.add_net(Net {
        id: 1,
        pins: vec![
            PinRef { component: 1, pin: 1 },
            PinRef { component: 2, pin: 1 },
            PinRef { component: 3, pin: 1 },
        ],
    });
    pcb
}

#[test]
fn ratsnest_spans_the_net() {
    let pcb = two_pad_board();
    let edges = full_net_interconnect(&pcb, &pcb.nets[0]);
    // Three terminals on one layer: a complete graph of three edges.
    assert_eq!(edges.len(), 3);
    let mst = kruskal_mst(&edges);
    // A spanning tree of three terminals has two edges.
    assert_eq!(mst.len(), 2);
    let shapes = edges_to_shapes(&mst);
    assert_eq!(shapes.len(), 2);
    let router = Router::new(pcb);
    let nest = router.ratsnest();
    assert_eq!(nest.len(), 1);
    assert_eq!(nest[0].len(), 2);
    let all = router.all_possible_connections();
    assert_eq!(all[0].len(), 3);
}
