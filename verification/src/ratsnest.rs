//! The ratsnest: the yet-to-be-routed connections of each net, as shapes for
//! a viewer. The full interconnect is the complete graph over a net's pins
//! on their layers; the ratsnest proper is a minimum spanning tree of it,
//! found by Kruskal's method over the sorted edge list.

use vstd::prelude::*;

verus! {

use crate::primitive::{Pt, Path, pt_pad_ok};
use crate::shape::Shape;
use crate::pcb::{Pcb, Net, PinRef};
use crate::router::Router;

/// A net terminal: a pin on one of its padstack's layers.
#[derive(Clone, Copy, Debug, PartialEq, Eq, Structural)]
pub struct PinOnLayer {
    pub pin_ref: PinRef,
    pub layer: usize,
}

/// One candidate connection between two terminals, with its endpoints and
/// its weighted length.
#[derive(Clone, Copy, Debug)]
pub struct RatsEdge {
    pub a: PinOnLayer,
    pub b: PinOnLayer,
    pub apt: Pt,
    pub bpt: Pt,
    pub weight: u64,
}

impl RatsEdge {
    pub open spec fn wf(self) -> bool {
        crate::primitive::pt_ok(self.apt) && crate::primitive::pt_ok(self.bpt)
    }
}

/// The world position of a pin, if its reference resolves.
pub fn pin_ref_pt(pcb: &Pcb, pr: &PinRef) -> (r: Option<Pt>)
    requires
        pcb.wf(),
    ensures
        match r {
            Some(p) => crate::primitive::pt_ok(p),
            None => true,
        },
{
    match pcb.pin_ref(pr) {
        Some((ci, pi)) => Some(pcb.components[ci].pins[pi].p),
        None => None,
    }
}

/// Cross-layer connections weigh ten times their length.
pub const LAYER_FACTOR: u64 = 10;

/// The complete weighted graph over a net's terminals: one edge for every
/// unordered pair, weighted by distance, heavier across layers.
pub fn full_net_interconnect(pcb: &Pcb, net: &Net) -> (r: Vec<RatsEdge>)
    requires
        pcb.wf(),
    ensures
        forall|i: int| 0 <= i < r@.len() ==> (#[trigger] r@[i]).wf(),
{
    let mut terms: Vec<(PinOnLayer, Pt)> = Vec::new();
    let np = net.pins.len();
    let mut i: usize = 0;
    while i < np
        invariant
            pcb.wf(),
            np == net.pins@.len(),
            i <= np,
            forall|k: int| 0 <= k < terms@.len() ==> crate::primitive::pt_ok(
                (#[trigger] terms@[k]).1,
            ),
        decreases np - i,
    {
        let pr = net.pins[i];
        match pcb.pin_ref(&pr) {
            Some((ci, pi)) => {
                let pin = &pcb.components[ci].pins[pi];
                let p = pin.p;
                let ns = pin.padstack.shapes.len();
                let mut s: usize = 0;
                while s < ns
                    invariant
                        pcb.wf(),
                        ci < pcb.components@.len(),
                        pi < pcb.components@[ci as int].pins@.len(),
                        *pin == pcb.components@[ci as int].pins@[pi as int],
                        ns == pin.padstack.shapes@.len(),
                        s <= ns,
                        crate::primitive::pt_ok(p),
                        forall|k: int| 0 <= k < terms@.len() ==> crate::primitive::pt_ok(
                            (#[trigger] terms@[k]).1,
                        ),
                    decreases ns - s,
                {
                    let layer = pin.padstack.shapes[s].layer;
                    terms.push((PinOnLayer { pin_ref: pr, layer }, p));
                    s = s + 1;
                }
            },
            None => {},
        }
        i = i + 1;
    }
    let mut edges: Vec<RatsEdge> = Vec::new();
    let nt = terms.len();
    i = 0;
    while i < nt
        invariant
            nt == terms@.len(),
            i <= nt,
            forall|k: int| 0 <= k < terms@.len() ==> crate::primitive::pt_ok(
                (#[trigger] terms@[k]).1,
            ),
            forall|k: int| 0 <= k < edges@.len() ==> (#[trigger] edges@[k]).wf(),
        decreases nt - i,
    {
        let mut j: usize = i + 1;
        while j < nt
            invariant
                nt == terms@.len(),
                i < nt,
                i < j <= nt,
                forall|k: int| 0 <= k < terms@.len() ==> crate::primitive::pt_ok(
                    (#[trigger] terms@[k]).1,
                ),
                forall|k: int| 0 <= k < edges@.len() ==> (#[trigger] edges@[k]).wf(),
            decreases nt - j,
        {
            let (ta, pa) = terms[i];
            let (tb, pb) = terms[j];
            let d = crate::distance::pt_pt_dist(pa, pb) as u64;
            let w = if ta.layer == tb.layer {
                d
            } else {
                d * LAYER_FACTOR
            };
            edges.push(RatsEdge { a: ta, b: tb, apt: pa, bpt: pb, weight: w });
            j = j + 1;
        }
        i = i + 1;
    }
    edges
}

/// Half-widths for the drawn connections: heavier across layers, lightest on
/// the top layer.
pub const RATS_R_CROSS: i64 = 250_000;

pub const RATS_R_TOP: i64 = 50_000;

pub const RATS_R_INNER: i64 = 100_000;

/// Draw each positive-length edge as a two-point path.
pub fn edges_to_shapes(edges: &Vec<RatsEdge>) -> (r: Vec<Shape>)
    requires
        forall|i: int| 0 <= i < edges@.len() ==> (#[trigger] edges@[i]).wf(),
    ensures
        forall|i: int| 0 <= i < r@.len() ==> (#[trigger] r@[i]).wf(),
{
    let mut out: Vec<Shape> = Vec::new();
    let n = edges.len();
    let mut i: usize = 0;
    while i < n
        invariant
            n == edges@.len(),
            i <= n,
            forall|k: int| 0 <= k < edges@.len() ==> (#[trigger] edges@[k]).wf(),
            forall|k: int| 0 <= k < out@.len() ==> (#[trigger] out@[k]).wf(),
        decreases n - i,
    {
        let e = edges[i];
        if e.weight > 0 {
            let r: i64 = if e.a.layer != e.b.layer {
                RATS_R_CROSS
            } else if e.a.layer == 0 {
                RATS_R_TOP
            } else {
                RATS_R_INNER
            };
            // Skip an edge whose endpoints leave no room for the width.
            if e.apt.x as i128 - r as i128 >= -crate::COORD_MAX as i128 && e.apt.x as i128
                + r as i128 <= crate::COORD_MAX as i128 && e.apt.y as i128 - r as i128
                >= -crate::COORD_MAX as i128 && e.apt.y as i128 + r as i128
                <= crate::COORD_MAX as i128 && e.bpt.x as i128 - r as i128
                >= -crate::COORD_MAX as i128 && e.bpt.x as i128 + r as i128
                <= crate::COORD_MAX as i128 && e.bpt.y as i128 - r as i128
                >= -crate::COORD_MAX as i128 && e.bpt.y as i128 + r as i128
                <= crate::COORD_MAX as i128 {
                let mut pts: Vec<Pt> = Vec::new();
                pts.push(e.apt);
                pts.push(e.bpt);
                proof {
                    assert(pt_pad_ok(pts@[0], r));
                    assert(pt_pad_ok(pts@[1], r));
                }
                out.push(Shape::Path(crate::primitive::path(pts, r)));
            }
        }
        i = i + 1;
    }
    out
}

/// The root of a terminal's component in the union-find forest.
fn uf_find(parent: &Vec<usize>, mut x: usize) -> (r: usize)
    requires
        x < parent@.len(),
        forall|i: int| 0 <= i < parent@.len() ==> #[trigger] parent@[i] < parent@.len(),
    ensures
        r < parent@.len(),
{
    let mut fuel = parent.len();
    while fuel > 0
        invariant
            x < parent@.len(),
            forall|i: int| 0 <= i < parent@.len() ==> #[trigger] parent@[i] < parent@.len(),
        decreases fuel,
    {
        fuel = fuel - 1;
        let p = parent[x];
        if p == x {
            return x;
        }
        x = p;
    }
    x
}

/// Kruskal's method: take the edges in weight order, keeping one whenever it
/// joins two components. Every kept edge comes from the input.
pub fn kruskal_mst(edges: &Vec<RatsEdge>) -> (r: Vec<RatsEdge>)
    requires
        forall|i: int| 0 <= i < edges@.len() ==> (#[trigger] edges@[i]).wf(),
    ensures
        r@.len() <= edges@.len(),
        forall|i: int| 0 <= i < r@.len() ==> (#[trigger] r@[i]).wf(),
{
    // Vertex table: each distinct terminal gets an index.
    let mut verts: Vec<PinOnLayer> = Vec::new();
    let ne = edges.len();
    let mut i: usize = 0;
    while i < ne
        invariant
            ne == edges@.len(),
            i <= ne,
        decreases ne - i,
    {
        let e = edges[i];
        if vert_index(&verts, e.a).is_none() {
            verts.push(e.a);
        }
        if vert_index(&verts, e.b).is_none() {
            verts.push(e.b);
        }
        i = i + 1;
    }
    let nv = verts.len();
    let mut parent: Vec<usize> = Vec::new();
    let mut k: usize = 0;
    while k < nv
        invariant
            k <= nv,
            parent@.len() == k,
            forall|t: int| 0 <= t < k ==> #[trigger] parent@[t] < nv,
        decreases nv - k,
    {
        parent.push(k);
        k = k + 1;
    }
    // Sort edge indexes by weight, deterministically.
    let mut order: Vec<usize> = Vec::new();
    let mut taken: Vec<bool> = Vec::new();
    i = 0;
    while i < ne
        invariant
            i <= ne,
            taken@.len() == i,
        decreases ne - i,
    {
        taken.push(false);
        i = i + 1;
    }
    i = 0;
    while i < ne
        invariant
            ne == edges@.len(),
            taken@.len() == ne,
            i <= ne,
            order@.len() <= i,
            forall|t: int| 0 <= t < order@.len() ==> #[trigger] order@[t] < ne,
        decreases ne - i,
    {
        let mut bi: usize = ne;
        let mut bw: u64 = u64::MAX;
        let mut t: usize = 0;
        while t < ne
            invariant
                ne == edges@.len(),
                taken@.len() == ne,
                t <= ne,
                bi <= ne,
            decreases ne - t,
        {
            if !taken[t] && (bi == ne || edges[t].weight < bw) {
                bi = t;
                bw = edges[t].weight;
            }
            t = t + 1;
        }
        if bi == ne {
            break ;
        }
        taken.set(bi, true);
        order.push(bi);
        i = i + 1;
    }
    // Take each edge that joins two components.
    let mut mst: Vec<RatsEdge> = Vec::new();
    let no = order.len();
    k = 0;
    while k < no
        invariant
            ne == edges@.len(),
            no == order@.len(),
            k <= no,
            nv == verts@.len(),
            parent@.len() == nv,
            forall|t: int| 0 <= t < order@.len() ==> #[trigger] order@[t] < ne,
            forall|t: int| 0 <= t < parent@.len() ==> #[trigger] parent@[t] < parent@.len(),
            mst@.len() <= k,
            forall|t: int| 0 <= t < edges@.len() ==> (#[trigger] edges@[t]).wf(),
            forall|t: int| 0 <= t < mst@.len() ==> (#[trigger] mst@[t]).wf(),
        decreases no - k,
    {
        let e = edges[order[k]];
        let ia = vert_index(&verts, e.a);
        let ib = vert_index(&verts, e.b);
        match (ia, ib) {
            (Some(ia), Some(ib)) => {
                let ra = uf_find(&parent, ia);
                let rb = uf_find(&parent, ib);
                if ra != rb {
                    parent.set(ra, rb);
                    mst.push(e);
                }
            },
            _ => {},
        }
        k = k + 1;
    }
    mst
}

/// The index of a terminal in the vertex table.
fn vert_index(verts: &Vec<PinOnLayer>, v: PinOnLayer) -> (r: Option<usize>)
    ensures
        match r {
            Some(i) => i < verts@.len(),
            None => true,
        },
{
    let n = verts.len();
    let mut i: usize = 0;
    while i < n
        invariant
            n == verts@.len(),
            i <= n,
        decreases n - i,
    {
        if verts[i].pin_ref.component == v.pin_ref.component && verts[i].pin_ref.pin
            == v.pin_ref.pin && verts[i].layer == v.layer {
            return Some(i);
        }
        i = i + 1;
    }
    None
}

impl Router {
    /// Every candidate connection of every net, drawn as shapes.
    pub fn all_possible_connections(&self) -> (r: Vec<Vec<Shape>>)
        requires
            self.wf(),
        ensures
            r@.len() == self.pcb.nets@.len(),
    {
        let mut out: Vec<Vec<Shape>> = Vec::new();
        let n = self.pcb.nets.len();
        let mut i: usize = 0;
        while i < n
            invariant
                self.wf(),
                n == self.pcb.nets@.len(),
                i <= n,
                out@.len() == i,
            decreases n - i,
        {
            let edges = full_net_interconnect(&self.pcb, &self.pcb.nets[i]);
            out.push(edges_to_shapes(&edges));
            i = i + 1;
        }
        out
    }

    /// The ratsnest: a minimum spanning tree of each net's interconnect,
    /// drawn as shapes.
    pub fn ratsnest(&self) -> (r: Vec<Vec<Shape>>)
        requires
            self.wf(),
        ensures
            r@.len() == self.pcb.nets@.len(),
    {
        let mut out: Vec<Vec<Shape>> = Vec::new();
        let n = self.pcb.nets.len();
        let mut i: usize = 0;
        while i < n
            invariant
                self.wf(),
                n == self.pcb.nets@.len(),
                i <= n,
                out@.len() == i,
            decreases n - i,
        {
            let edges = full_net_interconnect(&self.pcb, &self.pcb.nets[i]);
            let mst = kruskal_mst(&edges);
            out.push(edges_to_shapes(&mst));
            i = i + 1;
        }
        out
    }
}

} // verus!
