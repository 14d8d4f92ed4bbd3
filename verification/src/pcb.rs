//! The board model: a typed snapshot of layers, components, pins, keepouts,
//! boundary and nets, plus the mutable result buffer for wires and vias.
//!
//! All geometry is stored in internal fixed-point units and in world
//! coordinates: the conversion from a board description resolves component
//! placements before the model is built, so the router reads shapes as they
//! lie on the board.

use vstd::prelude::*;

verus! {

use crate::primitive::{Pt, Rt, Path};
use crate::shape::Shape;

/// A shape on a layer.
#[derive(Clone, Debug)]
pub struct LayerShape {
    pub layer: usize,
    pub shape: Shape,
}

impl LayerShape {
    pub open spec fn wf(self) -> bool {
        self.shape.wf()
    }
}

/// Which class of routing a keepout forbids.
#[derive(Clone, Copy, Debug, PartialEq, Eq, Structural)]
pub enum KeepoutType {
    Keepout,
    ViaKeepout,
    WireKeepout,
}

/// A region forbidden to some class of routing on a layer.
#[derive(Clone, Debug)]
pub struct Keepout {
    pub kind: KeepoutType,
    pub shape: LayerShape,
}

/// A pad's per-layer footprint, with the through-hole/surface flag.
#[derive(Clone, Debug)]
pub struct Padstack {
    pub id: u64,
    pub shapes: Vec<LayerShape>,
    pub attach: bool,
}

impl Padstack {
    pub open spec fn wf(self) -> bool {
        forall|i: int| 0 <= i < self.shapes@.len() ==> (#[trigger] self.shapes@[i]).wf()
    }
}

/// A pin: its world-coordinate centre and its padstack, already placed.
#[derive(Clone, Debug)]
pub struct Pin {
    pub id: u64,
    pub p: Pt,
    pub padstack: Padstack,
}

impl Pin {
    pub open spec fn wf(self) -> bool {
        crate::primitive::pt_ok(self.p) && self.padstack.wf()
    }
}

/// A placed component: its pins and component-level keepouts, all in world
/// coordinates.
#[derive(Clone, Debug)]
pub struct Component {
    pub id: u64,
    pub p: Pt,
    pub pins: Vec<Pin>,
    pub keepouts: Vec<Keepout>,
}

impl Component {
    pub open spec fn wf(self) -> bool {
        &&& crate::primitive::pt_ok(self.p)
        &&& forall|i: int| 0 <= i < self.pins@.len() ==> (#[trigger] self.pins@[i]).wf()
        &&& forall|i: int| 0 <= i < self.keepouts@.len() ==> (#[trigger] self.keepouts@[i]).shape.wf()
    }
}

/// A reference to one pin of one component.
#[derive(Clone, Copy, Debug, PartialEq, Eq, Structural, Hash)]
pub struct PinRef {
    pub component: u64,
    pub pin: u64,
}

/// A net: a stable id and the pins it must connect.
#[derive(Clone, Debug)]
pub struct Net {
    pub id: u64,
    pub pins: Vec<PinRef>,
}

/// A routed wire: a widened polyline on one layer, owned by a net.
#[derive(Clone, Debug)]
pub struct Wire {
    pub path: Path,
    pub layer: usize,
    pub net: u64,
}

impl Wire {
    pub open spec fn wf(self) -> bool {
        self.path.wf()
    }
}

/// A via: a position and the id of the padstack bridging the layers, owned
/// by a net.
#[derive(Clone, Copy, Debug)]
pub struct Via {
    pub p: Pt,
    pub padstack: u64,
    pub net: u64,
}

impl Via {
    pub open spec fn wf(self) -> bool {
        crate::primitive::pt_ok(self.p)
    }
}

/// Routing rules: a single global clearance, the trace width, the grid step
/// and the cost of a via in path-search cost units.
#[derive(Clone, Copy, Debug)]
pub struct Rules {
    pub clearance: i64,
    pub trace_width: i64,
    pub grid_step: i64,
    pub via_cost: u64,
}

impl Rules {
    pub open spec fn wf(self) -> bool {
        &&& 0 <= self.clearance <= 1_000_000
        &&& 0 < self.trace_width <= 1_000_000
        &&& 0 < self.grid_step <= 1_000_000
        &&& self.via_cost <= 1_000_000
    }
}

/// Equality of layered shapes, up to vector identity.
pub open spec fn layer_shape_eq(a: LayerShape, b: LayerShape) -> bool {
    a.layer == b.layer && a.shape.shape_eq(b.shape)
}

pub open spec fn keepout_eq(a: Keepout, b: Keepout) -> bool {
    a.kind == b.kind && layer_shape_eq(a.shape, b.shape)
}

pub open spec fn padstack_eq(a: Padstack, b: Padstack) -> bool {
    &&& a.id == b.id
    &&& a.attach == b.attach
    &&& a.shapes@.len() == b.shapes@.len()
    &&& forall|i: int|
        0 <= i < a.shapes@.len() ==> layer_shape_eq(
            #[trigger] a.shapes@[i],
            #[trigger] b.shapes@[i],
        )
}

pub open spec fn pin_eq(a: Pin, b: Pin) -> bool {
    a.id == b.id && a.p == b.p && padstack_eq(a.padstack, b.padstack)
}

pub open spec fn component_eq(a: Component, b: Component) -> bool {
    &&& a.id == b.id
    &&& a.p == b.p
    &&& a.pins@.len() == b.pins@.len()
    &&& forall|i: int|
        0 <= i < a.pins@.len() ==> pin_eq(#[trigger] a.pins@[i], #[trigger] b.pins@[i])
    &&& a.keepouts@.len() == b.keepouts@.len()
    &&& forall|i: int|
        0 <= i < a.keepouts@.len() ==> keepout_eq(
            #[trigger] a.keepouts@[i],
            #[trigger] b.keepouts@[i],
        )
}

pub open spec fn net_eq(a: Net, b: Net) -> bool {
    a.id == b.id && a.pins@ == b.pins@
}

pub open spec fn wire_eq(a: Wire, b: Wire) -> bool {
    a.layer == b.layer && a.net == b.net && a.path.pts@ == b.path.pts@ && a.path.r == b.path.r
}

/// The board: boundary, layers, keepouts, components and nets, with the
/// mutable per-pass result buffer of wires, vias and debug rectangles.
#[derive(Clone, Debug)]
pub struct Pcb {
    pub resolution_num: u64,
    pub resolution_den: u64,
    pub rules: Rules,
    pub layers: Vec<u64>,
    pub boundaries: Vec<LayerShape>,
    pub keepouts: Vec<Keepout>,
    pub via_padstacks: Vec<Padstack>,
    pub components: Vec<Component>,
    pub nets: Vec<Net>,
    pub wires: Vec<Wire>,
    pub vias: Vec<Via>,
    pub debug_rts: Vec<Rt>,
}

impl Pcb {
    pub open spec fn wf(self) -> bool {
        &&& self.rules.wf()
        &&& forall|i: int| 0 <= i < self.boundaries@.len() ==> (#[trigger] self.boundaries@[i]).wf()
        &&& forall|i: int| 0 <= i < self.keepouts@.len() ==> (#[trigger] self.keepouts@[i]).shape.wf()
        &&& forall|i: int| 0 <= i < self.via_padstacks@.len() ==> (#[trigger] self.via_padstacks@[i]).wf()
        &&& forall|i: int| 0 <= i < self.components@.len() ==> (#[trigger] self.components@[i]).wf()
        &&& forall|i: int| 0 <= i < self.wires@.len() ==> (#[trigger] self.wires@[i]).wf()
        &&& forall|i: int| 0 <= i < self.vias@.len() ==> (#[trigger] self.vias@[i]).wf()
    }

    /// An empty board with default rules.
    pub fn new() -> (r: Pcb)
        ensures
            r.wf(),
            r.layers@.len() == 0,
            r.nets@.len() == 0,
            r.wires@.len() == 0,
            r.vias@.len() == 0,
            r.components@.len() == 0,
            r.boundaries@.len() == 0,
            r.keepouts@.len() == 0,
            r.via_padstacks@.len() == 0,
            r.debug_rts@.len() == 0,
    {
        Pcb {
            resolution_num: 1,
            resolution_den: 1,
            rules: Rules { clearance: 100_000, trace_width: 100_000, grid_step: 500_000, via_cost: 100 },
            layers: Vec::new(),
            boundaries: Vec::new(),
            keepouts: Vec::new(),
            via_padstacks: Vec::new(),
            components: Vec::new(),
            nets: Vec::new(),
            wires: Vec::new(),
            vias: Vec::new(),
            debug_rts: Vec::new(),
        }
    }

    pub fn add_layer(&mut self, id: u64)
        ensures
            final(self).layers@ == old(self).layers@.push(id),
            *final(self) == (Pcb { layers: final(self).layers, ..*old(self) }),
    {
        self.layers.push(id);
    }

    pub fn add_boundary(&mut self, s: LayerShape)
        requires
            s.wf(),
        ensures
            final(self).boundaries@ == old(self).boundaries@.push(s),
            *final(self) == (Pcb { boundaries: final(self).boundaries, ..*old(self) }),
    {
        self.boundaries.push(s);
    }

    pub fn add_keepout(&mut self, k: Keepout)
        requires
            k.shape.wf(),
        ensures
            final(self).keepouts@ == old(self).keepouts@.push(k),
            *final(self) == (Pcb { keepouts: final(self).keepouts, ..*old(self) }),
    {
        self.keepouts.push(k);
    }

    pub fn add_via_padstack(&mut self, p: Padstack)
        requires
            p.wf(),
        ensures
            final(self).via_padstacks@ == old(self).via_padstacks@.push(p),
            *final(self) == (Pcb { via_padstacks: final(self).via_padstacks, ..*old(self) }),
    {
        self.via_padstacks.push(p);
    }

    pub fn add_component(&mut self, c: Component)
        requires
            c.wf(),
        ensures
            final(self).components@ == old(self).components@.push(c),
            *final(self) == (Pcb { components: final(self).components, ..*old(self) }),
    {
        self.components.push(c);
    }

    pub fn add_net(&mut self, n: Net)
        ensures
            final(self).nets@ == old(self).nets@.push(n),
            *final(self) == (Pcb { nets: final(self).nets, ..*old(self) }),
    {
        self.nets.push(n);
    }

    pub fn add_wire(&mut self, w: Wire)
        requires
            w.wf(),
        ensures
            final(self).wires@ == old(self).wires@.push(w),
            *final(self) == (Pcb { wires: final(self).wires, ..*old(self) }),
    {
        self.wires.push(w);
    }

    pub fn add_via(&mut self, v: Via)
        requires
            v.wf(),
        ensures
            final(self).vias@ == old(self).vias@.push(v),
            *final(self) == (Pcb { vias: final(self).vias, ..*old(self) }),
    {
        self.vias.push(v);
    }

    pub fn add_debug_rt(&mut self, r: Rt)
        ensures
            final(self).debug_rts@ == old(self).debug_rts@.push(r),
            *final(self) == (Pcb { debug_rts: final(self).debug_rts, ..*old(self) }),
    {
        self.debug_rts.push(r);
    }

    /// The index of the component with the given id, if any.
    pub fn find_component(&self, id: u64) -> (r: Option<usize>)
        ensures
            match r {
                Some(i) => 0 <= i < self.components@.len() && self.components@[i as int].id == id,
                None => forall|i: int|
                    0 <= i < self.components@.len() ==> (#[trigger] self.components@[i]).id != id,
            },
    {
        let n = self.components.len();
        let mut i: usize = 0;
        while i < n
            invariant
                n == self.components@.len(),
                i <= n,
                forall|j: int| 0 <= j < i ==> (#[trigger] self.components@[j]).id != id,
            decreases n - i,
        {
            if self.components[i].id == id {
                return Some(i);
            }
            i = i + 1;
        }
        None
    }

    /// No two components share an id.
    pub open spec fn unique_component_ids(self) -> bool {
        forall|i: int, j: int|
            0 <= i < j < self.components@.len() ==> (#[trigger] self.components@[i]).id != (
            #[trigger] self.components@[j]).id
    }

    /// No two nets share an id.
    pub open spec fn unique_net_ids(self) -> bool {
        forall|i: int, j: int|
            0 <= i < j < self.nets@.len() ==> (#[trigger] self.nets@[i]).id != (
            #[trigger] self.nets@[j]).id
    }

    /// Within each component, no two pins share an id.
    pub open spec fn unique_pin_ids(self) -> bool {
        forall|c: int, i: int, j: int|
            0 <= c < self.components@.len() && 0 <= i < j
                < (#[trigger] self.components@[c]).pins@.len()
                ==> (#[trigger] self.components@[c].pins@[i]).id != (
            #[trigger] self.components@[c].pins@[j]).id
    }

    /// The pin reference names some component and a pin it carries.
    pub open spec fn spec_pin_resolves(self, pr: PinRef) -> bool {
        exists|ci: int|
            0 <= ci < self.components@.len() && (#[trigger] self.components@[ci]).id
                == pr.component && exists|pi: int|
                0 <= pi < self.components@[ci].pins@.len() && (
                #[trigger] self.components@[ci].pins@[pi]).id == pr.pin
    }

    /// Resolve a pin reference to component and pin indexes.
    pub fn pin_ref(&self, pr: &PinRef) -> (r: Option<(usize, usize)>)
        ensures
            match r {
                Some((ci, pi)) => {
                    &&& 0 <= ci < self.components@.len()
                    &&& self.components@[ci as int].id == pr.component
                    &&& 0 <= pi < self.components@[ci as int].pins@.len()
                    &&& self.components@[ci as int].pins@[pi as int].id == pr.pin
                },
                None => self.unique_component_ids() ==> !self.spec_pin_resolves(*pr),
            },
    {
        let ci = match self.find_component(pr.component) {
            Some(ci) => ci,
            None => {
                return None;
            },
        };
        let c = &self.components[ci];
        let n = c.pins.len();
        let mut i: usize = 0;
        while i < n
            invariant
                0 <= ci < self.components@.len(),
                *c == self.components@[ci as int],
                c.id == pr.component,
                n == c.pins@.len(),
                i <= n,
                forall|k: int| 0 <= k < i ==> (#[trigger] c.pins@[k]).id != pr.pin,
            decreases n - i,
        {
            if c.pins[i].id == pr.pin {
                return Some((ci, i));
            }
            i = i + 1;
        }
        proof {
            if self.unique_component_ids() && self.spec_pin_resolves(*pr) {
                let w = choose|w: int|
                    0 <= w < self.components@.len() && (#[trigger] self.components@[w]).id
                        == pr.component && exists|pi: int|
                        0 <= pi < self.components@[w].pins@.len() && (
                        #[trigger] self.components@[w].pins@[pi]).id == pr.pin;
                assert(w == ci);
                assert(false);
            }
        }
        None
    }

    /// Every pin reference of every net resolves to a component and pin.
    pub open spec fn nets_resolve(self) -> bool {
        forall|i: int, j: int|
            0 <= i < self.nets@.len() && 0 <= j < (#[trigger] self.nets@[i]).pins@.len()
                ==> self.spec_pin_resolves(#[trigger] self.nets@[i].pins@[j])
    }

    /// The board is routable input: it has layers and a boundary, ids are
    /// unique, and every net's pin references resolve.
    pub open spec fn spec_board_valid(self) -> bool {
        &&& self.layers@.len() > 0
        &&& self.boundaries@.len() > 0
        &&& self.unique_net_ids()
        &&& self.unique_component_ids()
        &&& self.unique_pin_ids()
        &&& self.nets_resolve()
    }

    /// Two boards carry the same data, up to vector identity.
    pub open spec fn pcb_eq(self, o: Pcb) -> bool {
        &&& self.resolution_num == o.resolution_num
        &&& self.resolution_den == o.resolution_den
        &&& self.rules == o.rules
        &&& self.layers@ == o.layers@
        &&& self.boundaries@.len() == o.boundaries@.len()
        &&& forall|i: int|
            0 <= i < self.boundaries@.len() ==> layer_shape_eq(
                #[trigger] self.boundaries@[i],
                #[trigger] o.boundaries@[i],
            )
        &&& self.keepouts@.len() == o.keepouts@.len()
        &&& forall|i: int|
            0 <= i < self.keepouts@.len() ==> keepout_eq(
                #[trigger] self.keepouts@[i],
                #[trigger] o.keepouts@[i],
            )
        &&& self.via_padstacks@.len() == o.via_padstacks@.len()
        &&& forall|i: int|
            0 <= i < self.via_padstacks@.len() ==> padstack_eq(
                #[trigger] self.via_padstacks@[i],
                #[trigger] o.via_padstacks@[i],
            )
        &&& self.components@.len() == o.components@.len()
        &&& forall|i: int|
            0 <= i < self.components@.len() ==> component_eq(
                #[trigger] self.components@[i],
                #[trigger] o.components@[i],
            )
        &&& self.nets@.len() == o.nets@.len()
        &&& forall|i: int|
            0 <= i < self.nets@.len() ==> net_eq(#[trigger] self.nets@[i], #[trigger] o.nets@[i])
        &&& self.wires@.len() == o.wires@.len()
        &&& forall|i: int|
            0 <= i < self.wires@.len() ==> wire_eq(
                #[trigger] self.wires@[i],
                #[trigger] o.wires@[i],
            )
        &&& self.vias@ == o.vias@
        &&& self.debug_rts@ == o.debug_rts@
    }

    /// Decide `spec_board_valid`, exactly.
    pub fn validate(&self) -> (r: bool)
        ensures
            r == self.spec_board_valid(),
    {
        if self.layers.len() == 0 || self.boundaries.len() == 0 {
            return false;
        }
        // Unique net ids.
        let nn = self.nets.len();
        let mut i: usize = 0;
        while i < nn
            invariant
                nn == self.nets@.len(),
                i <= nn,
                forall|a: int, b: int|
                    0 <= a < b < nn && a < i ==> (#[trigger] self.nets@[a]).id != (
                    #[trigger] self.nets@[b]).id,
            decreases nn - i,
        {
            let mut j: usize = i + 1;
            while j < nn
                invariant
                    nn == self.nets@.len(),
                    i < nn,
                    i + 1 <= j <= nn,
                    forall|b: int|
                        i < b < j ==> (#[trigger] self.nets@[b]).id != self.nets@[i as int].id,
                decreases nn - j,
            {
                if self.nets[j].id == self.nets[i].id {
                    return false;
                }
                j = j + 1;
            }
            i = i + 1;
        }
        // Unique component ids.
        let nc = self.components.len();
        i = 0;
        while i < nc
            invariant
                nc == self.components@.len(),
                i <= nc,
                forall|a: int, b: int|
                    0 <= a < b < nc && a < i ==> (#[trigger] self.components@[a]).id != (
                    #[trigger] self.components@[b]).id,
            decreases nc - i,
        {
            let mut j: usize = i + 1;
            while j < nc
                invariant
                    nc == self.components@.len(),
                    i < nc,
                    i + 1 <= j <= nc,
                    forall|b: int|
                        i < b < j ==> (#[trigger] self.components@[b]).id != self.components@[i as int].id,
                decreases nc - j,
            {
                if self.components[j].id == self.components[i].id {
                    return false;
                }
                j = j + 1;
            }
            i = i + 1;
        }
        // Unique pin ids within each component.
        let mut c: usize = 0;
        while c < nc
            invariant
                nc == self.components@.len(),
                c <= nc,
                forall|cc: int, a: int, b: int|
                    0 <= cc < nc && cc < c && 0 <= a < b
                        < (#[trigger] self.components@[cc]).pins@.len() ==> (
                    #[trigger] self.components@[cc].pins@[a]).id != (
                    #[trigger] self.components@[cc].pins@[b]).id,
            decreases nc - c,
        {
            let np = self.components[c].pins.len();
            i = 0;
            while i < np
                invariant
                    nc == self.components@.len(),
                    c < nc,
                    np == self.components@[c as int].pins@.len(),
                    i <= np,
                    forall|a: int, b: int|
                        0 <= a < b < np && a < i ==> (
                        #[trigger] self.components@[c as int].pins@[a]).id != (
                        #[trigger] self.components@[c as int].pins@[b]).id,
                decreases np - i,
            {
                let mut j: usize = i + 1;
                while j < np
                    invariant
                        nc == self.components@.len(),
                        c < nc,
                        np == self.components@[c as int].pins@.len(),
                        i < np,
                        i + 1 <= j <= np,
                        forall|b: int|
                            i < b < j ==> (#[trigger] self.components@[c as int].pins@[b]).id
                                != self.components@[c as int].pins@[i as int].id,
                    decreases np - j,
                {
                    if self.components[c].pins[j].id == self.components[c].pins[i].id {
                        return false;
                    }
                    j = j + 1;
                }
                i = i + 1;
            }
            c = c + 1;
        }
        // Every pin reference resolves.
        i = 0;
        while i < nn
            invariant
                nn == self.nets@.len(),
                i <= nn,
                self.unique_component_ids(),
                forall|a: int, j: int|
                    0 <= a < nn && a < i && 0 <= j < (#[trigger] self.nets@[a]).pins@.len()
                        ==> self.spec_pin_resolves(#[trigger] self.nets@[a].pins@[j]),
            decreases nn - i,
        {
            let np = self.nets[i].pins.len();
            let mut j: usize = 0;
            while j < np
                invariant
                    nn == self.nets@.len(),
                    i < nn,
                    self.unique_component_ids(),
                    np == self.nets@[i as int].pins@.len(),
                    j <= np,
                    forall|k: int|
                        0 <= k < j ==> self.spec_pin_resolves(
                            #[trigger] self.nets@[i as int].pins@[k],
                        ),
                decreases np - j,
            {
                let pr = self.nets[i].pins[j];
                if self.pin_ref(&pr).is_none() {
                    return false;
                }
                j = j + 1;
            }
            i = i + 1;
        }
        true
    }

    /// An independent, equally well-formed copy of the board: the driver
    /// hands each routing pass its own snapshot.
    pub fn snapshot(&self) -> (r: Pcb)
        requires
            self.wf(),
        ensures
            r.wf(),
            r.pcb_eq(*self),
    {
        let mut nets: Vec<Net> = Vec::new();
        let n1 = self.nets.len();
        let mut i: usize = 0;
        while i < n1
            invariant
                self.wf(),
                n1 == self.nets@.len(),
                i <= n1,
                nets@.len() == i,
                forall|k: int| 0 <= k < i ==> net_eq(#[trigger] nets@[k], #[trigger] self.nets@[k]),
            decreases n1 - i,
        {
            nets.push(
                Net {
                    id: self.nets[i].id,
                    pins: crate::primitive::clone_copy_vec(&self.nets[i].pins),
                },
            );
            i = i + 1;
        }
        let mut boundaries: Vec<LayerShape> = Vec::new();
        let n2 = self.boundaries.len();
        i = 0;
        while i < n2
            invariant
                self.wf(),
                n2 == self.boundaries@.len(),
                i <= n2,
                boundaries@.len() == i,
                forall|k: int|
                    0 <= k < i ==> (#[trigger] boundaries@[k]).wf() && layer_shape_eq(
                        boundaries@[k],
                        self.boundaries@[k],
                    ),
            decreases n2 - i,
        {
            let b = &self.boundaries[i];
            boundaries.push(LayerShape { layer: b.layer, shape: b.shape.duplicate() });
            i = i + 1;
        }
        let mut keepouts: Vec<Keepout> = Vec::new();
        let n3 = self.keepouts.len();
        i = 0;
        while i < n3
            invariant
                self.wf(),
                n3 == self.keepouts@.len(),
                i <= n3,
                keepouts@.len() == i,
                forall|k: int|
                    0 <= k < i ==> (#[trigger] keepouts@[k]).shape.wf() && keepout_eq(
                        keepouts@[k],
                        self.keepouts@[k],
                    ),
            decreases n3 - i,
        {
            let ko = &self.keepouts[i];
            keepouts.push(
                Keepout {
                    kind: ko.kind,
                    shape: LayerShape { layer: ko.shape.layer, shape: ko.shape.shape.duplicate() },
                },
            );
            i = i + 1;
        }
        let mut via_padstacks: Vec<Padstack> = Vec::new();
        let n4 = self.via_padstacks.len();
        i = 0;
        while i < n4
            invariant
                self.wf(),
                n4 == self.via_padstacks@.len(),
                i <= n4,
                via_padstacks@.len() == i,
                forall|k: int|
                    0 <= k < i ==> (#[trigger] via_padstacks@[k]).wf() && padstack_eq(
                        via_padstacks@[k],
                        self.via_padstacks@[k],
                    ),
            decreases n4 - i,
        {
            via_padstacks.push(clone_padstack(&self.via_padstacks[i]));
            i = i + 1;
        }
        let mut components: Vec<Component> = Vec::new();
        let n5 = self.components.len();
        i = 0;
        while i < n5
            invariant
                self.wf(),
                n5 == self.components@.len(),
                i <= n5,
                components@.len() == i,
                forall|k: int|
                    0 <= k < i ==> (#[trigger] components@[k]).wf() && component_eq(
                        components@[k],
                        self.components@[k],
                    ),
            decreases n5 - i,
        {
            components.push(clone_component(&self.components[i]));
            i = i + 1;
        }
        let mut wires: Vec<Wire> = Vec::new();
        let n6 = self.wires.len();
        i = 0;
        while i < n6
            invariant
                self.wf(),
                n6 == self.wires@.len(),
                i <= n6,
                wires@.len() == i,
                forall|k: int|
                    0 <= k < i ==> (#[trigger] wires@[k]).wf() && wire_eq(
                        wires@[k],
                        self.wires@[k],
                    ),
            decreases n6 - i,
        {
            let w = &self.wires[i];
            wires.push(
                Wire {
                    path: Path { pts: crate::primitive::clone_copy_vec(&w.path.pts), r: w.path.r },
                    layer: w.layer,
                    net: w.net,
                },
            );
            i = i + 1;
        }
        Pcb {
            resolution_num: self.resolution_num,
            resolution_den: self.resolution_den,
            rules: self.rules,
            layers: crate::primitive::clone_copy_vec(&self.layers),
            boundaries,
            keepouts,
            via_padstacks,
            components,
            nets,
            wires,
            vias: crate::primitive::clone_copy_vec(&self.vias),
            debug_rts: crate::primitive::clone_copy_vec(&self.debug_rts),
        }
    }

    /// The bounding rectangle of the first `n` boundary shapes.
    pub open spec fn spec_bounds_upto(self, n: int) -> Rt
        decreases n,
    {
        if n <= 1 {
            self.boundaries@[0].shape.spec_bounds()
        } else {
            self.spec_bounds_upto(n - 1).spec_union(self.boundaries@[n - 1].shape.spec_bounds())
        }
    }

    /// The bounding rectangle of the board's boundary shapes.
    pub open spec fn spec_bounds(self) -> Rt {
        self.spec_bounds_upto(self.boundaries@.len() as int)
    }

    pub fn bounds(&self) -> (r: Rt)
        requires
            self.wf(),
            self.boundaries@.len() > 0,
        ensures
            r.wf(),
            r == self.spec_bounds(),
    {
        let mut r = self.boundaries[0].shape.bounds();
        let n = self.boundaries.len();
        let mut i: usize = 1;
        while i < n
            invariant
                self.wf(),
                n == self.boundaries@.len(),
                1 <= i <= n,
                r.wf(),
                r == self.spec_bounds_upto(i as int),
            decreases n - i,
        {
            r = r.union(self.boundaries[i].shape.bounds());
            i = i + 1;
        }
        r
    }

    /// Boards with the same data have the same bounding rectangle.
    pub proof fn lemma_pcb_eq_bounds(self, o: Pcb)
        requires
            self.pcb_eq(o),
            self.boundaries@.len() > 0,
        ensures
            self.spec_bounds() == o.spec_bounds(),
    {
        self.lemma_bounds_upto_eq(o, self.boundaries@.len() as int);
    }

    proof fn lemma_bounds_upto_eq(self, o: Pcb, n: int)
        requires
            self.pcb_eq(o),
            1 <= n <= self.boundaries@.len(),
        ensures
            self.spec_bounds_upto(n) == o.spec_bounds_upto(n),
        decreases n,
    {
        if n <= 1 {
            self.boundaries@[0].shape.lemma_shape_eq_bounds(o.boundaries@[0].shape);
        } else {
            self.lemma_bounds_upto_eq(o, n - 1);
            self.boundaries@[n - 1].shape.lemma_shape_eq_bounds(o.boundaries@[n - 1].shape);
        }
    }
}

/// A copy of a padstack.
pub fn clone_padstack(ps: &Padstack) -> (r: Padstack)
    requires
        ps.wf(),
    ensures
        r.wf(),
        r.id == ps.id,
        padstack_eq(r, *ps),
{
    let mut shapes: Vec<LayerShape> = Vec::new();
    let n = ps.shapes.len();
    let mut i: usize = 0;
    while i < n
        invariant
            ps.wf(),
            n == ps.shapes@.len(),
            i <= n,
            shapes@.len() == i,
            forall|k: int|
                0 <= k < i ==> (#[trigger] shapes@[k]).wf() && layer_shape_eq(
                    shapes@[k],
                    ps.shapes@[k],
                ),
        decreases n - i,
    {
        let s = &ps.shapes[i];
        shapes.push(LayerShape { layer: s.layer, shape: s.shape.duplicate() });
        i = i + 1;
    }
    Padstack { id: ps.id, shapes, attach: ps.attach }
}

/// A copy of a placed component.
pub fn clone_component(c: &Component) -> (r: Component)
    requires
        c.wf(),
    ensures
        r.wf(),
        r.id == c.id,
        component_eq(r, *c),
{
    let mut pins: Vec<Pin> = Vec::new();
    let n = c.pins.len();
    let mut i: usize = 0;
    while i < n
        invariant
            c.wf(),
            n == c.pins@.len(),
            i <= n,
            pins@.len() == i,
            forall|k: int|
                0 <= k < i ==> (#[trigger] pins@[k]).wf() && pin_eq(
                    pins@[k],
                    c.pins@[k],
                ),
        decreases n - i,
    {
        let p = &c.pins[i];
        pins.push(Pin { id: p.id, p: p.p, padstack: clone_padstack(&p.padstack) });
        i = i + 1;
    }
    let mut keepouts: Vec<Keepout> = Vec::new();
    let n2 = c.keepouts.len();
    i = 0;
    while i < n2
        invariant
            c.wf(),
            n2 == c.keepouts@.len(),
            i <= n2,
            keepouts@.len() == i,
            forall|k: int|
                0 <= k < i ==> (#[trigger] keepouts@[k]).shape.wf() && keepout_eq(
                    keepouts@[k],
                    c.keepouts@[k],
                ),
        decreases n2 - i,
    {
        let ko = &c.keepouts[i];
        keepouts.push(
            Keepout {
                kind: ko.kind,
                shape: LayerShape { layer: ko.shape.layer, shape: ko.shape.shape.duplicate() },
            },
        );
        i = i + 1;
    }
    Component { id: c.id, p: c.p, pins, keepouts }
}

} // verus!
