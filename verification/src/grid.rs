//! The grid router: per-net multi-layer shortest-path search over a
//! uniformly discretized board.
//!
//! The board's bounding rectangle is tiled with a uniform step on every
//! layer. For each net, in the order given, cells blocked by the boundary,
//! keepouts, other nets' pads and previously placed wires and vias are
//! computed, and a multi-terminal tree is grown by repeated lowest-cost
//! searches from the tree to the next pad. Committed cells block all
//! subsequent nets of the pass. A net whose search exhausts the frontier is
//! reported failed and routing continues.

use vstd::prelude::*;

verus! {

use vstd::pervasive::VecAdditionalExecFns;

use crate::primitive::{Pt, Rt, Segment, Path};
use crate::shape::Shape;
use crate::pcb::{Pcb, Net, Wire, Via, Keepout, KeepoutType, Padstack};
use crate::router::RouteResult;
use crate::COORD_MAX;

/// Hard caps on the grid size; a board that discretizes to more is rejected
/// as unroutable input.
pub const MAX_NXY: usize = 2048;

pub const MAX_NL: usize = 16;

pub const MAX_CELLS: usize = 4_194_304;

/// Cost of one orthogonal step, in search cost units.
pub const STEP_COST: u64 = 10;

/// Cost of one diagonal step: ten times the square root of two, rounded.
pub const DIAG_COST: u64 = 14;

/// A flattened cell index is in range.
pub open spec fn idx_ok(l: int, j: int, i: int, nl: int, ny: int, nx: int) -> bool {
    0 <= l < nl && 0 <= j < ny && 0 <= i < nx
}

pub proof fn lemma_idx_bound(l: int, j: int, i: int, nl: int, ny: int, nx: int)
    requires
        idx_ok(l, j, i, nl, ny, nx),
    ensures
        0 <= (l * ny + j) * nx + i < nl * ny * nx,
        (l * ny + j) * nx + i == l * (ny * nx) + j * nx + i,
{
    assert((l * ny + j) * nx + i < nl * ny * nx && (l * ny + j) * nx + i == l * (ny * nx) + j * nx
        + i && 0 <= (l * ny + j) * nx + i) by (nonlinear_arith)
        requires
            0 <= l < nl && 0 <= j < ny && 0 <= i < nx,
    ;
}

/// The board can be discretized: it has layers within the layer cap, a
/// boundary within the workable coordinate range, a positive extent, and a
/// grid within the cell caps.
pub open spec fn spec_can_build(pcb: Pcb) -> bool {
    let lim = (crate::COORD_MAX - 2_000_000) as int;
    let b = pcb.spec_bounds();
    let step = pcb.rules.grid_step as int;
    let w = b.x1 - b.x0;
    let h = b.y1 - b.y0;
    let nx = (w + step - 1) / step;
    let ny = (h + step - 1) / step;
    &&& 1 <= pcb.layers@.len() <= MAX_NL as int
    &&& pcb.boundaries@.len() > 0
    &&& -lim <= b.x0 && b.x1 <= lim
    &&& -lim <= b.y0 && b.y1 <= lim
    &&& w > 0 && h > 0
    &&& 1 <= nx <= MAX_NXY as int
    &&& 1 <= ny <= MAX_NXY as int
    &&& (pcb.layers@.len() as int) * ny * nx <= MAX_CELLS as int
}

/// Boards with the same data discretize alike.
pub proof fn lemma_can_build_eq(a: Pcb, b: Pcb)
    requires
        a.pcb_eq(b),
    ensures
        spec_can_build(a) == spec_can_build(b),
{
    if a.boundaries@.len() > 0 {
        a.lemma_pcb_eq_bounds(b);
    }
}

/// Boards with the same data carry the same nets.
pub proof fn lemma_pcb_eq_has_net(a: Pcb, b: Pcb, id: u64)
    requires
        a.pcb_eq(b),
    ensures
        GridRouter::spec_has_net(a, id) == GridRouter::spec_has_net(b, id),
        (exists|i: int|
            0 <= i < a.nets@.len() && (#[trigger] a.nets@[i]).id == id && a.nets@[i].pins@.len()
                > 0) == (exists|i: int|
            0 <= i < b.nets@.len() && (#[trigger] b.nets@[i]).id == id && b.nets@[i].pins@.len()
                > 0),
{
    if GridRouter::spec_has_net(a, id) {
        let w = choose|w: int| 0 <= w < a.nets@.len() && (#[trigger] a.nets@[w]).id == id;
        assert(b.nets@[w].id == id);
    }
    if GridRouter::spec_has_net(b, id) {
        let w = choose|w: int| 0 <= w < b.nets@.len() && (#[trigger] b.nets@[w]).id == id;
        assert(a.nets@[w].id == id);
    }
    if exists|i: int|
        0 <= i < a.nets@.len() && (#[trigger] a.nets@[i]).id == id && a.nets@[i].pins@.len() > 0 {
        let w = choose|w: int|
            0 <= w < a.nets@.len() && (#[trigger] a.nets@[w]).id == id && a.nets@[w].pins@.len()
                > 0;
        assert(b.nets@[w].id == id && b.nets@[w].pins@.len() > 0);
    }
    if exists|i: int|
        0 <= i < b.nets@.len() && (#[trigger] b.nets@[i]).id == id && b.nets@[i].pins@.len() > 0 {
        let w = choose|w: int|
            0 <= w < b.nets@.len() && (#[trigger] b.nets@[w]).id == id && b.nets@[w].pins@.len()
                > 0;
        assert(a.nets@[w].id == id && a.nets@[w].pins@.len() > 0);
    }
}

/// The grid router: a board snapshot, the net order, the grid geometry, and
/// the cells committed by already-routed nets of this pass.
pub struct GridRouter {
    pub pcb: Pcb,
    pub net_order: Vec<u64>,
    pub bounds: Rt,
    pub step: i64,
    pub nx: usize,
    pub ny: usize,
    pub nl: usize,
    pub committed: Vec<bool>,
}

impl GridRouter {
    pub open spec fn wf(self) -> bool {
        &&& self.pcb.wf()
        &&& self.bounds.wf()
        &&& 0 < self.step <= 1_000_000
        &&& 1 <= self.nx <= MAX_NXY
        &&& 1 <= self.ny <= MAX_NXY
        &&& 1 <= self.nl <= MAX_NL
        &&& self.committed@.len() == self.nl * self.ny * self.nx
        &&& self.committed@.len() <= MAX_CELLS
        &&& -(COORD_MAX - 2_000_000) <= self.bounds.x0
        &&& self.bounds.x1 <= COORD_MAX - 2_000_000
        &&& -(COORD_MAX - 2_000_000) <= self.bounds.y0
        &&& self.bounds.y1 <= COORD_MAX - 2_000_000
        &&& self.pcb.rules.wf()
    }

    /// Build the grid over the board's bounding rectangle. Succeeds exactly
    /// when the board can be discretized: otherwise there are no layers or
    /// too many, no boundary, a boundary out of the workable coordinate
    /// range or of empty extent, or a grid beyond the cell caps.
    pub fn new(pcb: Pcb, net_order: Vec<u64>) -> (r: Option<GridRouter>)
        requires
            pcb.wf(),
        ensures
            r.is_some() == spec_can_build(pcb),
            match r {
                Some(g) => {
                    &&& g.wf()
                    &&& g.net_order == net_order
                    &&& g.pcb == pcb
                },
                None => true,
            },
    {
        if pcb.layers.len() == 0 || pcb.layers.len() > MAX_NL || pcb.boundaries.len() == 0 {
            return None;
        }
        let bounds = pcb.bounds();
        let lim: i64 = COORD_MAX - 2_000_000;
        if bounds.x0 < -lim || bounds.x1 > lim || bounds.y0 < -lim || bounds.y1 > lim {
            return None;
        }
        let step = pcb.rules.grid_step;
        let w: i64 = bounds.x1 - bounds.x0;
        let h: i64 = bounds.y1 - bounds.y0;
        if w <= 0 || h <= 0 {
            return None;
        }
        let nx64: i64 = (w + step - 1) / step;
        let ny64: i64 = (h + step - 1) / step;
        if nx64 < 1 || nx64 > MAX_NXY as i64 || ny64 < 1 || ny64 > MAX_NXY as i64 {
            return None;
        }
        let nx: usize = nx64 as usize;
        let ny: usize = ny64 as usize;
        let nl: usize = pcb.layers.len();
        proof {
            assert(nl * ny <= 16 * 2048 && nl * ny * nx <= 16 * 2048 * 2048 && (nl * ny) * nx == nl
                * ny * nx) by (nonlinear_arith)
                requires
                    1 <= nl <= 16,
                    1 <= ny <= 2048,
                    1 <= nx <= 2048,
            ;
        }
        let cells: usize = nl * ny * nx;
        if cells > MAX_CELLS {
            return None;
        }
        let mut committed: Vec<bool> = Vec::new();
        let mut k: usize = 0;
        while k < cells
            invariant
                committed@.len() == k,
                k <= cells,
            decreases cells - k,
        {
            committed.push(false);
            k = k + 1;
        }
        Some(GridRouter { pcb, net_order, bounds, step, nx, ny, nl, committed })
    }

    /// The flattened index of a cell.
    fn idx(&self, l: usize, j: usize, i: usize) -> (r: usize)
        requires
            self.wf(),
            l < self.nl,
            j < self.ny,
            i < self.nx,
        ensures
            r < self.committed@.len(),
            r as int == l * (self.ny * self.nx) + j * self.nx + i,
    {
        proof {
            lemma_idx_bound(
                l as int,
                j as int,
                i as int,
                self.nl as int,
                self.ny as int,
                self.nx as int,
            );
            assert((l as int) * (self.ny as int) <= 15 * 2048 && ((l as int) * (self.ny as int) + (
            j as int)) * (self.nx as int) <= (15 * 2048 + 2047) * 2048) by (nonlinear_arith)
                requires
                    0 <= l as int <= 15,
                    0 <= j as int <= 2047,
                    0 <= self.ny as int <= 2048,
                    0 <= self.nx as int <= 2048,
            ;
        }
        (l * self.ny + j) * self.nx + i
    }

    /// The rectangle of cell `(i, j)`, clamped to the board bounds.
    fn cell_rect(&self, i: usize, j: usize) -> (r: Rt)
        requires
            self.wf(),
            i < self.nx,
            j < self.ny,
        ensures
            r.wf(),
            self.bounds.x0 <= r.x0 && r.x1 <= self.bounds.x1,
            self.bounds.y0 <= r.y0 && r.y1 <= self.bounds.y1,
    {
        proof {
            assert(0 <= (i as int) * (self.step as int) <= 2048 * 1_000_000) by (nonlinear_arith)
                requires
                    0 <= i as int <= 2048,
                    0 < self.step as int <= 1_000_000,
            ;
            assert(0 <= (j as int) * (self.step as int) <= 2048 * 1_000_000) by (nonlinear_arith)
                requires
                    0 <= j as int <= 2048,
                    0 < self.step as int <= 1_000_000,
            ;
        }
        let x0: i64 = self.bounds.x0 + (i as i64) * self.step;
        let y0: i64 = self.bounds.y0 + (j as i64) * self.step;
        let x0c: i64 = if x0 > self.bounds.x1 {
            self.bounds.x1
        } else {
            x0
        };
        let y0c: i64 = if y0 > self.bounds.y1 {
            self.bounds.y1
        } else {
            y0
        };
        let x1: i64 = if x0c > self.bounds.x1 - self.step {
            self.bounds.x1
        } else {
            x0c + self.step
        };
        let y1: i64 = if y0c > self.bounds.y1 - self.step {
            self.bounds.y1
        } else {
            y0c + self.step
        };
        Rt { x0: x0c, y0: y0c, x1, y1 }
    }

    /// The centre of cell `(i, j)`.
    fn cell_center(&self, i: usize, j: usize) -> (r: Pt)
        requires
            self.wf(),
            i < self.nx,
            j < self.ny,
        ensures
            crate::primitive::pt_pad_ok(r, 1_000_000),
    {
        let c = self.cell_rect(i, j);
        Pt { x: c.x0 + (c.x1 - c.x0) / 2, y: c.y0 + (c.y1 - c.y0) / 2 }
    }

    /// The cell rectangle inflated by the clearance plus half the trace
    /// width, clamped to the workable range.
    fn inflated_cell_rect(&self, i: usize, j: usize) -> (r: Rt)
        requires
            self.wf(),
            i < self.nx,
            j < self.ny,
        ensures
            r.wf(),
    {
        let c = self.cell_rect(i, j);
        let pad: i64 = self.pcb.rules.clearance + self.pcb.rules.trace_width / 2;
        Rt { x0: c.x0 - pad, y0: c.y0 - pad, x1: c.x1 + pad, y1: c.y1 + pad }
    }

    /// Does this shape meet the query rectangle? An infinite line is tested
    /// by the segment between its two defining points.
    fn shape_meets_rt(s: &Shape, q: &Rt) -> (r: bool)
        requires
            s.wf(),
            q.wf(),
    {
        match s {
            Shape::Circle(c) => crate::distance::circ_intersect_rt(c, q),
            Shape::Line(l) => crate::intersects::rt_intersects_seg(
                q,
                &Segment { st: l.st, en: l.en },
            ),
            Shape::Path(p) => crate::intersects::path_intersects_rt(p, q),
            Shape::Point(p) => q.contains(*p),
            Shape::Polygon(p) => crate::intersects::poly_intersects_rt(p, q),
            Shape::Rect(rt) => crate::intersects::rt_intersects_rt(rt, q),
            Shape::Segment(sg) => crate::intersects::rt_intersects_seg(q, sg),
            Shape::Tri(t) => crate::intersects::rt_intersects_tri(q, t),
        }
    }

    /// Does this boundary shape fully contain the query rectangle? Only
    /// polygon and rectangle boundaries can enclose an area.
    fn shape_encloses_rt(s: &Shape, q: &Rt) -> (r: bool)
        requires
            s.wf(),
            q.wf(),
    {
        match s {
            Shape::Polygon(p) => crate::contains::polygon_contains_rt(p, q),
            Shape::Rect(rt) => crate::contains::rt_contains_rt(rt, q),
            _ => false,
        }
    }

    /// Is the pin `(component id, pin id)` one of this net's pins?
    fn net_has_pin(net: &Net, cid: u64, pid: u64) -> (r: bool)
    {
        let n = net.pins.len();
        let mut i: usize = 0;
        while i < n
            invariant
                n == net.pins@.len(),
                i <= n,
            decreases n - i,
        {
            if net.pins[i].component == cid && net.pins[i].pin == pid {
                return true;
            }
            i = i + 1;
        }
        false
    }

    /// Largest half-extent of a padstack's shapes around its reference
    /// point, in units.
    fn padstack_halfw(ps: &Padstack) -> (r: i64)
        requires
            ps.wf(),
        ensures
            0 <= r,
    {
        let n = ps.shapes.len();
        let mut best: i64 = 0;
        let mut i: usize = 0;
        while i < n
            invariant
                ps.wf(),
                n == ps.shapes@.len(),
                i <= n,
                0 <= best <= COORD_MAX,
            decreases n - i,
        {
            let b = ps.shapes[i].shape.bounds();
            let m1: i64 = if b.x0 < 0 {
                -b.x0
            } else {
                b.x0
            };
            let m2: i64 = if b.x1 < 0 {
                -b.x1
            } else {
                b.x1
            };
            let m3: i64 = if b.y0 < 0 {
                -b.y0
            } else {
                b.y0
            };
            let m4: i64 = if b.y1 < 0 {
                -b.y1
            } else {
                b.y1
            };
            let mut m = m1;
            if m2 > m {
                m = m2;
            }
            if m3 > m {
                m = m3;
            }
            if m4 > m {
                m = m4;
            }
            if m > best {
                best = m;
            }
            i = i + 1;
        }
        best
    }

    /// Half-extent of the via padstack with the given id, or zero when the
    /// id is unknown.
    fn via_padstack_halfw(&self, id: u64) -> (r: i64)
        requires
            self.wf(),
        ensures
            0 <= r,
    {
        let n = self.pcb.via_padstacks.len();
        let mut i: usize = 0;
        while i < n
            invariant
                self.wf(),
                n == self.pcb.via_padstacks@.len(),
                i <= n,
            decreases n - i,
        {
            if self.pcb.via_padstacks[i].id == id {
                return Self::padstack_halfw(&self.pcb.via_padstacks[i]);
            }
            i = i + 1;
        }
        0
    }

    /// A keepout forbids wires when it forbids everything or wires.
    fn keepout_blocks_wires(k: &Keepout) -> (r: bool)
        ensures
            r == (k.kind == KeepoutType::Keepout || k.kind == KeepoutType::WireKeepout),
    {
        match k.kind {
            KeepoutType::Keepout => true,
            KeepoutType::WireKeepout => true,
            KeepoutType::ViaKeepout => false,
        }
    }

    /// Is the cell `(l, i, j)` blocked for the net `net_id`? Blocked means
    /// its inflated footprint leaves the boundary, meets an applicable
    /// keepout, another net's pad, or a previously placed wire or via of
    /// another net.
    fn cell_blocked(&self, net: &Net, l: usize, i: usize, j: usize) -> (r: bool)
        requires
            self.wf(),
            l < self.nl,
            i < self.nx,
            j < self.ny,
    {
        let q = self.inflated_cell_rect(i, j);
        let plain = self.cell_rect(i, j);
        // Boundary: the plain cell must lie inside some boundary shape.
        let nb = self.pcb.boundaries.len();
        let mut inside = false;
        let mut k: usize = 0;
        while k < nb
            invariant
                self.wf(),
                nb == self.pcb.boundaries@.len(),
                k <= nb,
                plain.wf(),
            decreases nb - k,
        {
            if Self::shape_encloses_rt(&self.pcb.boundaries[k].shape, &plain) {
                inside = true;
            }
            k = k + 1;
        }
        if !inside {
            return true;
        }
        // Board-level keepouts applicable to this layer.
        let nk = self.pcb.keepouts.len();
        k = 0;
        while k < nk
            invariant
                self.wf(),
                nk == self.pcb.keepouts@.len(),
                k <= nk,
                q.wf(),
            decreases nk - k,
        {
            let ko = &self.pcb.keepouts[k];
            if Self::keepout_blocks_wires(ko) && ko.shape.layer == l && Self::shape_meets_rt(
                &ko.shape.shape,
                &q,
            ) {
                return true;
            }
            k = k + 1;
        }
        // Other nets' pads, and component keepouts.
        let nc = self.pcb.components.len();
        k = 0;
        while k < nc
            invariant
                self.wf(),
                nc == self.pcb.components@.len(),
                k <= nc,
                q.wf(),
            decreases nc - k,
        {
            let c = &self.pcb.components[k];
            let nkk = c.keepouts.len();
            let mut k2: usize = 0;
            while k2 < nkk
                invariant
                    self.wf(),
                    nc == self.pcb.components@.len(),
                    k < nc,
                    *c == self.pcb.components@[k as int],
                    nkk == c.keepouts@.len(),
                    k2 <= nkk,
                    q.wf(),
                decreases nkk - k2,
            {
                let ko = &c.keepouts[k2];
                if Self::keepout_blocks_wires(ko) && ko.shape.layer == l && Self::shape_meets_rt(
                    &ko.shape.shape,
                    &q,
                ) {
                    return true;
                }
                k2 = k2 + 1;
            }
            let np = c.pins.len();
            k2 = 0;
            while k2 < np
                invariant
                    self.wf(),
                    nc == self.pcb.components@.len(),
                    k < nc,
                    *c == self.pcb.components@[k as int],
                    np == c.pins@.len(),
                    k2 <= np,
                    q.wf(),
                decreases np - k2,
            {
                let pin = &c.pins[k2];
                if !Self::net_has_pin(net, c.id, pin.id) {
                    let ns = pin.padstack.shapes.len();
                    let mut k3: usize = 0;
                    while k3 < ns
                        invariant
                            self.wf(),
                            nc == self.pcb.components@.len(),
                            k < nc,
                            *c == self.pcb.components@[k as int],
                            np == c.pins@.len(),
                            k2 < np,
                            *pin == c.pins@[k2 as int],
                            ns == pin.padstack.shapes@.len(),
                            k3 <= ns,
                            q.wf(),
                        decreases ns - k3,
                    {
                        let ls = &pin.padstack.shapes[k3];
                        if ls.layer == l && Self::shape_meets_rt(&ls.shape, &q) {
                            return true;
                        }
                        k3 = k3 + 1;
                    }
                }
                k2 = k2 + 1;
            }
            k = k + 1;
        }
        // Wires and vias already on the board, from other nets.
        let nw = self.pcb.wires.len();
        k = 0;
        while k < nw
            invariant
                self.wf(),
                nw == self.pcb.wires@.len(),
                k <= nw,
                q.wf(),
            decreases nw - k,
        {
            let w = &self.pcb.wires[k];
            if w.net != net.id && w.layer == l && crate::intersects::path_intersects_rt(
                &w.path,
                &q,
            ) {
                return true;
            }
            k = k + 1;
        }
        let nv = self.pcb.vias.len();
        k = 0;
        while k < nv
            invariant
                self.wf(),
                nv == self.pcb.vias@.len(),
                k <= nv,
                q.wf(),
            decreases nv - k,
        {
            let v = &self.pcb.vias[k];
            if v.net != net.id {
                let hw = self.via_padstack_halfw(v.padstack);
                let hwc: i64 = if hw > 2_000_000 {
                    2_000_000
                } else {
                    hw
                };
                let vr = Rt { x0: v.p.x - hwc, y0: v.p.y - hwc, x1: v.p.x + hwc, y1: v.p.y + hwc };
                if crate::intersects::rt_intersects_rt(&vr, &q) {
                    return true;
                }
            }
            k = k + 1;
        }
        false
    }

    /// Split a flattened cell index back into layer, row and column.
    fn coords_of(&self, c: usize) -> (r: (usize, usize, usize))
        requires
            self.wf(),
            c < self.committed@.len(),
        ensures
            r.0 < self.nl,
            r.1 < self.ny,
            r.2 < self.nx,
            (r.0 * self.ny + r.1) * self.nx + r.2 == c,
    {
        proof {
            assert(self.ny * self.nx >= 1 && self.ny * self.nx <= 2048 * 2048)
                by (nonlinear_arith)
                requires
                    1 <= self.ny as int <= 2048,
                    1 <= self.nx as int <= 2048,
            ;
        }
        let plane: usize = self.ny * self.nx;
        let l: usize = c / plane;
        let rem: usize = c % plane;
        let j: usize = rem / self.nx;
        let i: usize = rem % self.nx;
        proof {
            vstd::arithmetic::div_mod::lemma_fundamental_div_mod(c as int, plane as int);
            vstd::arithmetic::div_mod::lemma_mod_bound(c as int, plane as int);
            vstd::arithmetic::div_mod::lemma_div_pos_is_pos(c as int, plane as int);
            vstd::arithmetic::div_mod::lemma_fundamental_div_mod(rem as int, self.nx as int);
            vstd::arithmetic::div_mod::lemma_mod_bound(rem as int, self.nx as int);
            vstd::arithmetic::div_mod::lemma_div_pos_is_pos(rem as int, self.nx as int);
            let nl = self.nl as int;
            let ny = self.ny as int;
            let nx = self.nx as int;
            assert(self.committed@.len() == nl * ny * nx);
            assert(nl * ny * nx == nl * (ny * nx)) by (nonlinear_arith);
            if l as int >= nl {
                crate::math::lemma_mul_mono_nonneg(nl, l as int, ny * nx, ny * nx);
                assert((l as int) * (ny * nx) == (ny * nx) * (l as int)) by (nonlinear_arith);
                assert(false);
            }
            if j as int >= ny {
                crate::math::lemma_mul_mono_nonneg(ny, j as int, nx, nx);
                assert((j as int) * nx == nx * (j as int)) by (nonlinear_arith);
                assert(false);
            }
            assert(((l as int) * ny + (j as int)) * nx + (i as int) == (l as int) * (ny * nx) + (
            j as int) * nx + (i as int)) by (nonlinear_arith);
            assert((ny * nx) * (l as int) == (l as int) * (ny * nx)) by (nonlinear_arith);
            assert(nx * (j as int) == (j as int) * nx) by (nonlinear_arith);
        }
        (l, j, i)
    }

    /// The cells whose rectangle meets a pad shape of the pin, on the pad's
    /// layers.
    fn pin_pad_cells(&self, pr: &crate::pcb::PinRef) -> (r: Vec<usize>)
        requires
            self.wf(),
        ensures
            forall|k: int| 0 <= k < r@.len() ==> #[trigger] r@[k] < self.committed@.len(),
    {
        let mut out: Vec<usize> = Vec::new();
        let (ci, pi) = match self.pcb.pin_ref(pr) {
            Some(v) => v,
            None => {
                return out;
            },
        };
        let pin = &self.pcb.components[ci].pins[pi];
        let ns = pin.padstack.shapes.len();
        let mut s: usize = 0;
        while s < ns
            invariant
                self.wf(),
                ci < self.pcb.components@.len(),
                pi < self.pcb.components@[ci as int].pins@.len(),
                *pin == self.pcb.components@[ci as int].pins@[pi as int],
                ns == pin.padstack.shapes@.len(),
                s <= ns,
                forall|k: int| 0 <= k < out@.len() ==> #[trigger] out@[k] < self.committed@.len(),
            decreases ns - s,
        {
            let ls = &pin.padstack.shapes[s];
            if ls.layer < self.nl {
                let mut j: usize = 0;
                while j < self.ny
                    invariant
                        self.wf(),
                        ci < self.pcb.components@.len(),
                        pi < self.pcb.components@[ci as int].pins@.len(),
                        *pin == self.pcb.components@[ci as int].pins@[pi as int],
                        ns == pin.padstack.shapes@.len(),
                        s < ns,
                        *ls == pin.padstack.shapes@[s as int],
                        ls.layer < self.nl,
                        j <= self.ny,
                        forall|k: int|
                            0 <= k < out@.len() ==> #[trigger] out@[k] < self.committed@.len(),
                    decreases self.ny - j,
                {
                    let mut i: usize = 0;
                    while i < self.nx
                        invariant
                            self.wf(),
                            ci < self.pcb.components@.len(),
                            pi < self.pcb.components@[ci as int].pins@.len(),
                            *pin == self.pcb.components@[ci as int].pins@[pi as int],
                            ns == pin.padstack.shapes@.len(),
                            s < ns,
                            *ls == pin.padstack.shapes@[s as int],
                            ls.layer < self.nl,
                            j < self.ny,
                            i <= self.nx,
                            forall|k: int|
                                0 <= k < out@.len() ==> #[trigger] out@[k]
                                    < self.committed@.len(),
                        decreases self.nx - i,
                    {
                        let cr = self.cell_rect(i, j);
                        if Self::shape_meets_rt(&ls.shape, &cr) {
                            let c = self.idx(ls.layer, j, i);
                            out.push(c);
                        }
                        i = i + 1;
                    }
                    j = j + 1;
                }
            }
            s = s + 1;
        }
        out
    }

    /// Lowest-cost search over the grid from the tree cells to any target
    /// cell: orthogonal and diagonal in-plane moves (no cutting corners past
    /// blocked cells) and layer changes where a through via fits. Returns the
    /// cell path from a target back to the tree, or `None` when the frontier
    /// is exhausted.
    fn find_path(&self, blocked: &Vec<bool>, tree: &Vec<bool>, targets: &Vec<bool>) -> (r: Option<
        Vec<usize>,
    >)
        requires
            self.wf(),
            blocked@.len() == self.committed@.len(),
            tree@.len() == self.committed@.len(),
            targets@.len() == self.committed@.len(),
        ensures
            match r {
                Some(p) => p@.len() >= 1 && forall|k: int|
                    0 <= k < p@.len() ==> #[trigger] p@[k] < self.committed@.len(),
                None => true,
            },
    {
        let cells = self.committed.len();
        let mut dist: Vec<u64> = Vec::new();
        let mut parent: Vec<usize> = Vec::new();
        let mut visited: Vec<bool> = Vec::new();
        let mut k: usize = 0;
        while k < cells
            invariant
                dist@.len() == k,
                parent@.len() == k,
                visited@.len() == k,
                k <= cells,
                forall|t: int| 0 <= t < k ==> #[trigger] parent@[t] <= cells,
            decreases cells - k,
        {
            dist.push(u64::MAX);
            parent.push(cells);
            visited.push(false);
            k = k + 1;
        }
        k = 0;
        while k < cells
            invariant
                self.wf(),
                blocked@.len() == cells,
                tree@.len() == cells,
                cells == self.committed@.len(),
                dist@.len() == cells,
                parent@.len() == cells,
                visited@.len() == cells,
                k <= cells,
                forall|t: int| 0 <= t < cells ==> #[trigger] parent@[t] <= cells,
            decreases cells - k,
        {
            if tree[k] && !blocked[k] {
                dist.set(k, 0);
            }
            k = k + 1;
        }
        let mut found: usize = cells;
        let mut fuel: usize = cells;
        while fuel > 0 && found == cells
            invariant
                self.wf(),
                blocked@.len() == cells,
                tree@.len() == cells,
                targets@.len() == cells,
                cells == self.committed@.len(),
                dist@.len() == cells,
                parent@.len() == cells,
                visited@.len() == cells,
                found <= cells,
                forall|t: int| 0 <= t < cells ==> #[trigger] parent@[t] <= cells,
            decreases fuel,
        {
            fuel = fuel - 1;
            // Deterministic extraction: the lowest distance, first index
            // winning ties.
            let mut cur: usize = cells;
            let mut best: u64 = u64::MAX;
            let mut t: usize = 0;
            while t < cells
                invariant
                    dist@.len() == cells,
                    visited@.len() == cells,
                    t <= cells,
                    cur <= cells,
                decreases cells - t,
            {
                if !visited[t] && dist[t] < best {
                    best = dist[t];
                    cur = t;
                }
                t = t + 1;
            }
            if cur == cells {
                return None;
            }
            visited.set(cur, true);
            if targets[cur] {
                found = cur;
            } else {
                let (l, j, i) = self.coords_of(cur);
                let dcur = dist[cur];
                let mut a: usize = 0;
                while a < 8
                    invariant
                        self.wf(),
                        blocked@.len() == cells,
                        cells == self.committed@.len(),
                        dist@.len() == cells,
                        parent@.len() == cells,
                        visited@.len() == cells,
                        cur < cells,
                        l < self.nl,
                        j < self.ny,
                        i < self.nx,
                        a <= 8,
                        forall|t2: int| 0 <= t2 < cells ==> #[trigger] parent@[t2] <= cells,
                    decreases 8 - a,
                {
                    let dx: i64 = if a == 0 || a == 4 || a == 5 {
                        1
                    } else if a == 1 || a == 6 || a == 7 {
                        -1
                    } else {
                        0
                    };
                    let dy: i64 = if a == 2 || a == 4 || a == 6 {
                        1
                    } else if a == 3 || a == 5 || a == 7 {
                        -1
                    } else {
                        0
                    };
                    let ni64: i64 = i as i64 + dx;
                    let nj64: i64 = j as i64 + dy;
                    if 0 <= ni64 && ni64 < self.nx as i64 && 0 <= nj64 && nj64 < self.ny as i64 {
                        let ni = ni64 as usize;
                        let nj = nj64 as usize;
                        let nidx = self.idx(l, nj, ni);
                        let diag = dx != 0 && dy != 0;
                        let mut ok = !blocked[nidx] && !visited[nidx];
                        if ok && diag {
                            let o1 = self.idx(l, j, ni);
                            let o2 = self.idx(l, nj, i);
                            if blocked[o1] || blocked[o2] {
                                ok = false;
                            }
                        }
                        if ok && dcur < 0xFFFF_FFFF_F000_0000u64 {
                            let stepc: u64 = if diag {
                                DIAG_COST
                            } else {
                                STEP_COST
                            };
                            let ncost = dcur + stepc;
                            if ncost < dist[nidx] {
                                dist.set(nidx, ncost);
                                parent.set(nidx, cur);
                            }
                        }
                    }
                    a = a + 1;
                }
                let mut b: usize = 0;
                while b < 2
                    invariant
                        self.wf(),
                        blocked@.len() == cells,
                        cells == self.committed@.len(),
                        dist@.len() == cells,
                        parent@.len() == cells,
                        visited@.len() == cells,
                        cur < cells,
                        l < self.nl,
                        j < self.ny,
                        i < self.nx,
                        b <= 2,
                        forall|t2: int| 0 <= t2 < cells ==> #[trigger] parent@[t2] <= cells,
                    decreases 2 - b,
                {
                    let nl64: i64 = if b == 0 {
                        l as i64 - 1
                    } else {
                        l as i64 + 1
                    };
                    if 0 <= nl64 && nl64 < self.nl as i64 {
                        let nlz = nl64 as usize;
                        let nidx = self.idx(nlz, j, i);
                        if !blocked[nidx] && !visited[nidx] {
                            // A through via must fit on every layer of the
                            // column.
                            let mut free = true;
                            let mut ll: usize = 0;
                            while ll < self.nl
                                invariant
                                    self.wf(),
                                    blocked@.len() == cells,
                                    cells == self.committed@.len(),
                                    j < self.ny,
                                    i < self.nx,
                                    ll <= self.nl,
                                decreases self.nl - ll,
                            {
                                if blocked[self.idx(ll, j, i)] {
                                    free = false;
                                }
                                ll = ll + 1;
                            }
                            if free && dcur < 0xFFFF_FFFF_F000_0000u64 {
                                let ncost = dcur + self.pcb.rules.via_cost;
                                if ncost < dist[nidx] {
                                    dist.set(nidx, ncost);
                                    parent.set(nidx, cur);
                                }
                            }
                        }
                    }
                    b = b + 1;
                }
            }
        }
        if found == cells {
            return None;
        }
        let mut path: Vec<usize> = Vec::new();
        let mut cur = found;
        path.push(cur);
        let mut fuel2: usize = cells;
        while fuel2 > 0
            invariant
                parent@.len() == cells,
                cur < cells,
                path@.len() >= 1,
                forall|t: int| 0 <= t < cells ==> #[trigger] parent@[t] <= cells,
                forall|t: int| 0 <= t < path@.len() ==> #[trigger] path@[t] < cells,
            decreases fuel2,
        {
            fuel2 = fuel2 - 1;
            let p = parent[cur];
            if p == cells {
                break ;
            }
            cur = p;
            path.push(cur);
        }
        Some(path)
    }

    /// Mark the path's cells committed, and emit its wires and vias into the
    /// result: one wire per layer-contiguous run (consecutive collinear
    /// cells collapsed), one via per layer transition.
    fn commit_path(&mut self, path: &Vec<usize>, net_id: u64, out: &mut RouteResult)
        requires
            old(self).wf(),
            old(out).wf(),
            path@.len() >= 1,
            forall|k: int| 0 <= k < path@.len() ==> #[trigger] path@[k]
                < old(self).committed@.len(),
        ensures
            final(self).wf(),
            *final(self) == (GridRouter { committed: final(self).committed, ..*old(self) }),
            final(self).committed@.len() == old(self).committed@.len(),
            final(out).wf(),
            final(out).failed == old(out).failed,
            final(out).debug_rts@ == old(out).debug_rts@,
            final(out).failed_nets@ == old(out).failed_nets@,
            forall|i: int|
                0 <= i < final(out).wires@.len() ==> ((i < old(out).wires@.len() && final(out).wires@[i] == old(out).wires@[i]) || (#[trigger] final(out).wires@[i]).net
                    == net_id),
            forall|i: int|
                0 <= i < final(out).vias@.len() ==> ((i < old(out).vias@.len() && final(out).vias@[i] == old(out).vias@[i]) || (#[trigger] final(out).vias@[i]).net
                    == net_id),
    {
        let mut k: usize = 0;
        let n = path.len();
        while k < n
            invariant
                self.wf(),
                *self == (GridRouter { committed: self.committed, ..*old(self) }),
                self.committed@.len() == old(self).committed@.len(),
                n == path@.len(),
                k <= n,
                forall|t: int| 0 <= t < path@.len() ==> #[trigger] path@[t]
                    < self.committed@.len(),
            decreases n - k,
        {
            self.committed.set(path[k], true);
            k = k + 1;
        }
        let via_id: u64 = if self.pcb.via_padstacks.len() > 0 {
            self.pcb.via_padstacks[0].id
        } else {
            0
        };
        let half_tw: i64 = self.pcb.rules.trace_width / 2;
        let (l0, j0, i0) = self.coords_of(path[0]);
        let mut run: Vec<Pt> = Vec::new();
        run.push(self.cell_center(i0, j0));
        let mut cur_layer: usize = l0;
        k = 1;
        while k < n
            invariant
                self.wf(),
                *self == (GridRouter { committed: self.committed, ..*old(self) }),
                self.committed@.len() == old(self).committed@.len(),
                n == path@.len(),
                1 <= k <= n,
                1 <= run@.len() < 1_000_000,
                0 <= half_tw <= 1_000_000,
                forall|t: int|
                    0 <= t < run@.len() ==> crate::primitive::pt_pad_ok(
                        #[trigger] run@[t],
                        1_000_000,
                    ),
                cur_layer < self.nl,
                forall|t: int| 0 <= t < path@.len() ==> #[trigger] path@[t]
                    < self.committed@.len(),
                out.wf(),
                out.failed == old(out).failed,
                out.debug_rts@ == old(out).debug_rts@,
                out.failed_nets@ == old(out).failed_nets@,
                forall|i: int|
                    0 <= i < out.wires@.len() ==> ((i < old(out).wires@.len() && out.wires@[i]
                        == old(out).wires@[i]) || (#[trigger] out.wires@[i]).net == net_id),
                forall|i: int|
                    0 <= i < out.vias@.len() ==> ((i < old(out).vias@.len() && out.vias@[i] == old(out).vias@[i]) || (#[trigger] out.vias@[i]).net == net_id),
            decreases n - k,
        {
            let (l, j, i) = self.coords_of(path[k]);
            let c = self.cell_center(i, j);
            if l != cur_layer {
                if run.len() >= 2 {
                proof {
                    assert forall|t: int|
                        0 <= t < run@.len() implies crate::primitive::pt_pad_ok(
                        #[trigger] run@[t],
                        half_tw,
                    ) by {
                        crate::primitive::lemma_pt_pad_mono(run@[t], 1_000_000, half_tw);
                    }
                }
                    let w = crate::pcb::Wire {
                        path: Path { pts: run, r: half_tw },
                        layer: cur_layer,
                        net: net_id,
                    };
                    out.wires.push(w);
                    run = Vec::new();
                } else {
                    run = Vec::new();
                }
                out.vias.push(crate::pcb::Via { p: c, padstack: via_id, net: net_id });
                run.push(c);
                cur_layer = l;
            } else {
                let m = run.len();
                if m >= 2 {
                    let p2 = run[m - 2];
                    let p1 = run[m - 1];
                    if crate::math::cross_at(p2, p1, c) == 0 {
                        run.set(m - 1, c);
                    } else {
                        run.push(c);
                    }
                } else {
                    run.push(c);
                }
                if run.len() >= 999_999 {
                    // An extremely long run: flush it and continue from its
                    // last point.
                    let lastp = run[run.len() - 1];
                proof {
                    assert forall|t: int|
                        0 <= t < run@.len() implies crate::primitive::pt_pad_ok(
                        #[trigger] run@[t],
                        half_tw,
                    ) by {
                        crate::primitive::lemma_pt_pad_mono(run@[t], 1_000_000, half_tw);
                    }
                }
                    let w = crate::pcb::Wire {
                        path: Path { pts: run, r: half_tw },
                        layer: cur_layer,
                        net: net_id,
                    };
                    out.wires.push(w);
                    run = Vec::new();
                    run.push(lastp);
                }
            }
            k = k + 1;
        }
        if run.len() >= 2 {
        proof {
            assert forall|t: int|
                0 <= t < run@.len() implies crate::primitive::pt_pad_ok(
                #[trigger] run@[t],
                half_tw,
            ) by {
                crate::primitive::lemma_pt_pad_mono(run@[t], 1_000_000, half_tw);
            }
        }
            let w = crate::pcb::Wire {
                path: Path { pts: run, r: half_tw },
                layer: cur_layer,
                net: net_id,
            };
            out.wires.push(w);
        }
    }

    /// The blocked map for one net: obstacles plus the cells committed by
    /// earlier nets of this pass.
    fn build_blocked(&self, net: &Net) -> (r: Vec<bool>)
        requires
            self.wf(),
        ensures
            r@.len() == self.committed@.len(),
    {
        let cells = self.committed.len();
        let mut blocked: Vec<bool> = Vec::new();
        let mut c: usize = 0;
        while c < cells
            invariant
                self.wf(),
                cells == self.committed@.len(),
                blocked@.len() == c,
                c <= cells,
            decreases cells - c,
        {
            let (l, j, i) = self.coords_of(c);
            let b = self.committed[c] || self.cell_blocked(net, l, i, j);
            blocked.push(b);
            c = c + 1;
        }
        blocked
    }

    /// Route one net: grow a tree from the first pin's pad cells, connecting
    /// each further pin by a lowest-cost search. The found connections are
    /// committed only after every pin is reached, so a failed net leaves the
    /// grid and the result exactly as they were.
    fn route_net(&mut self, net: &Net, out: &mut RouteResult) -> (ok: bool)
        requires
            old(self).wf(),
            old(out).wf(),
        ensures
            final(self).wf(),
            *final(self) == (GridRouter { committed: final(self).committed, ..*old(self) }),
            final(self).committed@.len() == old(self).committed@.len(),
            final(out).wf(),
            final(out).failed == old(out).failed,
            final(out).debug_rts@ == old(out).debug_rts@,
            final(out).failed_nets@ == old(out).failed_nets@,
            forall|i: int|
                0 <= i < final(out).wires@.len() ==> ((i < old(out).wires@.len() && final(out).wires@[i] == old(out).wires@[i]) || (#[trigger] final(out).wires@[i]).net
                    == net.id),
            forall|i: int|
                0 <= i < final(out).vias@.len() ==> ((i < old(out).vias@.len() && final(out).vias@[i] == old(out).vias@[i]) || (#[trigger] final(out).vias@[i]).net
                    == net.id),
            !ok ==> *final(self) == *old(self) && *final(out) == *old(out),
            !ok ==> net.pins@.len() > 0,
    {
        let npins = net.pins.len();
        if npins == 0 {
            return true;
        }
        let blocked = self.build_blocked(net);
        let cells = self.committed.len();
        let mut tree: Vec<bool> = Vec::new();
        let mut k: usize = 0;
        while k < cells
            invariant
                tree@.len() == k,
                k <= cells,
            decreases cells - k,
        {
            tree.push(false);
            k = k + 1;
        }
        let first = self.pin_pad_cells(&net.pins[0]);
        if first.len() == 0 {
            return false;
        }
        k = 0;
        let nf = first.len();
        while k < nf
            invariant
                self.wf(),
                cells == self.committed@.len(),
                tree@.len() == cells,
                nf == first@.len(),
                k <= nf,
                forall|t: int| 0 <= t < first@.len() ==> #[trigger] first@[t] < cells,
            decreases nf - k,
        {
            tree.set(first[k], true);
            k = k + 1;
        }
        // Search phase: find a connection for every further pin, committing
        // nothing yet.
        let mut paths: Vec<Vec<usize>> = Vec::new();
        let mut p: usize = 1;
        while p < npins
            invariant
                old(self).wf(),
                old(out).wf(),
                self.wf(),
                *self == *old(self),
                *out == *old(out),
                cells == self.committed@.len(),
                npins == net.pins@.len(),
                blocked@.len() == cells,
                tree@.len() == cells,
                1 <= p <= npins,
                forall|c: int|
                    0 <= c < paths@.len() ==> (#[trigger] paths@[c])@.len() >= 1 && (forall|t: int|
                        0 <= t < paths@[c]@.len() ==> #[trigger] paths@[c]@[t] < cells),
            decreases npins - p,
        {
            let pads = self.pin_pad_cells(&net.pins[p]);
            let npads = pads.len();
            if npads == 0 {
                return false;
            }
            let mut targets: Vec<bool> = Vec::new();
            let mut k2: usize = 0;
            while k2 < cells
                invariant
                    targets@.len() == k2,
                    k2 <= cells,
                decreases cells - k2,
            {
                targets.push(false);
                k2 = k2 + 1;
            }
            k2 = 0;
            while k2 < npads
                invariant
                    cells == self.committed@.len(),
                    targets@.len() == cells,
                    npads == pads@.len(),
                    k2 <= npads,
                    forall|t: int| 0 <= t < pads@.len() ==> #[trigger] pads@[t] < cells,
                decreases npads - k2,
            {
                targets.set(pads[k2], true);
                k2 = k2 + 1;
            }
            let path = match self.find_path(&blocked, &tree, &targets) {
                Some(path) => path,
                None => {
                    return false;
                },
            };
            // The found path and the reached pad join the tree.
            let np = path.len();
            k2 = 0;
            while k2 < np
                invariant
                    cells == self.committed@.len(),
                    tree@.len() == cells,
                    np == path@.len(),
                    k2 <= np,
                    forall|t: int| 0 <= t < path@.len() ==> #[trigger] path@[t] < cells,
                decreases np - k2,
            {
                tree.set(path[k2], true);
                k2 = k2 + 1;
            }
            k2 = 0;
            while k2 < npads
                invariant
                    cells == self.committed@.len(),
                    tree@.len() == cells,
                    npads == pads@.len(),
                    k2 <= npads,
                    forall|t: int| 0 <= t < pads@.len() ==> #[trigger] pads@[t] < cells,
                decreases npads - k2,
            {
                tree.set(pads[k2], true);
                k2 = k2 + 1;
            }
            paths.push(path);
            p = p + 1;
        }
        // Commit phase: every pin was reached, so the connections go in.
        let nc = paths.len();
        let mut c: usize = 0;
        while c < nc
            invariant
                self.wf(),
                *self == (GridRouter { committed: self.committed, ..*old(self) }),
                self.committed@.len() == old(self).committed@.len(),
                cells == self.committed@.len(),
                nc == paths@.len(),
                c <= nc,
                forall|c2: int|
                    0 <= c2 < paths@.len() ==> (#[trigger] paths@[c2])@.len() >= 1 && (forall|t: int|
                        0 <= t < paths@[c2]@.len() ==> #[trigger] paths@[c2]@[t] < cells),
                out.wf(),
                out.failed == old(out).failed,
                out.debug_rts@ == old(out).debug_rts@,
                out.failed_nets@ == old(out).failed_nets@,
                forall|i: int|
                    0 <= i < out.wires@.len() ==> ((i < old(out).wires@.len() && out.wires@[i]
                        == old(out).wires@[i]) || (#[trigger] out.wires@[i]).net == net.id),
                forall|i: int|
                    0 <= i < out.vias@.len() ==> ((i < old(out).vias@.len() && out.vias@[i] == old(out).vias@[i]) || (#[trigger] out.vias@[i]).net == net.id),
            decreases nc - c,
        {
            self.commit_path(&paths[c], net.id, out);
            c = c + 1;
        }
        true
    }

    /// Some net of the board carries this id.
    pub open spec fn spec_has_net(pcb: Pcb, id: u64) -> bool {
        exists|i: int| 0 <= i < pcb.nets@.len() && (#[trigger] pcb.nets@[i]).id == id
    }

    /// The index of the net with the given id.
    fn find_net(&self, id: u64) -> (r: Option<usize>)
        ensures
            match r {
                Some(i) => 0 <= i < self.pcb.nets@.len() && self.pcb.nets@[i as int].id == id,
                None => !Self::spec_has_net(self.pcb, id),
            },
    {
        let n = self.pcb.nets.len();
        let mut i: usize = 0;
        while i < n
            invariant
                n == self.pcb.nets@.len(),
                i <= n,
                forall|t: int| 0 <= t < i ==> (#[trigger] self.pcb.nets@[t]).id != id,
            decreases n - i,
        {
            if self.pcb.nets[i].id == id {
                return Some(i);
            }
            i = i + 1;
        }
        None
    }

    /// Route the nets strictly in the order given. A net that cannot be
    /// routed is recorded in `failed_nets` — with nothing of it committed —
    /// and routing continues; the `failed` flag is set exactly when some net
    /// failed. An order id naming no net of the board fails; one naming a
    /// net with no pins trivially succeeds.
    pub fn route(&mut self) -> (r: RouteResult)
        requires
            old(self).wf(),
        ensures
            final(self).wf(),
            r.wf(),
            r.failed == (r.failed_nets@.len() > 0),
            forall|i: int|
                0 <= i < r.wires@.len() ==> old(self).net_order@.contains(
                    (#[trigger] r.wires@[i]).net,
                ),
            forall|i: int|
                0 <= i < r.vias@.len() ==> old(self).net_order@.contains(
                    (#[trigger] r.vias@[i]).net,
                ),
            forall|i: int|
                0 <= i < r.failed_nets@.len() ==> old(self).net_order@.contains(
                    #[trigger] r.failed_nets@[i],
                ),
            forall|k: int|
                0 <= k < old(self).net_order@.len() && !Self::spec_has_net(
                    old(self).pcb,
                    #[trigger] old(self).net_order@[k],
                ) ==> r.failed_nets@.contains(old(self).net_order@[k]),
            forall|j: int|
                0 <= j < r.failed_nets@.len() ==> !Self::spec_has_net(
                    old(self).pcb,
                    #[trigger] r.failed_nets@[j],
                ) || exists|i: int|
                    0 <= i < old(self).pcb.nets@.len() && (#[trigger] old(self).pcb.nets@[i]).id
                        == r.failed_nets@[j] && old(self).pcb.nets@[i].pins@.len() > 0,
            nodup(old(self).net_order@) ==> forall|i: int|
                0 <= i < r.wires@.len() ==> !r.failed_nets@.contains(
                    (#[trigger] r.wires@[i]).net,
                ),
            nodup(old(self).net_order@) ==> forall|i: int|
                0 <= i < r.vias@.len() ==> !r.failed_nets@.contains((#[trigger] r.vias@[i]).net),
            old(self).net_order@.len() == 0 ==> r.wires@.len() == 0 && r.vias@.len() == 0
                && !r.failed,
    {
        let mut out = RouteResult::new();
        let n = self.net_order.len();
        let mut k: usize = 0;
        while k < n
            invariant
                self.wf(),
                self.net_order == old(self).net_order,
                self.pcb == old(self).pcb,
                n == self.net_order@.len(),
                k <= n,
                out.wf(),
                out.failed == (out.failed_nets@.len() > 0),
                forall|i: int|
                    0 <= i < out.wires@.len() ==> self.net_order@.take(k as int).contains(
                        (#[trigger] out.wires@[i]).net,
                    ),
                forall|i: int|
                    0 <= i < out.vias@.len() ==> self.net_order@.take(k as int).contains(
                        (#[trigger] out.vias@[i]).net,
                    ),
                forall|i: int|
                    0 <= i < out.failed_nets@.len() ==> self.net_order@.take(k as int).contains(
                        #[trigger] out.failed_nets@[i],
                    ),
                forall|t: int|
                    0 <= t < k && !Self::spec_has_net(
                        self.pcb,
                        #[trigger] self.net_order@[t],
                    ) ==> out.failed_nets@.contains(self.net_order@[t]),
                forall|j: int|
                    0 <= j < out.failed_nets@.len() ==> !Self::spec_has_net(
                        self.pcb,
                        #[trigger] out.failed_nets@[j],
                    ) || exists|i: int|
                        0 <= i < self.pcb.nets@.len() && (#[trigger] self.pcb.nets@[i]).id
                            == out.failed_nets@[j] && self.pcb.nets@[i].pins@.len() > 0,
                nodup(self.net_order@) ==> forall|i: int|
                    0 <= i < out.wires@.len() ==> !out.failed_nets@.contains(
                        (#[trigger] out.wires@[i]).net,
                    ),
                nodup(self.net_order@) ==> forall|i: int|
                    0 <= i < out.vias@.len() ==> !out.failed_nets@.contains(
                        (#[trigger] out.vias@[i]).net,
                    ),
                k == 0 ==> out.wires@.len() == 0 && out.vias@.len() == 0 && !out.failed,
            decreases n - k,
        {
            let id = self.net_order[k];
            let ghost pre_out = out;
            let mut ok = false;
            let ni = self.find_net(id);
            match ni {
                Some(ni) => {
                    let netc = Net {
                        id: self.pcb.nets[ni].id,
                        pins: clone_pin_refs(&self.pcb.nets[ni].pins),
                    };
                    ok = self.route_net(&netc, &mut out);
                    proof {
                        assert(netc.id == id);
                        assert(Self::spec_has_net(self.pcb, id));
                        if !ok {
                            assert(self.pcb.nets@[ni as int].pins@.len() > 0);
                        }
                    }
                },
                None => {
                },
            }
            proof {
                assert(self.net_order@.take(k + 1)[k as int] == id);
                assert forall|x: u64|
                    self.net_order@.take(k as int).contains(x) implies self.net_order@.take(
                    k + 1,
                ).contains(x) by {
                    let w = choose|w: int|
                        0 <= w < k && self.net_order@.take(k as int)[w] == x;
                    assert(self.net_order@.take(k + 1)[w] == x);
                }
            }
            if !ok {
                proof {
                    if nodup(self.net_order@) {
                        assert forall|i: int|
                            0 <= i < out.wires@.len() implies (#[trigger] out.wires@[i]).net
                            != id by {
                            let w = choose|w: int|
                                0 <= w < k && self.net_order@.take(k as int)[w]
                                    == out.wires@[i].net;
                            assert(self.net_order@[w] == out.wires@[i].net);
                            assert(self.net_order@[k as int] == id);
                        }
                        assert forall|i: int|
                            0 <= i < out.vias@.len() implies (#[trigger] out.vias@[i]).net
                            != id by {
                            let w = choose|w: int|
                                0 <= w < k && self.net_order@.take(k as int)[w]
                                    == out.vias@[i].net;
                            assert(self.net_order@[w] == out.vias@[i].net);
                            assert(self.net_order@[k as int] == id);
                        }
                    }
                }
                let ghost pre_failed = out.failed_nets@;
                out.failed = true;
                out.failed_nets.push(id);
                proof {
                    assert(out.failed_nets@[out.failed_nets@.len() - 1] == id);
                    assert forall|x: u64| pre_failed.contains(x) implies out.failed_nets@.contains(
                        x,
                    ) by {
                        let w = choose|w: int| 0 <= w < pre_failed.len() && pre_failed[w] == x;
                        assert(out.failed_nets@[w] == x);
                    }
                }
            }
            k = k + 1;
        }
        proof {
            assert(self.net_order@.take(n as int) =~= self.net_order@);
        }
        out
    }
}

/// No id occurs twice.
pub open spec fn nodup(s: Seq<u64>) -> bool {
    forall|i: int, j: int| 0 <= i < j < s.len() ==> s[i] != s[j]
}

/// A copy of a net's pin references.
fn clone_pin_refs(v: &Vec<crate::pcb::PinRef>) -> (r: Vec<crate::pcb::PinRef>)
    ensures
        r@ == v@,
{
    let mut out: Vec<crate::pcb::PinRef> = Vec::new();
    let n = v.len();
    let mut i: usize = 0;
    while i < n
        invariant
            n == v@.len(),
            out@ == v@.take(i as int),
            i <= n,
        decreases n - i,
    {
        out.push(v[i]);
        i = i + 1;
    }
    proof {
        assert(v@.take(n as int) =~= v@);
    }
    out
}

} // verus!
