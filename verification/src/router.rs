//! The routing facade: the per-pass result buffer and its merge law, the
//! route cost, board validation, and the router over a board snapshot.

use vstd::prelude::*;

verus! {

use vstd::multiset::Multiset;

use crate::primitive::{Rt, Path};
use crate::pcb::{Pcb, Wire, Via, Net};
use crate::distance::{spec_floor_sqrt, spec_dsq};

/// Cost of a failed net; far above any via or wire-length cost.
pub const K_FAIL: u64 = 10_000_000_000_000;

/// Cost of one via; far above the cost of a unit of wire length.
pub const K_VIA: u64 = 10_000_000;

/// Cost of one internal unit of wire length.
pub const K_LEN: u64 = 1;

/// What one routing pass produced: wires, vias, debug rectangles and
/// whether any net failed.
#[derive(Clone, Debug)]
pub struct RouteResult {
    pub wires: Vec<Wire>,
    pub vias: Vec<Via>,
    pub debug_rts: Vec<Rt>,
    pub failed_nets: Vec<u64>,
    pub failed: bool,
}

/// `r` is the merge of `a` then `b`: concatenated buffers, OR-combined
/// failure flag.
pub open spec fn is_merge(a: RouteResult, b: RouteResult, r: RouteResult) -> bool {
    &&& r.wires@ == a.wires@ + b.wires@
    &&& r.vias@ == a.vias@ + b.vias@
    &&& r.debug_rts@ == a.debug_rts@ + b.debug_rts@
    &&& r.failed_nets@ == a.failed_nets@ + b.failed_nets@
    &&& r.failed == (a.failed || b.failed)
}

impl RouteResult {
    pub open spec fn wf(self) -> bool {
        &&& forall|i: int| 0 <= i < self.wires@.len() ==> (#[trigger] self.wires@[i]).wf()
        &&& forall|i: int| 0 <= i < self.vias@.len() ==> (#[trigger] self.vias@[i]).wf()
    }

    /// An empty, successful result.
    pub fn new() -> (r: RouteResult)
        ensures
            r.wires@.len() == 0,
            r.vias@.len() == 0,
            r.debug_rts@.len() == 0,
            r.failed_nets@.len() == 0,
            !r.failed,
            r.wf(),
    {
        RouteResult {
            wires: Vec::new(),
            vias: Vec::new(),
            debug_rts: Vec::new(),
            failed_nets: Vec::new(),
            failed: false,
        }
    }

    /// Fold another pass's result into this one.
    pub fn merge(&mut self, r: RouteResult)
        ensures
            is_merge(*old(self), r, *final(self)),
    {
        let mut r = r;
        self.wires.append(&mut r.wires);
        self.vias.append(&mut r.vias);
        self.debug_rts.append(&mut r.debug_rts);
        self.failed_nets.append(&mut r.failed_nets);
        self.failed = self.failed || r.failed;
    }
}

impl Default for RouteResult {
    fn default() -> (r: RouteResult)
        ensures
            r.wires@.len() == 0,
            r.vias@.len() == 0,
            r.debug_rts@.len() == 0,
            r.failed_nets@.len() == 0,
            !r.failed,
    {
        RouteResult::new()
    }
}

/// Merging results is associative: merging `a` with `b` and then `c` gives
/// the same buffers and flag as merging `a` with the merge of `b` and `c`.
pub proof fn lemma_merge_assoc(
    a: RouteResult,
    b: RouteResult,
    c: RouteResult,
    ab: RouteResult,
    ab_c: RouteResult,
    bc: RouteResult,
    a_bc: RouteResult,
)
    requires
        is_merge(a, b, ab),
        is_merge(ab, c, ab_c),
        is_merge(b, c, bc),
        is_merge(a, bc, a_bc),
    ensures
        ab_c.wires@ == a_bc.wires@,
        ab_c.vias@ == a_bc.vias@,
        ab_c.debug_rts@ == a_bc.debug_rts@,
        ab_c.failed_nets@ == a_bc.failed_nets@,
        ab_c.failed == a_bc.failed,
{
}

/// Merging an empty result changes nothing.
pub proof fn lemma_merge_empty(a: RouteResult, e: RouteResult, r: RouteResult)
    requires
        e.wires@.len() == 0,
        e.vias@.len() == 0,
        e.debug_rts@.len() == 0,
        e.failed_nets@.len() == 0,
        !e.failed,
        is_merge(a, e, r),
    ensures
        r.wires@ == a.wires@,
        r.vias@ == a.vias@,
        r.debug_rts@ == a.debug_rts@,
        r.failed_nets@ == a.failed_nets@,
        r.failed == a.failed,
{
    assert(r.wires@ =~= a.wires@);
    assert(r.vias@ =~= a.vias@);
    assert(r.debug_rts@ =~= a.debug_rts@);
    assert(r.failed_nets@ =~= a.failed_nets@);
}

/// The floor-length of a path's polyline: the sum of its legs' lengths over
/// the first `n` legs.
pub open spec fn spec_path_len_upto(p: Path, n: int) -> int
    decreases n,
{
    if n <= 0 {
        0
    } else {
        spec_path_len_upto(p, n - 1) + spec_floor_sqrt(spec_dsq(p.pts@[n - 1], p.pts@[n]))
    }
}

pub open spec fn spec_path_len(p: Path) -> int {
    spec_path_len_upto(p, p.pts@.len() - 1)
}

/// Total length of a sequence of wires.
pub open spec fn spec_wires_len(ws: Seq<Wire>, n: int) -> int
    decreases n,
{
    if n <= 0 {
        0
    } else {
        spec_wires_len(ws, n - 1) + spec_path_len(ws[n - 1].path)
    }
}

/// The cost of a routing result:
/// `K_FAIL` if any net failed, plus `K_VIA` per via, plus `K_LEN` per unit
/// of wire length, saturating at the largest representable cost.
pub open spec fn spec_route_cost(r: RouteResult) -> int {
    let raw = K_FAIL * r.failed_nets@.len() + K_VIA * r.vias@.len() + K_LEN * spec_wires_len(
        r.wires@,
        r.wires@.len() as int,
    );
    if raw > u64::MAX as int {
        u64::MAX as int
    } else {
        raw
    }
}

/// The length of one path, rounded down per leg.
pub fn path_len(p: &Path) -> (r: u64)
    requires
        p.wf(),
    ensures
        r as int == spec_path_len(*p),
        r <= 3_000_000_000_000_000,
{
    let n = p.pts.len();
    let mut total: u64 = 0;
    let mut i: usize = 0;
    while i < n - 1
        invariant
            p.wf(),
            n == p.pts@.len(),
            2 <= n <= 1_000_000,
            i <= n - 1,
            total as int == spec_path_len_upto(*p, i as int),
            total <= i * 3_000_000_000,
        decreases n - 1 - i,
    {
        let d = crate::distance::pt_pt_dist(p.pts[i], p.pts[i + 1]);
        proof {
            assert((i + 1) * 3_000_000_000 == i * 3_000_000_000 + 3_000_000_000)
                by (nonlinear_arith);
            assert(i * 3_000_000_000 <= 3_000_000_000_000_000 - 3_000_000_000)
                by (nonlinear_arith)
                requires
                    0 <= i < 1_000_000,
            ;
        }
        total = total + (d as u64);
        i = i + 1;
    }
    proof {
        assert((n - 1) * 3_000_000_000 <= 3_000_000_000_000_000) by (nonlinear_arith)
            requires
                2 <= n <= 1_000_000,
        ;
    }
    total
}

/// The cost of a routing result, saturating at `u64::MAX`.
pub fn route_cost(r: &RouteResult) -> (c: u64)
    requires
        r.wf(),
    ensures
        c as int == spec_route_cost(*r),
{
    let nf = r.failed_nets.len();
    let nv = r.vias.len();
    proof {
        assert((K_FAIL as int) * (nf as int) <= 10_000_000_000_000 * 0xFFFF_FFFF_FFFF_FFFFu64
            && (K_VIA as int) * (nv as int) <= 10_000_000 * 0xFFFF_FFFF_FFFF_FFFFu64)
            by (nonlinear_arith)
            requires
                0 <= nf as int <= 0xFFFF_FFFF_FFFF_FFFFu64,
                0 <= nv as int <= 0xFFFF_FFFF_FFFF_FFFFu64,
        ;
    }
    let mut raw: u128 = (K_FAIL as u128) * (nf as u128);
    raw = raw + (K_VIA as u128) * (nv as u128);
    let nw = r.wires.len();
    let mut i: usize = 0;
    let mut wl: u128 = 0;
    while i < nw
        invariant
            r.wf(),
            nw == r.wires@.len(),
            i <= nw,
            wl == spec_wires_len(r.wires@, i as int),
            wl <= i * 3_000_000_000_000_000,
        decreases nw - i,
    {
        let l = path_len(&r.wires[i].path);
        proof {
            assert((i + 1) * 3_000_000_000_000_000 == i * 3_000_000_000_000_000
                + 3_000_000_000_000_000) by (nonlinear_arith);
            assert(i * 3_000_000_000_000_000
                <= 0xFFFF_FFFF_FFFF_FFFF_0000_0000_0000_0000u128 as int) by (nonlinear_arith)
                requires
                    0 <= i < 0x1_0000_0000_0000_0000,
            ;
        }
        wl = wl + (l as u128);
        i = i + 1;
    }
    proof {
        assert(wl <= 0xFFFF_FFFF_FFFF_FFFFu64 * 3_000_000_000_000_000) by (nonlinear_arith)
            requires
                wl <= nw * 3_000_000_000_000_000,
                0 <= nw as int <= 0xFFFF_FFFF_FFFF_FFFFu64,
        ;
    }
    raw = raw + wl;
    if raw > u64::MAX as u128 {
        u64::MAX
    } else {
        raw as u64
    }
}

/// Why a routing pass could not start.
#[derive(Clone, Copy, Debug, PartialEq, Eq, Structural)]
pub enum RouteError {
    /// The board cannot be routed: no layers, no boundary, an unresolvable
    /// pin reference, or a board that cannot be discretized.
    InvalidBoard,
}

/// A sequence is sorted in non-decreasing order.
pub open spec fn sorted(s: Seq<u64>) -> bool {
    forall|i: int, j: int| 0 <= i <= j < s.len() ==> s[i] <= s[j]
}

/// The ids of the board's nets, in board order.
pub open spec fn spec_net_ids(pcb: Pcb) -> Seq<u64> {
    pcb.nets@.map_values(|n: Net| n.id)
}

/// Sort net ids ascending: the result holds exactly the given ids.
pub fn sort_ids(v: Vec<u64>) -> (r: Vec<u64>)
    ensures
        sorted(r@),
        r@.to_multiset() == v@.to_multiset(),
{
    let mut src = v;
    let mut out: Vec<u64> = Vec::new();
    proof {
        out@.to_multiset_ensures();
        src@.to_multiset_ensures();
        assert(out@.to_multiset().add(src@.to_multiset()) =~= src@.to_multiset());
    }
    while src.len() > 0
        invariant
            out@.to_multiset().add(src@.to_multiset()) == v@.to_multiset(),
            sorted(out@),
            forall|a: int, b: int|
                0 <= a < out@.len() && 0 <= b < src@.len() ==> out@[a] <= src@[b],
        decreases src@.len(),
    {
        let n = src.len();
        let mut m: usize = 0;
        let mut i: usize = 1;
        while i < n
            invariant
                n == src@.len(),
                m < n,
                i <= n,
                forall|k: int| 0 <= k < i ==> src@[m as int] <= src@[k],
            decreases n - i,
        {
            if src[i] < src[m] {
                m = i;
            }
            i = i + 1;
        }
        let ghost pre = src@;
        let x = src.remove(m);
        proof {
            pre.to_multiset_ensures();
            out@.to_multiset_ensures();
            assert(src@ == pre.remove(m as int));
            assert(src@.to_multiset() =~= pre.to_multiset().remove(x));
            assert(out@.push(x).to_multiset() =~= out@.to_multiset().insert(x));
            assert(out@.push(x).to_multiset().add(src@.to_multiset()) =~= v@.to_multiset());
            assert(forall|b: int|
                0 <= b < src@.len() ==> src@[b] == pre[b] || src@[b] == pre[b + 1]);
        }
        out.push(x);
    }
    proof {
        src@.to_multiset_ensures();
        assert(src@.to_multiset() =~= Multiset::<u64>::empty());
        assert(out@.to_multiset().add(Multiset::<u64>::empty()) =~= out@.to_multiset());
    }
    out
}

/// The router: routes nets over an immutable board snapshot.
pub struct Router {
    pub pcb: Pcb,
}

impl Router {
    pub open spec fn wf(self) -> bool {
        self.pcb.wf()
    }

    pub fn new(pcb: Pcb) -> (r: Router)
        requires
            pcb.wf(),
        ensures
            r.pcb == pcb,
            r.wf(),
    {
        Router { pcb }
    }

    /// The board's net ids in ascending order: the deterministic baseline
    /// net order.
    pub fn rand_net_order(&self) -> (r: Vec<u64>)
        ensures
            sorted(r@),
            r@.to_multiset() == spec_net_ids(self.pcb).to_multiset(),
    {
        let mut ids: Vec<u64> = Vec::new();
        let n = self.pcb.nets.len();
        let mut i: usize = 0;
        while i < n
            invariant
                n == self.pcb.nets@.len(),
                i <= n,
                ids@.len() == i,
                forall|k: int| 0 <= k < i ==> #[trigger] ids@[k] == self.pcb.nets@[k].id,
            decreases n - i,
        {
            ids.push(self.pcb.nets[i].id);
            i = i + 1;
        }
        proof {
            assert(ids@ =~= spec_net_ids(self.pcb));
        }
        sort_ids(ids)
    }

    /// Route the given net order over a snapshot of the board. Succeeds
    /// exactly when the board validates and can be discretized into a grid;
    /// then the nets are routed strictly in the given order, an order id
    /// naming no net (or a net some pin of which cannot be reached) is
    /// recorded in `failed_nets` with nothing of it committed, and the
    /// `failed` flag says whether any net failed.
    pub fn route(&self, net_order: Vec<u64>) -> (r: Result<RouteResult, RouteError>)
        requires
            self.wf(),
        ensures
            r.is_ok() == (self.pcb.spec_board_valid() && crate::grid::spec_can_build(self.pcb)),
            match r {
                Ok(res) => {
                    &&& res.wf()
                    &&& res.failed == (res.failed_nets@.len() > 0)
                    &&& forall|i: int|
                        0 <= i < res.wires@.len() ==> net_order@.contains(
                            (#[trigger] res.wires@[i]).net,
                        )
                    &&& forall|i: int|
                        0 <= i < res.vias@.len() ==> net_order@.contains(
                            (#[trigger] res.vias@[i]).net,
                        )
                    &&& forall|i: int|
                        0 <= i < res.failed_nets@.len() ==> net_order@.contains(
                            #[trigger] res.failed_nets@[i],
                        )
                    &&& forall|k: int|
                        0 <= k < net_order@.len() && !crate::grid::GridRouter::spec_has_net(
                            self.pcb,
                            #[trigger] net_order@[k],
                        ) ==> res.failed_nets@.contains(net_order@[k])
                    &&& forall|j: int|
                        0 <= j < res.failed_nets@.len()
                            ==> !crate::grid::GridRouter::spec_has_net(
                            self.pcb,
                            #[trigger] res.failed_nets@[j],
                        ) || exists|i: int|
                            0 <= i < self.pcb.nets@.len() && (#[trigger] self.pcb.nets@[i]).id
                                == res.failed_nets@[j] && self.pcb.nets@[i].pins@.len() > 0
                    &&& crate::grid::nodup(net_order@) ==> forall|i: int|
                        0 <= i < res.wires@.len() ==> !res.failed_nets@.contains(
                            (#[trigger] res.wires@[i]).net,
                        )
                    &&& crate::grid::nodup(net_order@) ==> forall|i: int|
                        0 <= i < res.vias@.len() ==> !res.failed_nets@.contains(
                            (#[trigger] res.vias@[i]).net,
                        )
                    &&& net_order@.len() == 0 ==> res.wires@.len() == 0 && res.vias@.len() == 0
                        && !res.failed
                },
                Err(e) => e == RouteError::InvalidBoard,
            },
    {
        if !self.pcb.validate() {
            return Err(RouteError::InvalidBoard);
        }
        let snap = self.pcb.snapshot();
        let ghost snapv = snap;
        let ghost order = net_order@;
        let mut grid = match crate::grid::GridRouter::new(snap, net_order) {
            Some(g) => g,
            None => {
                proof {
                    crate::grid::lemma_can_build_eq(snapv, self.pcb);
                }
                return Err(RouteError::InvalidBoard);
            },
        };
        let res = grid.route();
        proof {
            crate::grid::lemma_can_build_eq(snapv, self.pcb);
            assert forall|k: int|
                0 <= k < order.len() && !crate::grid::GridRouter::spec_has_net(
                    self.pcb,
                    #[trigger] order[k],
                ) implies res.failed_nets@.contains(order[k]) by {
                crate::grid::lemma_pcb_eq_has_net(snapv, self.pcb, order[k]);
            }
            assert forall|j: int|
                0 <= j < res.failed_nets@.len() implies !crate::grid::GridRouter::spec_has_net(
                self.pcb,
                #[trigger] res.failed_nets@[j],
            ) || exists|i: int|
                0 <= i < self.pcb.nets@.len() && (#[trigger] self.pcb.nets@[i]).id
                    == res.failed_nets@[j] && self.pcb.nets@[i].pins@.len() > 0 by {
                crate::grid::lemma_pcb_eq_has_net(snapv, self.pcb, res.failed_nets@[j]);
            }
        }
        Ok(res)
    }
}

/// Commit a routing result to the board: append its wires, vias and debug
/// rectangles.
pub fn apply_route_result(pcb: &mut Pcb, r: RouteResult)
    requires
        old(pcb).wf(),
        r.wf(),
    ensures
        final(pcb).wf(),
        final(pcb).wires@ == old(pcb).wires@ + r.wires@,
        final(pcb).vias@ == old(pcb).vias@ + r.vias@,
        final(pcb).debug_rts@ == old(pcb).debug_rts@ + r.debug_rts@,
        *final(pcb) == (Pcb {
            wires: final(pcb).wires,
            vias: final(pcb).vias,
            debug_rts: final(pcb).debug_rts,
            ..*old(pcb)
        }),
{
    let mut r = r;
    let ghost ow = r.wires@;
    let ghost ov = r.vias@;
    let ghost od = r.debug_rts@;
    while r.wires.len() > 0
        invariant
            pcb.wf(),
            r.wf(),
            pcb.wires@ + r.wires@ == old(pcb).wires@ + ow,
            r.vias@ == ov,
            r.debug_rts@ == od,
            *pcb == (Pcb { wires: pcb.wires, ..*old(pcb) }),
        decreases r.wires@.len(),
    {
        let ghost pre = r.wires@;
        let w = r.wires.remove(0);
        proof {
            assert(r.wires@ =~= pre.remove(0));
            assert(pcb.wires@.push(w) + r.wires@ =~= pcb.wires@ + pre);
        }
        pcb.add_wire(w);
    }
    proof {
        assert(pcb.wires@ + r.wires@ =~= pcb.wires@);
    }
    while r.vias.len() > 0
        invariant
            pcb.wf(),
            r.wf(),
            pcb.wires@ == old(pcb).wires@ + ow,
            pcb.vias@ + r.vias@ == old(pcb).vias@ + ov,
            r.debug_rts@ == od,
            *pcb == (Pcb { wires: pcb.wires, vias: pcb.vias, ..*old(pcb) }),
        decreases r.vias@.len(),
    {
        let ghost pre = r.vias@;
        let x = r.vias.remove(0);
        proof {
            assert(r.vias@ =~= pre.remove(0));
            assert(pcb.vias@.push(x) + r.vias@ =~= pcb.vias@ + pre);
        }
        pcb.add_via(x);
    }
    proof {
        assert(pcb.vias@ + r.vias@ =~= pcb.vias@);
    }
    while r.debug_rts.len() > 0
        invariant
            pcb.wf(),
            pcb.wires@ == old(pcb).wires@ + ow,
            pcb.vias@ == old(pcb).vias@ + ov,
            pcb.debug_rts@ + r.debug_rts@ == old(pcb).debug_rts@ + od,
            *pcb == (Pcb {
                wires: pcb.wires,
                vias: pcb.vias,
                debug_rts: pcb.debug_rts,
                ..*old(pcb)
            }),
        decreases r.debug_rts@.len(),
    {
        let ghost pre = r.debug_rts@;
        let x = r.debug_rts.remove(0);
        proof {
            assert(r.debug_rts@ =~= pre.remove(0));
            assert(pcb.debug_rts@.push(x) + r.debug_rts@ =~= pcb.debug_rts@ + pre);
        }
        pcb.add_debug_rt(x);
    }
    proof {
        assert(pcb.debug_rts@ + r.debug_rts@ =~= pcb.debug_rts@);
    }
}

/// A net ordering under search: a permutation of the board's net ids.
#[derive(Clone, Debug)]
pub struct RouteState(pub Vec<u64>);

/// A path's floor-length is never negative.
pub proof fn lemma_path_len_nonneg(p: Path)
    ensures
        spec_path_len(p) >= 0,
{
    lemma_path_len_upto_nonneg(p, p.pts@.len() - 1);
}

proof fn lemma_path_len_upto_nonneg(p: Path, n: int)
    ensures
        spec_path_len_upto(p, n) >= 0,
    decreases n,
{
    if n > 0 {
        lemma_path_len_upto_nonneg(p, n - 1);
        let m = spec_dsq(p.pts@[n - 1], p.pts@[n]);
        crate::math::lemma_sq_nonneg(p.pts@[n - 1].x - p.pts@[n].x);
        crate::math::lemma_sq_nonneg(p.pts@[n - 1].y - p.pts@[n].y);
        crate::distance::lemma_floor_sqrt_exists(m);
    }
}

} // verus!
