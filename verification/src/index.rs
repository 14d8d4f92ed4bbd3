//! The spatial index: a quadtree over the board's bounding rectangle,
//! answering which indexed shapes could meet a query rectangle.
//!
//! Shapes are indexed by an external id and their bounding rectangle. The
//! tree is built in bulk, one tree per layer; removal rebuilds, which is
//! acceptable between net routings. A query returns exactly the stored ids
//! whose bounding rectangle meets the query rectangle — the caller filters
//! by the exact kernel predicate, and because kernel distances vanish on
//! intersection, a within-radius query is a query by an inflated rectangle.

use vstd::prelude::*;

verus! {

use vstd::seq_lib::lemma_multiset_commutative;

use crate::primitive::{Rt, rt};
use crate::intersects::{spec_rt_intersects_rt, rt_intersects_rt};

/// Splitting stops at this depth, or when a node holds this few items.
pub const MAX_DEPTH: u32 = 12;

pub const SPLIT_THRESHOLD: usize = 8;

/// One indexed shape: its external id and its bounding rectangle.
#[derive(Clone, Copy, Debug)]
pub struct QtEntry {
    pub id: u64,
    pub bounds: Rt,
}

/// A quadtree node: entries whose bounds do not fit a single child stay
/// here; children come in fours or not at all.
pub struct QtNode {
    pub rect: Rt,
    pub items: Vec<QtEntry>,
    pub kids: Vec<QtNode>,
}

/// The entries of the first `m` children, concatenated.
pub open spec fn kids_entries(kids: Seq<QtNode>, m: int) -> Seq<QtEntry>
    decreases kids, 0int, m,
    when m <= kids.len()
    via kids_entries_dec
{
    if m <= 0 {
        Seq::<QtEntry>::empty()
    } else {
        kids_entries(kids, m - 1) + kids[m - 1].entries()
    }
}

#[via_fn]
proof fn kids_entries_dec(kids: Seq<QtNode>, m: int) {
    if m > 0 && 0 <= m - 1 < kids.len() {
        vstd::seq::axiom_seq_index_decreases::<QtNode>(kids, m - 1);
    }
}

/// The ids of the first `m` entries whose bounds meet `q`.
pub open spec fn items_query(items: Seq<QtEntry>, q: Rt, m: int) -> Seq<u64>
    decreases m,
{
    if m <= 0 {
        Seq::<u64>::empty()
    } else {
        items_query(items, q, m - 1) + if spec_rt_intersects_rt(items[m - 1].bounds, q) {
            seq![items[m - 1].id]
        } else {
            Seq::<u64>::empty()
        }
    }
}

/// The answers of the first `m` children.
pub open spec fn kids_query(kids: Seq<QtNode>, q: Rt, m: int) -> Seq<u64>
    decreases kids, 0int, m,
    when m <= kids.len()
    via kids_query_dec
{
    if m <= 0 {
        Seq::<u64>::empty()
    } else {
        kids_query(kids, q, m - 1) + kids[m - 1].spec_query(q)
    }
}

#[via_fn]
proof fn kids_query_dec(kids: Seq<QtNode>, q: Rt, m: int) {
    if m > 0 && 0 <= m - 1 < kids.len() {
        vstd::seq::axiom_seq_index_decreases::<QtNode>(kids, m - 1);
    }
}

impl QtNode {
    /// Every entry of the subtree, in tree order.
    pub open spec fn entries(self) -> Seq<QtEntry>
        decreases self, 1int, 0int,
        via QtNode::entries_dec
    {
        self.items@ + kids_entries(self.kids@, self.kids@.len() as int)
    }

    /// The ids the subtree answers for a query rectangle: the ids of every
    /// entry whose bounds meet it.
    pub open spec fn spec_query(self, q: Rt) -> Seq<u64>
        decreases self, 1int, 0int,
        via QtNode::spec_query_dec
    {
        if !spec_rt_intersects_rt(self.rect, q) {
            Seq::<u64>::empty()
        } else {
            items_query(self.items@, q, self.items@.len() as int) + kids_query(
                self.kids@,
                q,
                self.kids@.len() as int,
            )
        }
    }

    #[via_fn]
    proof fn entries_dec(self) {
        vstd::std_specs::vec::axiom_vec_decreases_to_view::<QtNode>(self.kids);
    }

    #[via_fn]
    proof fn spec_query_dec(self, q: Rt) {
        vstd::std_specs::vec::axiom_vec_decreases_to_view::<QtNode>(self.kids);
    }

    /// Entries lie inside their node's rectangle; children tile inside the
    /// parent.
    pub open spec fn wf(self) -> bool
        decreases self,
    {
        &&& self.rect.wf()
        &&& forall|i: int|
            0 <= i < self.items@.len() ==> self.rect.spec_encloses(
                (#[trigger] self.items@[i]).bounds,
            ) && self.items@[i].bounds.wf()
        &&& forall|i: int|
            0 <= i < self.kids@.len() ==> (#[trigger] self.kids@[i]).wf()
                && self.rect.spec_encloses(self.kids@[i].rect)
    }

    /// Run the query: walk children whose rectangle meets the query's
    /// bounding rectangle, filtering entries by rectangle overlap.
    pub fn query(&self, q: &Rt) -> (r: Vec<u64>)
        decreases *self,
    {
        let mut out: Vec<u64> = Vec::new();
        self.query_into(q, &mut out);
        out
    }

    /// Append this subtree's answer to `out`.
    pub fn query_into(&self, q: &Rt, out: &mut Vec<u64>)
        ensures
            final(out)@ == old(out)@ + self.spec_query(*q),
        decreases *self,
    {
        if !rt_intersects_rt(&self.rect, q) {
            proof {
                assert(out@ =~= old(out)@ + self.spec_query(*q));
            }
            return ;
        }
        let n = self.items.len();
        let mut i: usize = 0;
        while i < n
            invariant
                n == self.items@.len(),
                i <= n,
                out@ == old(out)@ + items_query(self.items@, *q, i as int),
            decreases n - i,
        {
            let ghost pre = out@;
            if rt_intersects_rt(&self.items[i].bounds, q) {
                out.push(self.items[i].id);
                proof {
                    assert(out@ =~= pre + seq![self.items@[i as int].id]);
                    assert(out@ =~= old(out)@ + items_query(self.items@, *q, i + 1));
                }
            } else {
                proof {
                    assert(out@ =~= old(out)@ + items_query(self.items@, *q, i + 1));
                }
            }
            i = i + 1;
        }
        let nk = self.kids.len();
        let mut k: usize = 0;
        while k < nk
            invariant
                n == self.items@.len(),
                nk == self.kids@.len(),
                k <= nk,
                out@ == old(out)@ + items_query(self.items@, *q, n as int) + kids_query(
                    self.kids@,
                    *q,
                    k as int,
                ),
            decreases nk - k,
        {
            let ghost pre = out@;
            proof {
                vstd::std_specs::vec::axiom_vec_index_decreases::<QtNode>(self.kids, k as int);
            }
            self.kids[k].query_into(q, out);
            proof {
                assert(out@ =~= old(out)@ + items_query(self.items@, *q, n as int) + kids_query(
                    self.kids@,
                    *q,
                    k + 1,
                ));
            }
            k = k + 1;
        }
        proof {
            assert(out@ =~= old(out)@ + self.spec_query(*q));
        }
    }

    /// Collect every entry of the subtree.
    pub fn all_entries_into(&self, out: &mut Vec<QtEntry>)
        ensures
            final(out)@ == old(out)@ + self.entries(),
        decreases *self,
    {
        let n = self.items.len();
        let mut i: usize = 0;
        while i < n
            invariant
                n == self.items@.len(),
                i <= n,
                out@ == old(out)@ + self.items@.take(i as int),
            decreases n - i,
        {
            let ghost pre = out@;
            out.push(self.items[i]);
            proof {
                assert(out@ =~= old(out)@ + self.items@.take(i + 1));
            }
            i = i + 1;
        }
        proof {
            assert(self.items@.take(n as int) =~= self.items@);
        }
        let nk = self.kids.len();
        let mut k: usize = 0;
        while k < nk
            invariant
                n == self.items@.len(),
                nk == self.kids@.len(),
                k <= nk,
                out@ == old(out)@ + self.items@ + kids_entries(self.kids@, k as int),
            decreases nk - k,
        {
            proof {
                vstd::std_specs::vec::axiom_vec_index_decreases::<QtNode>(self.kids, k as int);
            }
            self.kids[k].all_entries_into(out);
            proof {
                assert(out@ =~= old(out)@ + self.items@ + kids_entries(self.kids@, k + 1));
            }
            k = k + 1;
        }
        proof {
            assert(out@ =~= old(out)@ + self.entries());
        }
    }
}

/// Completeness: a query answers every stored id whose bounding rectangle
/// meets the query rectangle. (That it answers nothing else is immediate
/// from the query's functional contract.)
pub proof fn lemma_query_complete(n: QtNode, q: Rt)
    requires
        n.wf(),
    ensures
        forall|i: int|
            0 <= i < n.entries().len() && spec_rt_intersects_rt(
                (#[trigger] n.entries()[i]).bounds,
                q,
            ) ==> n.spec_query(q).contains(n.entries()[i].id),
    decreases n, 1int, 0int,
{
    lemma_items_query_complete(n.items@, q, n.items@.len() as int);
    lemma_kids_query_complete(n, q, n.kids@.len() as int);
    let ents = n.entries();
    let ans = n.spec_query(q);
    let ni = n.items@.len() as int;
    if !spec_rt_intersects_rt(n.rect, q) {
        // Nothing in the subtree can meet the query.
        assert forall|i: int|
            0 <= i < ents.len() && spec_rt_intersects_rt(
                (#[trigger] ents[i]).bounds,
                q,
            ) implies ans.contains(ents[i].id) by {
            lemma_entries_enclosed(n, i);
            assert(false);
        }
    } else {
        assert forall|i: int|
            0 <= i < ents.len() && spec_rt_intersects_rt(
                (#[trigger] ents[i]).bounds,
                q,
            ) implies ans.contains(ents[i].id) by {
            if i < ni {
                assert(items_query(n.items@, q, ni).contains(n.items@[i].id));
                let w = choose|w: int|
                    0 <= w < items_query(n.items@, q, ni).len() && items_query(n.items@, q, ni)[w]
                        == n.items@[i].id;
                assert(ans[w] == n.items@[i].id);
            } else {
                assert(kids_entries(n.kids@, n.kids@.len() as int)[i - ni] == ents[i]);
                assert(kids_query(n.kids@, q, n.kids@.len() as int).contains(ents[i].id));
                let w = choose|w: int|
                    0 <= w < kids_query(n.kids@, q, n.kids@.len() as int).len() && kids_query(
                        n.kids@,
                        q,
                        n.kids@.len() as int,
                    )[w] == ents[i].id;
                assert(ans[items_query(n.items@, q, ni).len() + w] == ents[i].id);
            }
        }
    }
}

/// Completeness of the flat item filter.
proof fn lemma_items_query_complete(items: Seq<QtEntry>, q: Rt, m: int)
    requires
        m <= items.len(),
    ensures
        forall|i: int|
            0 <= i < m && spec_rt_intersects_rt((#[trigger] items[i]).bounds, q) ==> items_query(
                items,
                q,
                m,
            ).contains(items[i].id),
    decreases m,
{
    if m > 0 {
        lemma_items_query_complete(items, q, m - 1);
        let pre = items_query(items, q, m - 1);
        let cur = items_query(items, q, m);
        assert forall|i: int|
            0 <= i < m && spec_rt_intersects_rt((#[trigger] items[i]).bounds, q) implies cur
            .contains(items[i].id) by {
            if i < m - 1 {
                let w = choose|w: int| 0 <= w < pre.len() && pre[w] == items[i].id;
                assert(cur[w] == items[i].id);
            } else {
                assert(cur[cur.len() - 1] == items[i].id);
            }
        }
    }
}

/// Completeness of the child walk.
proof fn lemma_kids_query_complete(n: QtNode, q: Rt, m: int)
    requires
        n.wf(),
        0 <= m <= n.kids@.len(),
    ensures
        forall|i: int|
            0 <= i < kids_entries(n.kids@, m).len() && spec_rt_intersects_rt(
                (#[trigger] kids_entries(n.kids@, m)[i]).bounds,
                q,
            ) ==> kids_query(n.kids@, q, m).contains(kids_entries(n.kids@, m)[i].id),
    decreases n, 0int, m,
{
    if m > 0 {
        lemma_kids_query_complete(n, q, m - 1);
        let kid = n.kids@[m - 1];
        proof_seq_dec(n, m - 1);
        lemma_query_complete(kid, q);
        let pre_e = kids_entries(n.kids@, m - 1);
        let pre_q = kids_query(n.kids@, q, m - 1);
        let cur_e = kids_entries(n.kids@, m);
        let cur_q = kids_query(n.kids@, q, m);
        assert forall|i: int|
            0 <= i < cur_e.len() && spec_rt_intersects_rt(
                (#[trigger] cur_e[i]).bounds,
                q,
            ) implies cur_q.contains(cur_e[i].id) by {
            if i < pre_e.len() {
                let w = choose|w: int| 0 <= w < pre_q.len() && pre_q[w] == pre_e[i].id;
                assert(cur_q[w] == cur_e[i].id);
            } else {
                assert(cur_e[i] == kid.entries()[i - pre_e.len()]);
                assert(kid.spec_query(q).contains(cur_e[i].id));
                let w = choose|w: int|
                    0 <= w < kid.spec_query(q).len() && kid.spec_query(q)[w] == cur_e[i].id;
                assert(cur_q[pre_q.len() + w] == cur_e[i].id);
            }
        }
    }
}

/// Height facts:/// Height facts: a child node is structurally smaller than its parent.
proof fn proof_seq_dec(n: QtNode, i: int)
    requires
        0 <= i < n.kids@.len(),
{
    vstd::std_specs::vec::axiom_vec_decreases_to_view::<QtNode>(n.kids);
    vstd::seq::axiom_seq_index_decreases::<QtNode>(n.kids@, i);
}

/// Entries of a well-formed subtree lie inside its rectangle.
proof fn lemma_entries_enclosed(n: QtNode, i: int)
    requires
        n.wf(),
        0 <= i < n.entries().len(),
    ensures
        n.rect.spec_encloses(n.entries()[i].bounds),
    decreases n, 1int, 0int,
{
    let ni = n.items@.len() as int;
    if i >= ni {
        lemma_kids_entries_enclosed(n, n.kids@.len() as int, i - ni);
    }
}

proof fn lemma_kids_entries_enclosed(n: QtNode, m: int, j: int)
    requires
        n.wf(),
        0 <= m <= n.kids@.len(),
        0 <= j < kids_entries(n.kids@, m).len(),
    ensures
        n.rect.spec_encloses(kids_entries(n.kids@, m)[j].bounds),
    decreases n, 0int, m,
{
    let pre = kids_entries(n.kids@, m - 1);
    if j < pre.len() {
        lemma_kids_entries_enclosed(n, m - 1, j);
    } else {
        let kid = n.kids@[m - 1];
        proof_seq_dec(n, m - 1);
        lemma_entries_enclosed_kid(kid, j - pre.len());
        assert(kids_entries(n.kids@, m)[j] == kid.entries()[j - pre.len()]);
    }
}

proof fn lemma_entries_enclosed_kid(n: QtNode, i: int)
    requires
        n.wf(),
        0 <= i < n.entries().len(),
    ensures
        n.rect.spec_encloses(n.entries()[i].bounds),
    decreases n, 1int, 1int,
{
    lemma_entries_enclosed(n, i);
}

/// Build a subtree over the given entries, splitting down to the given
/// depth. Every entry must lie inside the rectangle; the tree holds exactly
/// the given entries.
pub fn build(items: Vec<QtEntry>, rect: Rt, depth: u32) -> (r: QtNode)
    requires
        rect.wf(),
        forall|i: int|
            0 <= i < items@.len() ==> rect.spec_encloses((#[trigger] items@[i]).bounds)
                && items@[i].bounds.wf(),
    ensures
        r.wf(),
        r.rect == rect,
        r.entries().to_multiset() == items@.to_multiset(),
    decreases depth,
{
    if depth == 0 || items.len() <= SPLIT_THRESHOLD {
        let n = QtNode { rect, items, kids: Vec::new() };
        proof {
            assert(n.entries() =~= n.items@);
        }
        return n;
    }
    let cx: i64 = rect.x0 + (rect.x1 - rect.x0) / 2;
    let cy: i64 = rect.y0 + (rect.y1 - rect.y0) / 2;
    let q0 = rt(rect.x0, rect.y0, cx, cy);
    let q1 = rt(cx, rect.y0, rect.x1, cy);
    let q2 = rt(rect.x0, cy, cx, rect.y1);
    let q3 = rt(cx, cy, rect.x1, rect.y1);
    let mut stay: Vec<QtEntry> = Vec::new();
    let mut b0: Vec<QtEntry> = Vec::new();
    let mut b1: Vec<QtEntry> = Vec::new();
    let mut b2: Vec<QtEntry> = Vec::new();
    let mut b3: Vec<QtEntry> = Vec::new();
    let n = items.len();
    proof {
        assert(items@.take(0) =~= Seq::<QtEntry>::empty());
        stay@.to_multiset_ensures();
        b0@.to_multiset_ensures();
        b1@.to_multiset_ensures();
        b2@.to_multiset_ensures();
        b3@.to_multiset_ensures();
        items@.take(0).to_multiset_ensures();
        assert(stay@.to_multiset().add(b0@.to_multiset()).add(b1@.to_multiset()).add(
            b2@.to_multiset(),
        ).add(b3@.to_multiset()) =~= items@.take(0).to_multiset());
    }
    let mut i: usize = 0;
    while i < n
        invariant
            n == items@.len(),
            i <= n,
            rect.wf(),
            q0.wf() && q1.wf() && q2.wf() && q3.wf(),
            rect.spec_encloses(q0) && rect.spec_encloses(q1) && rect.spec_encloses(q2)
                && rect.spec_encloses(q3),
            forall|k: int|
                0 <= k < items@.len() ==> rect.spec_encloses((#[trigger] items@[k]).bounds)
                    && items@[k].bounds.wf(),
            forall|k: int|
                0 <= k < stay@.len() ==> rect.spec_encloses((#[trigger] stay@[k]).bounds)
                    && stay@[k].bounds.wf(),
            forall|k: int|
                0 <= k < b0@.len() ==> q0.spec_encloses((#[trigger] b0@[k]).bounds)
                    && b0@[k].bounds.wf(),
            forall|k: int|
                0 <= k < b1@.len() ==> q1.spec_encloses((#[trigger] b1@[k]).bounds)
                    && b1@[k].bounds.wf(),
            forall|k: int|
                0 <= k < b2@.len() ==> q2.spec_encloses((#[trigger] b2@[k]).bounds)
                    && b2@[k].bounds.wf(),
            forall|k: int|
                0 <= k < b3@.len() ==> q3.spec_encloses((#[trigger] b3@[k]).bounds)
                    && b3@[k].bounds.wf(),
            stay@.to_multiset().add(b0@.to_multiset()).add(b1@.to_multiset()).add(
                b2@.to_multiset(),
            ).add(b3@.to_multiset()) == items@.take(i as int).to_multiset(),
        decreases n - i,
    {
        let e = items[i];
        let ghost pre = items@.take(i as int);
        proof {
            pre.to_multiset_ensures();
            stay@.to_multiset_ensures();
            b0@.to_multiset_ensures();
            b1@.to_multiset_ensures();
            b2@.to_multiset_ensures();
            b3@.to_multiset_ensures();
            assert(items@.take(i + 1) =~= pre.push(items@[i as int]));
        }
        if q0.encloses(&e.bounds) {
            b0.push(e);
        } else if q1.encloses(&e.bounds) {
            b1.push(e);
        } else if q2.encloses(&e.bounds) {
            b2.push(e);
        } else if q3.encloses(&e.bounds) {
            b3.push(e);
        } else {
            stay.push(e);
        }
        proof {
            assert(stay@.to_multiset().add(b0@.to_multiset()).add(b1@.to_multiset()).add(
                b2@.to_multiset(),
            ).add(b3@.to_multiset()) =~= items@.take(i + 1).to_multiset());
        }
        i = i + 1;
    }
    proof {
        assert(items@.take(n as int) =~= items@);
    }
    let k0 = build(b0, q0, depth - 1);
    let k1 = build(b1, q1, depth - 1);
    let k2 = build(b2, q2, depth - 1);
    let k3 = build(b3, q3, depth - 1);
    let ghost m0 = k0.entries();
    let ghost m1 = k1.entries();
    let ghost m2 = k2.entries();
    let ghost m3 = k3.entries();
    let mut kids: Vec<QtNode> = Vec::new();
    kids.push(k0);
    kids.push(k1);
    kids.push(k2);
    kids.push(k3);
    let node = QtNode { rect, items: stay, kids };
    proof {
        assert(kids_entries(node.kids@, 0) =~= Seq::<QtEntry>::empty());
        assert(node.kids@[0] == k0 && node.kids@[1] == k1 && node.kids@[2] == k2 && node.kids@[3]
            == k3);
        assert(kids_entries(node.kids@, 1) =~= m0);
        assert(kids_entries(node.kids@, 2) =~= m0 + m1);
        assert(kids_entries(node.kids@, 3) =~= m0 + m1 + m2);
        assert(kids_entries(node.kids@, 4) =~= m0 + m1 + m2 + m3);
        assert(node.entries() =~= node.items@ + (m0 + m1 + m2 + m3));
        lemma_multiset_commutative(node.items@, m0 + m1 + m2 + m3);
        lemma_multiset_commutative(m0, m1);
        lemma_multiset_commutative(m0 + m1, m2);
        lemma_multiset_commutative(m0 + m1 + m2, m3);
        assert(node.entries().to_multiset() =~= items@.to_multiset());
    }
    node
}

/// One quadtree per layer: the index the router consults.
pub struct SpatialIndex {
    pub trees: Vec<QtNode>,
}

impl SpatialIndex {
    pub open spec fn wf(self) -> bool {
        forall|i: int| 0 <= i < self.trees@.len() ==> (#[trigger] self.trees@[i]).wf()
    }

    /// Bulk-build one tree per layer over the board rectangle.
    pub fn build_layers(per_layer: Vec<Vec<QtEntry>>, rect: Rt) -> (r: Result<SpatialIndex, ()>)
        requires
            rect.wf(),
        ensures
            match r {
                Ok(s) => s.wf() && s.trees@.len() == per_layer@.len(),
                Err(_) => true,
            },
    {
        let mut trees: Vec<QtNode> = Vec::new();
        let nl = per_layer.len();
        let mut l: usize = 0;
        let mut src = per_layer;
        while l < nl
            invariant
                src@.len() + l == nl,
                trees@.len() == l,
                rect.wf(),
                forall|i: int| 0 <= i < trees@.len() ==> (#[trigger] trees@[i]).wf(),
            decreases nl - l,
        {
            let items = src.remove(0);
            // Every entry must fit the board rectangle.
            let n = items.len();
            let mut i: usize = 0;
            while i < n
                invariant
                    n == items@.len(),
                    i <= n,
                    rect.wf(),
                    forall|k: int|
                        0 <= k < i ==> rect.spec_encloses((#[trigger] items@[k]).bounds)
                            && items@[k].bounds.wf(),
                decreases n - i,
            {
                let b = items[i].bounds;
                if !(rect.x0 <= b.x0 && b.x1 <= rect.x1 && rect.y0 <= b.y0 && b.y1 <= rect.y1
                    && b.x0 <= b.x1 && b.y0 <= b.y1) {
                    return Err(());
                }
                i = i + 1;
            }
            trees.push(build(items, rect, MAX_DEPTH));
            l = l + 1;
        }
        Ok(SpatialIndex { trees })
    }

    /// The ids on a layer whose bounds meet the query rectangle.
    pub fn query(&self, layer: usize, q: &Rt) -> (r: Vec<u64>)
        requires
            layer < self.trees@.len(),
        ensures
            r@ == self.trees@[layer as int].spec_query(*q),
    {
        let mut out: Vec<u64> = Vec::new();
        self.trees[layer].query_into(q, &mut out);
        proof {
            assert(out@ =~= self.trees@[layer as int].spec_query(*q));
        }
        out
    }

    /// Remove an id from a layer by rebuilding that layer's tree.
    pub fn remove(&mut self, layer: usize, id: u64)
        requires
            layer < old(self).trees@.len(),
            old(self).wf(),
        ensures
            final(self).wf(),
            final(self).trees@.len() == old(self).trees@.len(),
            forall|i: int|
                0 <= i < final(self).trees@[layer as int].entries().len() ==> (
                #[trigger] final(self).trees@[layer as int].entries()[i]).id != id,
    {
        let mut all: Vec<QtEntry> = Vec::new();
        self.trees[layer].all_entries_into(&mut all);
        let rect = self.trees[layer].rect;
        proof {
            lemma_all_enclosed(self.trees@[layer as int]);
        }
        let mut keep: Vec<QtEntry> = Vec::new();
        let n = all.len();
        let mut i: usize = 0;
        while i < n
            invariant
                n == all@.len(),
                i <= n,
                rect.wf(),
                forall|k: int|
                    0 <= k < all@.len() ==> rect.spec_encloses((#[trigger] all@[k]).bounds)
                        && all@[k].bounds.wf(),
                forall|k: int|
                    0 <= k < keep@.len() ==> rect.spec_encloses((#[trigger] keep@[k]).bounds)
                        && keep@[k].bounds.wf() && keep@[k].id != id,
            decreases n - i,
        {
            if all[i].id != id {
                keep.push(all[i]);
            }
            i = i + 1;
        }
        let ghost kept = keep@;
        let fresh = build(keep, rect, MAX_DEPTH);
        proof {
            fresh.entries().to_multiset_ensures();
            kept.to_multiset_ensures();
            assert forall|i2: int|
                0 <= i2 < fresh.entries().len() implies (#[trigger] fresh.entries()[i2]).id
                != id by {
                assert(fresh.entries().to_multiset().count(fresh.entries()[i2]) > 0);
                assert(kept.contains(fresh.entries()[i2]));
            }
        }
        self.trees.set(layer, fresh);
    }
}

/// All entries of a well-formed tree fit its rectangle (helper for the
/// rebuild).
proof fn lemma_all_enclosed(n: QtNode)
    requires
        n.wf(),
    ensures
        forall|i: int|
            0 <= i < n.entries().len() ==> n.rect.spec_encloses(
                (#[trigger] n.entries()[i]).bounds,
            ) && (#[trigger] n.entries()[i]).bounds.wf(),
{
    assert forall|i: int| 0 <= i < n.entries().len() implies n.rect.spec_encloses(
        (#[trigger] n.entries()[i]).bounds,
    ) && n.entries()[i].bounds.wf() by {
        lemma_entries_enclosed(n, i);
        lemma_entries_wf(n, i);
    }
}

proof fn lemma_entries_wf(n: QtNode, i: int)
    requires
        n.wf(),
        0 <= i < n.entries().len(),
    ensures
        n.entries()[i].bounds.wf(),
    decreases n, 1int, 0int,
{
    let ni = n.items@.len() as int;
    if i >= ni {
        lemma_kids_entries_wf(n, n.kids@.len() as int, i - ni);
    }
}

proof fn lemma_kids_entries_wf(n: QtNode, m: int, j: int)
    requires
        n.wf(),
        0 <= m <= n.kids@.len(),
        0 <= j < kids_entries(n.kids@, m).len(),
    ensures
        kids_entries(n.kids@, m)[j].bounds.wf(),
    decreases n, 0int, m,
{
    let pre = kids_entries(n.kids@, m - 1);
    if j < pre.len() {
        lemma_kids_entries_wf(n, m - 1, j);
    } else {
        let kid = n.kids@[m - 1];
        proof_seq_dec(n, m - 1);
        lemma_entries_wf_kid(kid, j - pre.len());
        assert(kids_entries(n.kids@, m)[j] == kid.entries()[j - pre.len()]);
    }
}

proof fn lemma_entries_wf_kid(n: QtNode, i: int)
    requires
        n.wf(),
        0 <= i < n.entries().len(),
    ensures
        n.entries()[i].bounds.wf(),
    decreases n, 1int, 1int,
{
    lemma_entries_wf(n, i);
}

} // verus!
