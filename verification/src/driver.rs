//! The net-order driver: a generational evolutionary search over
//! permutations of the net ids, evaluating each ordering by routing it and
//! keeping the cheapest result found.
//!
//! The search is elitist: the best orderings of a generation carry over, the
//! rest are bred by permutation-preserving crossover and mutation.
//! Duplicates are perturbed, and the search stops early when the best cost
//! stagnates.

use rand::Rng;
use rand::SeedableRng;
use vstd::prelude::*;

verus! {

use crate::router::{Router, RouteResult, RouteError, route_cost, spec_route_cost, spec_net_ids};
use crate::perm::{
    same_elems, swap_at, crossover_pmx, crossover_order, crossover_cycle, mutate_swap,
    mutate_insert, mutate_inversion,
};
use crate::primitive::clone_copy_vec;

#[verifier::external_type_specification]
#[verifier::external_body]
pub struct ExStdRng(rand::rngs::StdRng);

/// Relies on rand's `StdRng::seed_from_u64`: builds a generator from a seed;
/// nothing is assumed of the values it will produce.
#[verifier::external_body]
fn rng_from_seed(seed: u64) -> (r: rand::rngs::StdRng) {
    rand::rngs::StdRng::seed_from_u64(seed)
}

/// Relies on rand's `Rng::gen_range` over `0..n`, which is defined and
/// panic-free for a non-empty range and returns a value in it.
#[verifier::external_body]
fn rng_below(rng: &mut rand::rngs::StdRng, n: u64) -> (r: u64)
    requires
        n > 0,
    ensures
        r < n,
{
    rng.gen_range(0..n)
}

/// Fisher-Yates shuffle: the result is a rearrangement of the same ids.
fn shuffle(rng: &mut rand::rngs::StdRng, v: &mut Vec<u64>)
    ensures
        crate::perm::perm_of(final(v)@, old(v)@),
        same_elems(final(v)@, old(v)@),
{
    let n = v.len();
    let mut i: usize = 0;
    while i < n
        invariant
            n == v@.len(),
            i <= n,
            crate::perm::perm_of(v@, old(v)@),
        decreases n - i,
    {
        let r = rng_below(rng, (n - i) as u64) as usize;
        swap_at(v, i, i + r);
        i = i + 1;
    }
    proof {
        crate::perm::lemma_perm_same_elems(v@, old(v)@);
    }
}

/// Scramble the inclusive range `st..=en` by random swaps: a rearrangement
/// of the same ids.
fn mutate_scramble(rng: &mut rand::rngs::StdRng, v: &mut Vec<u64>, st: usize, en: usize)
    requires
        st <= en < old(v)@.len(),
    ensures
        crate::perm::perm_of(final(v)@, old(v)@),
        same_elems(final(v)@, old(v)@),
{
    let vn = v.len();
    let mut i: usize = st;
    while i < en
        invariant
            st <= i <= en,
            en < vn,
            vn == v@.len(),
            v@.len() == old(v)@.len(),
            crate::perm::perm_of(v@, old(v)@),
        decreases en - i,
    {
        let r = rng_below(rng, (en + 1 - i) as u64) as usize;
        swap_at(v, i, i + r);
        i = i + 1;
    }
    proof {
        crate::perm::lemma_perm_same_elems(v@, old(v)@);
    }
}

/// Exact equality of two id vectors.
fn vec_eq(a: &Vec<u64>, b: &Vec<u64>) -> (r: bool)
    ensures
        r == (a@ == b@),
{
    let n = a.len();
    if n != b.len() {
        return false;
    }
    let mut i: usize = 0;
    while i < n
        invariant
            n == a@.len(),
            n == b@.len(),
            i <= n,
            forall|k: int| 0 <= k < i ==> a@[k] == b@[k],
        decreases n - i,
    {
        if a[i] != b[i] {
            return false;
        }
        i = i + 1;
    }
    proof {
        assert(a@ =~= b@);
    }
    true
}

/// Lexicographic order on id vectors, used to break cost ties
/// deterministically.
pub open spec fn spec_lex_less_from(a: Seq<u64>, b: Seq<u64>, i: int) -> bool
    decreases a.len() - i,
{
    if i >= a.len() || i >= b.len() {
        a.len() < b.len()
    } else if a[i] < b[i] {
        true
    } else if a[i] > b[i] {
        false
    } else {
        spec_lex_less_from(a, b, i + 1)
    }
}

fn lex_less(a: &Vec<u64>, b: &Vec<u64>) -> (r: bool)
    ensures
        r == spec_lex_less_from(a@, b@, 0),
{
    let na = a.len();
    let nb = b.len();
    let mut i: usize = 0;
    while i < na && i < nb
        invariant
            na == a@.len(),
            nb == b@.len(),
            i <= na,
            i <= nb,
            spec_lex_less_from(a@, b@, 0) == spec_lex_less_from(a@, b@, i as int),
        decreases na - i,
    {
        if a[i] < b[i] {
            return true;
        }
        if a[i] > b[i] {
            return false;
        }
        i = i + 1;
    }
    na < nb
}

/// Search parameters: population size, generation count, mutation
/// probability in thousandths, the stagnation window, and the seed.
#[derive(Clone, Copy, Debug)]
pub struct DriverCfg {
    pub population: usize,
    pub generations: usize,
    pub mutation_per_mille: u64,
    pub stagnation: usize,
    pub seed: u64,
}

impl DriverCfg {
    /// The default search: a population of 32, mutation at one in two, and
    /// early stop after 200 stagnant generations.
    pub fn new(generations: usize, seed: u64) -> (r: DriverCfg)
        ensures
            r.population == 32,
            r.generations == generations,
            r.mutation_per_mille == 500,
            r.stagnation == 200,
            r.seed == seed,
    {
        DriverCfg {
            population: 32,
            generations,
            mutation_per_mille: 500,
            stagnation: 200,
            seed,
        }
    }
}

/// One routed ordering and its cost.
pub struct Eval {
    pub order: Vec<u64>,
    pub cost: u64,
}

/// What the search found: the best ordering, its cost, the routing result
/// it produced, and every ordering evaluated along the way with its cost.
pub struct DriverResult {
    pub best_order: Vec<u64>,
    pub best_cost: u64,
    pub result: RouteResult,
    pub evals: Vec<Eval>,
}

/// The evolutionary net-order search over a board.
pub struct Driver {
    pub router: Router,
    pub cfg: DriverCfg,
}

impl Driver {
    pub open spec fn wf(self) -> bool {
        self.router.wf()
    }

    pub fn new(router: Router, cfg: DriverCfg) -> (r: Driver)
        ensures
            r.router == router,
            r.cfg == cfg,
    {
        Driver { router, cfg }
    }

    /// Run the search. It succeeds exactly when the board validates and can
    /// be discretized — the board alone decides, never a random draw. On
    /// success the sorted baseline ordering is the first evaluation, the
    /// cost of every evaluated ordering is no smaller than the best cost,
    /// the best ordering is among those evaluated, and every evaluated
    /// ordering is a rearrangement of the board's net ids.
    pub fn run(&self) -> (r: Result<DriverResult, RouteError>)
        requires
            self.wf(),
        ensures
            r.is_ok() == (self.router.pcb.spec_board_valid() && crate::grid::spec_can_build(
                self.router.pcb,
            )),
            match r {
                Ok(d) => {
                    &&& d.evals@.len() >= 1
                    &&& crate::router::sorted(d.evals@[0].order@)
                    &&& d.evals@[0].order@.to_multiset() == spec_net_ids(
                        self.router.pcb,
                    ).to_multiset()
                    &&& forall|i: int|
                        0 <= i < d.evals@.len() ==> d.best_cost <= (#[trigger] d.evals@[i]).cost
                    &&& exists|i: int|
                        0 <= i < d.evals@.len() && (#[trigger] d.evals@[i]).cost == d.best_cost
                    &&& d.best_cost as int == spec_route_cost(d.result)
                    &&& forall|i: int|
                        0 <= i < d.evals@.len() ==> same_elems(
                            (#[trigger] d.evals@[i]).order@,
                            spec_net_ids(self.router.pcb),
                        )
                    &&& same_elems(d.best_order@, spec_net_ids(self.router.pcb))
                },
                Err(e) => e == RouteError::InvalidBoard,
            },
    {
        let base = self.router.rand_net_order();
        proof {
            base@.to_multiset_ensures();
            spec_net_ids(self.router.pcb).to_multiset_ensures();
            assert forall|x: u64|
                base@.contains(x) <==> spec_net_ids(self.router.pcb).contains(x) by {
                assert(base@.contains(x) <==> base@.to_multiset().count(x) > 0);
                assert(spec_net_ids(self.router.pcb).contains(x) <==> spec_net_ids(
                    self.router.pcb,
                ).to_multiset().count(x) > 0);
            }
            assert(same_elems(base@, spec_net_ids(self.router.pcb)));
        }
        let mut rng = rng_from_seed(self.cfg.seed);
        let n = base.len();
        // Evaluate the deterministic base ordering first; whether it routes
        // at all is decided by the board alone.
        let r0 = match self.router.route(clone_copy_vec(&base)) {
            Ok(r0) => r0,
            Err(e) => {
                return Err(e);
            },
        };
        proof {
            assert(self.router.pcb.spec_board_valid() && crate::grid::spec_can_build(
                self.router.pcb,
            ));
        }
        let c0 = route_cost(&r0);
        let mut evals: Vec<Eval> = Vec::new();
        evals.push(Eval { order: clone_copy_vec(&base), cost: c0 });
        let mut best_order = clone_copy_vec(&base);
        let mut best_cost = c0;
        let mut best_res = r0;
        proof {
            assert(evals@[0].cost == best_cost);
        }
        // The initial population: the base ordering plus random shuffles.
        let pop_target: usize = if self.cfg.population < 2 {
            2
        } else {
            self.cfg.population
        };
        let mut pop: Vec<Vec<u64>> = Vec::new();
        pop.push(clone_copy_vec(&base));
        while pop.len() < pop_target
            invariant
                same_elems(base@, spec_net_ids(self.router.pcb)),
                1 <= pop@.len(),
                forall|k: int| 0 <= k < pop@.len() ==> same_elems((#[trigger] pop@[k])@, base@),
            decreases pop_target - pop@.len(),
        {
            let mut c = clone_copy_vec(&base);
            shuffle(&mut rng, &mut c);
            pop.push(c);
        }
        // Which crossover bred each member, and how often each crossover has
        // improved on the best: the adaptive operator choice leans on it.
        let mut opof: Vec<u64> = Vec::new();
        while opof.len() < pop.len()
            invariant
                opof@.len() <= pop@.len(),
                forall|k: int| 0 <= k < opof@.len() ==> #[trigger] opof@[k] < 4,
            decreases pop@.len() - opof@.len(),
        {
            opof.push(0);
        }
        let mut score: Vec<u64> = Vec::new();
        score.push(0);
        score.push(0);
        score.push(0);
        score.push(0);
        let mut stagnant: usize = 0;
        let mut gen: usize = 0;
        while gen < self.cfg.generations && stagnant < self.cfg.stagnation
            invariant
                self.wf(),
                self.router.pcb.spec_board_valid() && crate::grid::spec_can_build(
                    self.router.pcb,
                ),
                same_elems(base@, spec_net_ids(self.router.pcb)),
                crate::router::sorted(base@),
                base@.to_multiset() == spec_net_ids(self.router.pcb).to_multiset(),
                evals@.len() >= 1,
                evals@[0].order@ == base@,
                score@.len() == 4,
                opof@.len() == pop@.len(),
                forall|k: int| 0 <= k < opof@.len() ==> #[trigger] opof@[k] < 4,
                2 <= pop@.len(),
                forall|k: int| 0 <= k < pop@.len() ==> same_elems((#[trigger] pop@[k])@, base@),
                evals@.len() >= 1,
                forall|i: int| 0 <= i < evals@.len() ==> best_cost <= (#[trigger] evals@[i]).cost,
                exists|i: int|
                    0 <= i < evals@.len() && (#[trigger] evals@[i]).cost == best_cost,
                best_cost as int == spec_route_cost(best_res),
                forall|i: int|
                    0 <= i < evals@.len() ==> same_elems(
                        (#[trigger] evals@[i]).order@,
                        spec_net_ids(self.router.pcb),
                    ),
                same_elems(best_order@, spec_net_ids(self.router.pcb)),
            decreases self.cfg.generations - gen,
        {
            // Evaluate the population; fitness values attach to members by
            // position.
            let pn = pop.len();
            let mut costs: Vec<u64> = Vec::new();
            let mut m: usize = 0;
            let mut improved = false;
            while m < pn
                invariant
                    self.wf(),
                    self.router.pcb.spec_board_valid() && crate::grid::spec_can_build(
                        self.router.pcb,
                    ),
                    same_elems(base@, spec_net_ids(self.router.pcb)),
                    pn == pop@.len(),
                    evals@.len() >= 1,
                    evals@[0].order@ == base@,
                    score@.len() == 4,
                    opof@.len() == pop@.len(),
                    forall|k: int| 0 <= k < opof@.len() ==> #[trigger] opof@[k] < 4,
                    m <= pn,
                    costs@.len() == m,
                    forall|k: int| 0 <= k < pop@.len() ==> same_elems((#[trigger] pop@[k])@, base@),
                    forall|i: int|
                        0 <= i < evals@.len() ==> best_cost <= (#[trigger] evals@[i]).cost,
                    exists|i: int|
                        0 <= i < evals@.len() && (#[trigger] evals@[i]).cost == best_cost,
                    best_cost as int == spec_route_cost(best_res),
                    forall|i: int|
                        0 <= i < evals@.len() ==> same_elems(
                            (#[trigger] evals@[i]).order@,
                            spec_net_ids(self.router.pcb),
                        ),
                    same_elems(best_order@, spec_net_ids(self.router.pcb)),
                decreases pn - m,
            {
                let order = clone_copy_vec(&pop[m]);
                let res = match self.router.route(clone_copy_vec(&order)) {
                    Ok(res) => res,
                    Err(e) => {
                        // The board decided success above, so this arm
                        // cannot be reached.
                        proof {
                            assert(false);
                        }
                        return Err(e);
                    },
                };
                let cost = route_cost(&res);
                let ghost pre_evals = evals@;
                let ghost pre_best = best_cost;
                evals.push(Eval { order, cost });
                if cost < best_cost || (cost == best_cost && lex_less(&pop[m], &best_order)) {
                    if cost < best_cost {
                        improved = true;
                        // Credit the crossover that bred the improvement.
                        let op = opof[m] as usize;
                        if score[op] < u64::MAX {
                            score.set(op, score[op] + 1);
                        }
                    }
                    best_cost = cost;
                    best_res = res;
                    best_order = clone_copy_vec(&pop[m]);
                }
                proof {
                    assert(evals@.len() == pre_evals.len() + 1);
                    if best_cost == cost {
                        assert(evals@[evals@.len() - 1].cost == best_cost);
                    } else {
                        let w = choose|i: int|
                            0 <= i < pre_evals.len() && (#[trigger] pre_evals[i]).cost
                                == pre_best;
                        assert(evals@[w] == pre_evals[w]);
                        assert(evals@[w].cost == best_cost);
                    }
                }
                costs.push(cost);
                m = m + 1;
            }
            if improved {
                stagnant = 0;
            } else {
                stagnant = stagnant + 1;
            }
            // Breed the next generation: the better half carries over, the
            // rest are children of tournament-selected parents.
            if n > 0 {
                let keep = pn / 2;
                let mut newpop: Vec<Vec<u64>> = Vec::new();
                let mut newops: Vec<u64> = Vec::new();
                // Carry the better half over, cheapest first.
                let mut taken: Vec<bool> = Vec::new();
                let mut z: usize = 0;
                while z < pn
                    invariant
                        taken@.len() == z,
                        z <= pn,
                    decreases pn - z,
                {
                    taken.push(false);
                    z = z + 1;
                }
                let mut e: usize = 0;
                while e < keep
                    invariant
                        pn == pop@.len(),
                        pn == costs@.len(),
                        taken@.len() == pn,
                        keep <= pn,
                        e <= keep,
                        newpop@.len() == e,
                        newops@.len() == newpop@.len(),
                        forall|k: int| 0 <= k < newops@.len() ==> #[trigger] newops@[k] < 4,
                        forall|k: int|
                            0 <= k < pop@.len() ==> same_elems((#[trigger] pop@[k])@, base@),
                        forall|k: int|
                            0 <= k < newpop@.len() ==> same_elems((#[trigger] newpop@[k])@, base@),
                    decreases keep - e,
                {
                    let mut bi: usize = pn;
                    let mut bc: u64 = u64::MAX;
                    let mut t: usize = 0;
                    while t < pn
                        invariant
                            pn == pop@.len(),
                            pn == costs@.len(),
                            taken@.len() == pn,
                            t <= pn,
                            bi <= pn,
                        decreases pn - t,
                    {
                        if !taken[t] && (bi == pn || costs[t] < bc) {
                            bi = t;
                            bc = costs[t];
                        }
                        t = t + 1;
                    }
                    if bi == pn {
                        break ;
                    }
                    taken.set(bi, true);
                    newpop.push(clone_copy_vec(&pop[bi]));
                    newops.push(0);
                    e = e + 1;
                }
                // Children fill the rest.
                while newpop.len() < pn
                    invariant
                        self.wf(),
                        pn == pop@.len(),
                        pn == costs@.len(),
                        pn >= 2,
                        n > 0,
                        score@.len() == 4,
                        newops@.len() == newpop@.len(),
                        forall|k: int| 0 <= k < newops@.len() ==> #[trigger] newops@[k] < 4,
                        forall|k: int|
                            0 <= k < pop@.len() ==> same_elems((#[trigger] pop@[k])@, base@),
                        forall|k: int|
                            0 <= k < newpop@.len() ==> same_elems((#[trigger] newpop@[k])@, base@),
                    decreases pn - newpop@.len(),
                {
                    // Two tournaments of two pick the parents.
                    let a1 = rng_below(&mut rng, pn as u64) as usize;
                    let a2 = rng_below(&mut rng, pn as u64) as usize;
                    let p1 = if costs[a1] <= costs[a2] {
                        a1
                    } else {
                        a2
                    };
                    let b1 = rng_below(&mut rng, pn as u64) as usize;
                    let b2 = rng_below(&mut rng, pn as u64) as usize;
                    let p2 = if costs[b1] <= costs[b2] {
                        b1
                    } else {
                        b2
                    };
                    let mut child = clone_copy_vec(&pop[p1]);
                    let mut mate = clone_copy_vec(&pop[p2]);
                    let clen = child.len();
                    let mlen = mate.len();
                    // Crossover: half the time the operator with the best
                    // improvement record, else an exploratory uniform pick.
                    let op = if rng_below(&mut rng, 2) == 0 {
                        let mut bop: u64 = 0;
                        let mut t: usize = 1;
                        while t < 4
                            invariant
                                score@.len() == 4,
                                t <= 4,
                                bop < 4,
                            decreases 4 - t,
                        {
                            if score[t] > score[bop as usize] {
                                bop = t as u64;
                            }
                            t = t + 1;
                        }
                        bop
                    } else {
                        rng_below(&mut rng, 4)
                    };
                    if clen == mlen && clen > 0 {
                        let st = rng_below(&mut rng, clen as u64) as usize;
                        let en = st + rng_below(&mut rng, (clen - st) as u64) as usize;
                        if op == 1 {
                            crossover_pmx(&mut child, &mut mate, st, en);
                        } else if op == 2 {
                            crossover_order(&mut child, &mate, st, en);
                        } else if op == 3 {
                            crossover_cycle(&mut child, &mut mate, st);
                        }
                    }
                    // Mutation, applied with the configured probability.
                    let clen2 = child.len();
                    if clen2 > 0 && rng_below(&mut rng, 1000) < self.cfg.mutation_per_mille {
                        let mop = rng_below(&mut rng, 4);
                        let st = rng_below(&mut rng, clen2 as u64) as usize;
                        let en = st + rng_below(&mut rng, (clen2 - st) as u64) as usize;
                        if mop == 0 {
                            mutate_swap(&mut child, st, en);
                        } else if mop == 1 {
                            mutate_insert(&mut child, st, en);
                        } else if mop == 2 {
                            mutate_scramble(&mut rng, &mut child, st, en);
                        } else {
                            mutate_inversion(&mut child, st, en);
                        }
                    }
                    // Duplicates are perturbed once rather than kept.
                    let mut dup = false;
                    let mut d: usize = 0;
                    let nnew = newpop.len();
                    while d < nnew
                        invariant
                            nnew == newpop@.len(),
                            d <= nnew,
                        decreases nnew - d,
                    {
                        if vec_eq(&newpop[d], &child) {
                            dup = true;
                        }
                        d = d + 1;
                    }
                    let clen3 = child.len();
                    if dup && clen3 > 1 {
                        let i1 = rng_below(&mut rng, clen3 as u64) as usize;
                        let i2 = rng_below(&mut rng, clen3 as u64) as usize;
                        mutate_swap(&mut child, i1, i2);
                    }
                    newpop.push(child);
                    newops.push(op % 4);
                }
                if newpop.len() >= 2 {
                    pop = newpop;
                    opof = newops;
                }
            }
            gen = gen + 1;
        }
        Ok(DriverResult { best_order, best_cost, result: best_res, evals })
    }
}

} // verus!
