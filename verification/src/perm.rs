//! Permutation-preserving operators over net orderings: the crossover and
//! mutation operators of the evolutionary net-order search, and the
//! Kendall-tau distance between orderings.
//!
//! Every operator rearranges in place by swaps, so each ensures that the
//! multiset of ids is unchanged — the ordering stays a permutation of the
//! same ids — and the simple mutations state their exact effect.

use vstd::prelude::*;

verus! {

use vstd::pervasive::VecAdditionalExecFns;
use vstd::seq_lib::lemma_multiset_commutative;

/// `a` is a rearrangement of `b`: the same ids, with multiplicity.
pub open spec fn perm_of(a: Seq<u64>, b: Seq<u64>) -> bool {
    a.to_multiset() == b.to_multiset()
}

/// `a` and `b` have the same length and exactly the same values.
pub open spec fn same_elems(a: Seq<u64>, b: Seq<u64>) -> bool {
    &&& a.len() == b.len()
    &&& forall|x: u64| a.contains(x) <==> b.contains(x)
}

/// A rearrangement has the same length and exactly the same values.
pub proof fn lemma_perm_same_elems(a: Seq<u64>, b: Seq<u64>)
    requires
        perm_of(a, b),
    ensures
        same_elems(a, b),
{
    a.to_multiset_ensures();
    b.to_multiset_ensures();
    assert forall|x: u64| a.contains(x) <==> b.contains(x) by {
        assert(a.contains(x) <==> a.to_multiset().count(x) > 0);
        assert(b.contains(x) <==> b.to_multiset().count(x) > 0);
    }
}

/// Swapping two positions of a sequence keeps its multiset.
pub proof fn lemma_swap_multiset(s: Seq<u64>, i: int, j: int)
    requires
        0 <= i < s.len(),
        0 <= j < s.len(),
    ensures
        s.update(i, s[j]).update(j, s[i]).to_multiset() == s.to_multiset(),
{
    let sw = s.update(i, s[j]).update(j, s[i]);
    if i == j {
        assert(sw =~= s);
    } else {
        let a = if i < j {
            i
        } else {
            j
        };
        let b = if i < j {
            j
        } else {
            i
        };
        let p1 = s.subrange(0, a);
        let p2 = s.subrange(a + 1, b);
        let p3 = s.subrange(b + 1, s.len() as int);
        let sa = seq![s[a]];
        let sb = seq![s[b]];
        assert(s =~= p1 + sa + p2 + sb + p3);
        assert(sw =~= p1 + sb + p2 + sa + p3);
        lemma_concat5_multiset(p1, sa, p2, sb, p3);
        lemma_concat5_multiset(p1, sb, p2, sa, p3);
        assert(s.to_multiset() =~= sw.to_multiset());
    }
}

/// The multiset of a five-part concatenation is the sum of the parts'.
proof fn lemma_concat5_multiset(
    p1: Seq<u64>,
    p2: Seq<u64>,
    p3: Seq<u64>,
    p4: Seq<u64>,
    p5: Seq<u64>,
)
    ensures
        (p1 + p2 + p3 + p4 + p5).to_multiset() == p1.to_multiset().add(p2.to_multiset()).add(
            p3.to_multiset(),
        ).add(p4.to_multiset()).add(p5.to_multiset()),
{
    lemma_multiset_commutative(p1, p2);
    lemma_multiset_commutative(p1 + p2, p3);
    lemma_multiset_commutative(p1 + p2 + p3, p4);
    lemma_multiset_commutative(p1 + p2 + p3 + p4, p5);
}

/// Swap two positions.
pub fn swap_at(v: &mut Vec<u64>, i: usize, j: usize)
    requires
        i < old(v)@.len(),
        j < old(v)@.len(),
    ensures
        final(v)@.len() == old(v)@.len(),
        final(v)@[i as int] == old(v)@[j as int],
        final(v)@[j as int] == old(v)@[i as int],
        forall|k: int|
            0 <= k < old(v)@.len() && k != i && k != j ==> final(v)@[k] == old(v)@[k],
        perm_of(final(v)@, old(v)@),
        same_elems(final(v)@, old(v)@),
{
    let a = v[i];
    let b = v[j];
    v.set(i, b);
    v.set(j, a);
    proof {
        lemma_swap_multiset(old(v)@, i as int, j as int);
        assert(v@ =~= old(v)@.update(i as int, old(v)@[j as int]).update(
            j as int,
            old(v)@[i as int],
        ));
        lemma_perm_same_elems(v@, old(v)@);
    }
}

/// The first position holding the value, if any.
pub fn find_index(v: &Vec<u64>, x: u64) -> (r: Option<usize>)
    ensures
        match r {
            Some(i) => i < v@.len() && v@[i as int] == x,
            None => !v@.contains(x),
        },
{
    let n = v.len();
    let mut i: usize = 0;
    while i < n
        invariant
            n == v@.len(),
            i <= n,
            forall|k: int| 0 <= k < i ==> v@[k] != x,
        decreases n - i,
    {
        if v[i] == x {
            return Some(i);
        }
        i = i + 1;
    }
    None
}

/// The first position outside the inclusive range `st..=en` holding the
/// value, if any.
fn find_index_excluding(v: &Vec<u64>, x: u64, st: usize, en: usize) -> (r: Option<usize>)
    ensures
        match r {
            Some(i) => i < v@.len() && v@[i as int] == x && !(st <= i <= en),
            None => true,
        },
{
    let n = v.len();
    let mut i: usize = 0;
    while i < n
        invariant
            n == v@.len(),
            i <= n,
        decreases n - i,
    {
        if (i < st || i > en) && v[i] == x {
            return Some(i);
        }
        i = i + 1;
    }
    None
}

/// The two orderings are permutations of the same distinct ids.
pub open spec fn distinct_perms(a: Seq<u64>, b: Seq<u64>) -> bool {
    &&& nodup_ids(a)
    &&& nodup_ids(b)
    &&& same_elems(a, b)
}

/// No id occurs twice.
pub open spec fn nodup_ids(s: Seq<u64>) -> bool {
    forall|i: int, j: int| 0 <= i < j < s.len() ==> s[i] != s[j]
}

/// Partially mapped crossover over the inclusive range `st..=en`: each
/// ordering receives the other's values on the range, conflicts resolved by
/// swapping within the ordering, so each stays a rearrangement of itself.
/// For permutations of the same distinct ids, the range exactly receives the
/// other ordering's values.
pub fn crossover_pmx(s1: &mut Vec<u64>, s2: &mut Vec<u64>, st: usize, en: usize)
    requires
        st <= en < old(s1)@.len(),
        old(s1)@.len() == old(s2)@.len(),
    ensures
        perm_of(final(s1)@, old(s1)@),
        perm_of(final(s2)@, old(s2)@),
        same_elems(final(s1)@, old(s1)@),
        same_elems(final(s2)@, old(s2)@),
        distinct_perms(old(s1)@, old(s2)@) ==> forall|k: int|
            st <= k <= en ==> final(s1)@[k] == old(s2)@[k] && final(s2)@[k] == old(s1)@[k],
{
    let ghost cond = distinct_perms(old(s1)@, old(s2)@);
    let n1: usize = s1.len();
    let mut seg: Vec<u64> = Vec::new();
    let mut k: usize = st;
    while k <= en
        invariant
            st <= k <= en + 1,
            en < n1,
            n1 == s1@.len(),
            seg@.len() == k - st,
            forall|t: int| 0 <= t < seg@.len() ==> seg@[t] == s1@[st + t],
        decreases en + 1 - k,
    {
        seg.push(s1[k]);
        k = k + 1;
    }
    k = st;
    while k <= en
        invariant
            st <= k <= en + 1,
            en < n1,
            n1 == s1@.len(),
            en < s2@.len(),
            s1@.len() == old(s1)@.len(),
            s2@ == old(s2)@,
            perm_of(s1@, old(s1)@),
            same_elems(s1@, old(s1)@),
            cond == distinct_perms(old(s1)@, old(s2)@),
            cond ==> forall|t: int| st <= t < k ==> s1@[t] == old(s2)@[t],
        decreases en + 1 - k,
    {
        let v = s2[k];
        match find_index(s1, v) {
            Some(j) => {
                proof {
                    if cond && st <= j < k {
                        // The value would already stand at an earlier range
                        // position, giving the other ordering a duplicate.
                        assert(old(s2)@[j as int] == s1@[j as int]);
                        assert(old(s2)@[j as int] == old(s2)@[k as int]);
                        assert(false);
                    }
                }
                swap_at(s1, k, j);
            },
            None => {
                proof {
                    if cond {
                        assert(old(s1)@.contains(v));
                        assert(s1@.contains(v));
                        assert(false);
                    }
                }
            },
        }
        proof {
            lemma_perm_same_elems(s1@, old(s1)@);
        }
        k = k + 1;
    }
    k = st;
    while k <= en
        invariant
            st <= k <= en + 1,
            en < n1,
            en < s2@.len(),
            seg@.len() == en + 1 - st,
            forall|t: int| 0 <= t < seg@.len() ==> seg@[t] == old(s1)@[st + t],
            s2@.len() == old(s2)@.len(),
            s1@.len() == old(s1)@.len(),
            perm_of(s1@, old(s1)@),
            same_elems(s1@, old(s1)@),
            cond ==> forall|t: int| st <= t <= en ==> s1@[t] == old(s2)@[t],
            perm_of(s2@, old(s2)@),
            same_elems(s2@, old(s2)@),
            cond == distinct_perms(old(s1)@, old(s2)@),
            cond ==> forall|t: int| st <= t < k ==> s2@[t] == old(s1)@[t],
        decreases en + 1 - k,
    {
        let v = seg[k - st];
        match find_index(s2, v) {
            Some(j) => {
                proof {
                    if cond && st <= j < k {
                        assert(old(s1)@[j as int] == s2@[j as int]);
                        assert(old(s1)@[j as int] == old(s1)@[k as int]);
                        assert(false);
                    }
                }
                swap_at(s2, k, j);
            },
            None => {
                proof {
                    if cond {
                        assert(old(s2)@.contains(v));
                        assert(s2@.contains(v));
                        assert(false);
                    }
                }
            },
        }
        proof {
            lemma_perm_same_elems(s2@, old(s2)@);
        }
        k = k + 1;
    }
    proof {
        lemma_perm_same_elems(s1@, old(s1)@);
        lemma_perm_same_elems(s2@, old(s2)@);
    }
}

/// Order crossover over the inclusive range `st..=en`, one child per call:
/// the ordering keeps its values on the range and takes the rest in the
/// other ordering's rotational order from `en + 1`, realized by swaps
/// outside the range.
pub fn crossover_order(s1: &mut Vec<u64>, s2: &Vec<u64>, st: usize, en: usize)
    requires
        st <= en < old(s1)@.len(),
        old(s1)@.len() == s2@.len(),
    ensures
        perm_of(final(s1)@, old(s1)@),
        same_elems(final(s1)@, old(s1)@),
        forall|k: int| st <= k <= en ==> final(s1)@[k] == old(s1)@[k],
{
    let n = s1.len();
    let seg_len = en + 1 - st;
    // The values the range keeps.
    let mut seg: Vec<u64> = Vec::new();
    let mut k: usize = st;
    while k <= en
        invariant
            st <= k <= en + 1,
            en < n,
            n == s1@.len(),
            seg@.len() == k - st,
            forall|t: int| 0 <= t < seg@.len() ==> seg@[t] == s1@[st + t],
        decreases en + 1 - k,
    {
        seg.push(s1[k]);
        k = k + 1;
    }
    // The other ordering's remaining values, scanned from just past the
    // range, wrapping around.
    let mut others: Vec<u64> = Vec::new();
    let mut t: usize = 0;
    while t < n
        invariant
            n == s1@.len(),
            n == s2@.len(),
            st <= en < n,
            t <= n,
        decreases n - t,
    {
        let p = if t >= n - 1 - en {
            t - (n - 1 - en)
        } else {
            en + 1 + t
        };
        let v = s2[p];
        if find_index(&seg, v).is_none() {
            others.push(v);
        }
        t = t + 1;
    }
    // Place the scanned values outside the range, each by a swap that never
    // touches the range.
    let fill = n - seg_len;
    let mut f: usize = 0;
    while f < fill
        invariant
            n == s1@.len(),
            s1@.len() == old(s1)@.len(),
            st <= en < n,
            fill == n - (en + 1 - st),
            f <= fill,
            perm_of(s1@, old(s1)@),
            forall|k: int| st <= k <= en ==> s1@[k] == old(s1)@[k],
        decreases fill - f,
    {
        let pos = if f < n - 1 - en {
            en + 1 + f
        } else {
            f - (n - 1 - en)
        };
        if f < others.len() {
            let v = others[f];
            if s1[pos] != v {
                match find_index_excluding(s1, v, st, en) {
                    Some(j) => {
                        swap_at(s1, pos, j);
                    },
                    None => {},
                }
            }
        }
        f = f + 1;
    }
    proof {
        lemma_perm_same_elems(s1@, old(s1)@);
    }
}

/// Cycle crossover: follow the cycle of positions that starts at `start`
/// (repeatedly, the position in the first ordering of the second ordering's
/// value), and exchange the cycle's values between the two orderings, each
/// receiving them by swaps within itself.
pub fn crossover_cycle(s1: &mut Vec<u64>, s2: &mut Vec<u64>, start: usize)
    requires
        start < old(s1)@.len(),
        old(s1)@.len() == old(s2)@.len(),
    ensures
        perm_of(final(s1)@, old(s1)@),
        perm_of(final(s2)@, old(s2)@),
        same_elems(final(s1)@, old(s1)@),
        same_elems(final(s2)@, old(s2)@),
{
    let n = s1.len();
    let mut seen: Vec<bool> = Vec::new();
    let mut z: usize = 0;
    while z < n
        invariant
            seen@.len() == z,
            z <= n,
        decreases n - z,
    {
        seen.push(false);
        z = z + 1;
    }
    let mut cycle: Vec<usize> = Vec::new();
    let mut idx = start;
    let mut fuel = n;
    while fuel > 0
        invariant
            n == s1@.len(),
            n == s2@.len(),
            seen@.len() == n,
            idx < n,
            forall|t: int| 0 <= t < cycle@.len() ==> #[trigger] cycle@[t] < n,
        decreases fuel,
    {
        fuel = fuel - 1;
        if seen[idx] {
            break ;
        }
        seen.set(idx, true);
        cycle.push(idx);
        match find_index(s1, s2[idx]) {
            Some(j) => {
                idx = j;
            },
            None => {
                break ;
            },
        }
    }
    let m = cycle.len();
    // Snapshot the cycle's values on both sides.
    let mut v1: Vec<u64> = Vec::new();
    let mut v2: Vec<u64> = Vec::new();
    let mut t: usize = 0;
    while t < m
        invariant
            n == s1@.len(),
            n == s2@.len(),
            m == cycle@.len(),
            t <= m,
            v1@.len() == t,
            v2@.len() == t,
            forall|k: int| 0 <= k < cycle@.len() ==> #[trigger] cycle@[k] < n,
        decreases m - t,
    {
        v1.push(s1[cycle[t]]);
        v2.push(s2[cycle[t]]);
        t = t + 1;
    }
    // Each side receives the other's cycle values, by swaps.
    t = 0;
    while t < m
        invariant
            n == s1@.len(),
            n == s2@.len(),
            s1@.len() == old(s1)@.len(),
            s2@.len() == old(s2)@.len(),
            m == cycle@.len(),
            t <= m,
            v1@.len() == m,
            v2@.len() == m,
            forall|k: int| 0 <= k < cycle@.len() ==> #[trigger] cycle@[k] < n,
            perm_of(s1@, old(s1)@),
            perm_of(s2@, old(s2)@),
        decreases m - t,
    {
        let pos = cycle[t];
        let want1 = v2[t];
        if s1[pos] != want1 {
            match find_index(s1, want1) {
                Some(j) => {
                    swap_at(s1, pos, j);
                },
                None => {},
            }
        }
        let want2 = v1[t];
        if s2[pos] != want2 {
            match find_index(s2, want2) {
                Some(j) => {
                    swap_at(s2, pos, j);
                },
                None => {},
            }
        }
        t = t + 1;
    }
    proof {
        lemma_perm_same_elems(s1@, old(s1)@);
        lemma_perm_same_elems(s2@, old(s2)@);
    }
}

/// Mutation: swap two positions.
pub fn mutate_swap(s: &mut Vec<u64>, i: usize, j: usize)
    requires
        i < old(s)@.len(),
        j < old(s)@.len(),
    ensures
        perm_of(final(s)@, old(s)@),
        same_elems(final(s)@, old(s)@),
        final(s)@[i as int] == old(s)@[j as int],
        final(s)@[j as int] == old(s)@[i as int],
        forall|k: int|
            0 <= k < old(s)@.len() && k != i && k != j ==> final(s)@[k] == old(s)@[k],
{
    swap_at(s, i, j);
}

/// Mutation: remove the value at `st` and reinsert it at `en`, the values in
/// between shifting one place toward `st`.
pub fn mutate_insert(s: &mut Vec<u64>, st: usize, en: usize)
    requires
        st <= en < old(s)@.len(),
    ensures
        perm_of(final(s)@, old(s)@),
        same_elems(final(s)@, old(s)@),
        forall|k: int|
            0 <= k < old(s)@.len() && !(st <= k <= en) ==> final(s)@[k] == old(s)@[k],
        forall|k: int| st <= k < en ==> final(s)@[k] == old(s)@[k + 1],
        final(s)@[en as int] == old(s)@[st as int],
{
    let mut i: usize = st;
    while i < en
        invariant
            st <= i <= en,
            en < s@.len(),
            s@.len() == old(s)@.len(),
            perm_of(s@, old(s)@),
            forall|k: int|
                0 <= k < old(s)@.len() && !(st <= k <= en) ==> s@[k] == old(s)@[k],
            forall|k: int| st <= k < i ==> s@[k] == old(s)@[k + 1],
            s@[i as int] == old(s)@[st as int],
            forall|k: int| i < k <= en ==> s@[k] == old(s)@[k],
        decreases en - i,
    {
        swap_at(s, i, i + 1);
        i = i + 1;
    }
    proof {
        lemma_perm_same_elems(s@, old(s)@);
    }
}

/// Mutation: reverse the inclusive range `st..=en`.
pub fn mutate_inversion(s: &mut Vec<u64>, st: usize, en: usize)
    requires
        st <= en < old(s)@.len(),
    ensures
        perm_of(final(s)@, old(s)@),
        same_elems(final(s)@, old(s)@),
        forall|k: int|
            0 <= k < old(s)@.len() && !(st <= k <= en) ==> final(s)@[k] == old(s)@[k],
        forall|k: int| st <= k <= en ==> final(s)@[k] == old(s)@[st + en - k],
{
    let mut a = st;
    let mut b = en;
    while a < b
        invariant
            st <= a,
            b <= en,
            a <= b + 1,
            a + b == st + en,
            en < s@.len(),
            s@.len() == old(s)@.len(),
            perm_of(s@, old(s)@),
            forall|k: int|
                0 <= k < old(s)@.len() && !(st <= k <= en) ==> s@[k] == old(s)@[k],
            forall|k: int| st <= k < a ==> s@[k] == old(s)@[st + en - k],
            forall|k: int| b < k <= en ==> s@[k] == old(s)@[st + en - k],
            forall|k: int| a <= k <= b ==> s@[k] == old(s)@[k],
        decreases b + 1 - a,
    {
        swap_at(s, a, b);
        a = a + 1;
        b = b - 1;
    }
    proof {
        lemma_perm_same_elems(s@, old(s)@);
    }
}

/// The number of discordant index pairs between two orderings of the same
/// length, counting pairs `(i, j)` with `i < j` whose relative order
/// disagrees.
pub open spec fn spec_kendall_row(a: Seq<u64>, b: Seq<u64>, i: int, j: int) -> int
    decreases j - i,
{
    if j <= i + 1 {
        0
    } else {
        spec_kendall_row(a, b, i, j - 1) + if (a[i] < a[j - 1]) != (b[i] < b[j - 1]) {
            1int
        } else {
            0int
        }
    }
}

pub open spec fn spec_kendall_upto(a: Seq<u64>, b: Seq<u64>, i: int) -> int
    decreases i,
{
    if i <= 0 {
        0
    } else {
        spec_kendall_upto(a, b, i - 1) + spec_kendall_row(a, b, i - 1, a.len() as int)
    }
}

/// Kendall-tau distance between two equal-length orderings.
pub open spec fn spec_kendall_tau(a: Seq<u64>, b: Seq<u64>) -> int {
    spec_kendall_upto(a, b, a.len() as int)
}

/// Kendall-tau distance; `None` exactly when the lengths differ.
pub fn kendall_tau(a: &Vec<u64>, b: &Vec<u64>) -> (r: Option<u64>)
    requires
        a@.len() <= 1_000_000,
    ensures
        match r {
            Some(d) => a@.len() == b@.len() && d as int == spec_kendall_tau(a@, b@),
            None => a@.len() != b@.len(),
        },
{
    let n = a.len();
    if n != b.len() {
        return None;
    }
    let mut count: u64 = 0;
    let mut i: usize = 0;
    while i < n
        invariant
            n == a@.len(),
            n == b@.len(),
            n <= 1_000_000,
            i <= n,
            count as int == spec_kendall_upto(a@, b@, i as int),
            count <= i * 1_000_000,
        decreases n - i,
    {
        let mut j: usize = i + 1;
        let mut row: u64 = 0;
        while j < n
            invariant
                n == a@.len(),
                n == b@.len(),
                n <= 1_000_000,
                i < n,
                i + 1 <= j <= n,
                row as int == spec_kendall_row(a@, b@, i as int, j as int),
                row <= j,
            decreases n - j,
        {
            if (a[i] < a[j]) != (b[i] < b[j]) {
                row = row + 1;
            }
            j = j + 1;
        }
        proof {
            assert((i + 1) * 1_000_000 == i * 1_000_000 + 1_000_000) by (nonlinear_arith);
            assert(i * 1_000_000 <= 1_000_000_000_000) by (nonlinear_arith)
                requires
                    0 <= i < 1_000_000,
            ;
        }
        count = count + row;
        i = i + 1;
    }
    Some(count)
}

} // verus!
