//! Cycle detection on a directed graph given by adjacency lists: used for
//! references among named pipelines.
use vstd::prelude::*;
use vstd::set_lib::*;

verus! {

/// There is a walk of exactly `k` edges from `i` to `j`.
pub open spec fn walk(edge: spec_fn(int, int) -> bool, i: int, j: int, k: nat) -> bool
    decreases k,
{
    if k == 0 {
        i == j
    } else {
        exists|m: int| #[trigger] edge(i, m) && walk(edge, m, j, (k - 1) as nat)
    }
}

/// Some node lies on a walk of at least one edge back to itself.
pub open spec fn cyclic(edge: spec_fn(int, int) -> bool) -> bool {
    exists|i: int, k: nat| k > 0 && #[trigger] walk(edge, i, i, k)
}

/// The edges of adjacency lists `g`: `i -> j` when list `i` holds `j`.
pub open spec fn adj_edge(g: Seq<Vec<usize>>) -> spec_fn(int, int) -> bool {
    |i: int, j: int| 0 <= i < g.len() && 0 <= j < g.len() && g[i]@.contains(j as usize)
}

/// Every entry of every list names a node.
pub open spec fn adj_closed(g: Seq<Vec<usize>>) -> bool {
    forall|i: int, k: int| 0 <= i < g.len() && 0 <= k < g[i]@.len() ==> #[trigger] g[i]@[k] < g.len()
}

/// Along every walk, `rank` drops by at least one per edge.
proof fn lemma_rank_walk(edge: spec_fn(int, int) -> bool, rank: Seq<usize>, n: int, i: int, j: int, k: nat)
    requires
        rank.len() == n,
        forall|a: int, b: int| #[trigger] edge(a, b) ==> 0 <= a < n && 0 <= b < n && rank[b] < rank[a],
        0 <= i < n,
        walk(edge, i, j, k),
    ensures
        0 <= j < n,
        rank[j] + k <= rank[i],
    decreases k,
{
    if k > 0 {
        let m = choose|m: int| #[trigger] edge(i, m) && walk(edge, m, j, (k - 1) as nat);
        lemma_rank_walk(edge, rank, n, m, j, (k - 1) as nat);
    }
}

/// Consecutive entries of `w` are edges: then `w[a]` walks to `w[b]` in `b - a` edges.
proof fn lemma_walk_along(edge: spec_fn(int, int) -> bool, w: Seq<usize>, a: int, b: int)
    requires
        0 <= a <= b < w.len(),
        forall|t: int| 0 <= t < w.len() - 1 ==> #[trigger] edge(w[t] as int, w[t + 1] as int),
    ensures
        walk(edge, w[a] as int, w[b] as int, (b - a) as nat),
    decreases b - a,
{
    if a < b {
        lemma_walk_along(edge, w, a + 1, b);
        assert(edge(w[a] as int, w[a + 1] as int));
    }
}

/// A sequence of distinct indices below `n` has at most `n` entries.
proof fn lemma_distinct_bounded(w: Seq<usize>, n: int)
    requires
        w.no_duplicates(),
        0 <= n,
        forall|t: int| 0 <= t < w.len() ==> #[trigger] w[t] < n,
    ensures
        w.len() <= n,
{
    let wi = w.map_values(|x: usize| x as int);
    assert forall|a: int, b: int| 0 <= a < wi.len() && 0 <= b < wi.len() && a != b implies wi[a]
        != wi[b] by {
        assert(w[a] != w[b]);
    }
    assert(wi.no_duplicates());
    wi.unique_seq_to_set();
    lemma_int_range(0, n);
    assert(wi.to_set().subset_of(set_int_range(0, n))) by {
        assert forall|x: int| wi.to_set().contains(x) implies set_int_range(0, n).contains(x) by {
            let t = choose|t: int| 0 <= t < wi.len() && wi[t] == x;
            assert(w[t] < n);
        }
    }
    lemma_len_subset(wi.to_set(), set_int_range(0, n));
}

/// Adding one index to a set of indices below `n` that lacks it keeps the
/// size at most `n`.
proof fn lemma_removed_bounded(s: Set<int>, x: int, n: int)
    requires
        s.finite(),
        0 <= n,
        0 <= x < n,
        !s.contains(x),
        forall|y: int| #[trigger] s.contains(y) ==> 0 <= y < n,
    ensures
        s.insert(x).len() <= n,
        s.len() < n,
{
    lemma_int_range(0, n);
    assert(s.insert(x).subset_of(set_int_range(0, n)));
    lemma_len_subset(s.insert(x), set_int_range(0, n));
}

/// Look for a cycle. `None` when the graph has none; otherwise an edge
/// `(a, b)` that lies on a cycle: `b` walks back to `a`.
pub fn find_cycle(g: &Vec<Vec<usize>>) -> (r: Option<(usize, usize)>)
    requires
        adj_closed(g@),
    ensures
        r is None <==> !cyclic(adj_edge(g@)),
        r matches Some((a, b)) ==> adj_edge(g@)(a as int, b as int) && exists|k: nat|
            walk(adj_edge(g@), b as int, a as int, k),
{
    let ghost edge = adj_edge(g@);
    let n = g.len();
    let mut removed: Vec<bool> = Vec::new();
    let mut rank: Vec<usize> = Vec::new();
    for i in 0..n
        invariant
            removed.len() == i,
            rank.len() == i,
            forall|t: int| 0 <= t < i ==> !#[trigger] removed@[t],
    {
        removed.push(false);
        rank.push(0);
    }
    let ghost mut gone: Set<int> = Set::empty();
    let mut count: usize = 0;
    // Remove, one at a time, a node all of whose successors are removed.
    loop
        invariant
            n == g.len(),
            adj_closed(g@),
            edge == adj_edge(g@),
            removed.len() == n,
            rank.len() == n,
            gone.finite(),
            gone.len() == count,
            count <= n,
            forall|y: int| #[trigger] gone.contains(y) ==> 0 <= y < n,
            forall|y: int| 0 <= y < n ==> (gone.contains(y) <==> #[trigger] removed@[y]),
            forall|a: int, b: int|
                #[trigger] edge(a, b) && removed@[a] ==> removed@[b] && rank@[b] < rank@[a],
            forall|a: int| 0 <= a < n && #[trigger] removed@[a] ==> rank@[a] < count,
        ensures
            n == g.len(),
            removed.len() == n,
            rank.len() == n,
            forall|a: int, b: int|
                #[trigger] edge(a, b) && removed@[a] ==> removed@[b] && rank@[b] < rank@[a],
            forall|a: int|
                0 <= a < n && !#[trigger] removed@[a] ==> exists|k: int|
                    0 <= k < g@[a]@.len() && !removed@[#[trigger] g@[a]@[k] as int],
        decreases n - count,
    {
        let mut found: Option<usize> = None;
        let mut i: usize = 0;
        while i < n
            invariant
                n == g.len(),
                adj_closed(g@),
                removed.len() == n,
                i <= n,
                found matches Some(x) ==> x < n && !removed@[x as int] && forall|k: int|
                    0 <= k < g@[x as int]@.len() ==> removed@[#[trigger] g@[x as int]@[k] as int],
                found is None ==> forall|a: int|
                    0 <= a < i && !#[trigger] removed@[a] ==> exists|k: int|
                        0 <= k < g@[a]@.len() && !removed@[#[trigger] g@[a]@[k] as int],
            decreases n - i,
        {
            if found.is_none() && !removed[i] {
                let succ = &g[i];
                let mut all = true;
                let mut k: usize = 0;
                while k < succ.len()
                    invariant
                        n == g.len(),
                        adj_closed(g@),
                        removed.len() == n,
                        i < n,
                        *succ == g@[i as int],
                        k <= succ.len(),
                        all ==> forall|t: int| 0 <= t < k ==> removed@[#[trigger] succ@[t] as int],
                        !all ==> exists|t: int| 0 <= t < succ@.len() && !removed@[#[trigger] succ@[t] as int],
                    decreases succ.len() - k,
                {
                    assert(succ@[k as int] < n);
                    if !removed[succ[k]] {
                        all = false;
                    }
                    k += 1;
                }
                if all {
                    found = Some(i);
                }
            }
            i += 1;
        }
        match found {
            None => {
                break;
            },
            Some(x) => {
                proof {
                    lemma_removed_bounded(gone, x as int, n as int);
                    gone = gone.insert(x as int);
                }
                let ghost old_removed = removed@;
                let ghost old_rank = rank@;
                let ghost old_count = count;
                removed.set(x, true);
                rank.set(x, count);
                count += 1;
                assert forall|a: int, b: int| #[trigger] edge(a, b) && removed@[a] implies removed@[b]
                    && rank@[b] < rank@[a] by {
                    if a == x {
                        assert(g@[a]@.contains(b as usize));
                        let k = choose|k: int| 0 <= k < g@[a]@.len() && g@[a]@[k] == b as usize;
                        assert(old_removed[g@[a]@[k] as int]);
                        assert(old_removed[b]);
                        assert(b != x);
                        assert(old_rank[b] < old_count);
                    } else {
                        assert(old_removed[a]);
                        assert(edge(a, b) && old_removed[a]);
                        assert(old_removed[b]);
                        assert(b != x);
                    }
                }
            },
        }
    }
    // Any node left: every remaining node has a remaining successor.
    let mut start: Option<usize> = None;
    let mut i: usize = 0;
    while i < n
        invariant
            removed.len() == n,
            i <= n,
            start matches Some(x) ==> x < n && !removed@[x as int],
            start is None ==> forall|a: int| 0 <= a < i ==> #[trigger] removed@[a],
        decreases n - i,
    {
        if start.is_none() && !removed[i] {
            start = Some(i);
        }
        i += 1;
    }
    let r0 = match start {
        None => {
            proof {
                assert forall|a: int, b: int| #[trigger] edge(a, b) implies 0 <= a < n && 0 <= b < n
                    && rank@[b] < rank@[a] by {}
                assert forall|a: int, k: nat| k > 0 implies !#[trigger] walk(edge, a, a, k) by {
                    if walk(edge, a, a, k) {
                        let m = choose|m: int| #[trigger] edge(a, m) && walk(edge, m, a, (k - 1) as nat);
                        lemma_rank_walk(edge, rank@, n as int, m, a, (k - 1) as nat);
                    }
                }
            }
            return None;
        },
        Some(x) => x,
    };
    let mut w: Vec<usize> = Vec::new();
    w.push(r0);
    loop
        invariant
            n == g.len(),
            adj_closed(g@),
            edge == adj_edge(g@),
            removed.len() == n,
            1 <= w.len() <= n,
            w@.no_duplicates(),
            forall|t: int| 0 <= t < w.len() ==> #[trigger] w@[t] < n && !removed@[w@[t] as int],
            forall|t: int| 0 <= t < w.len() - 1 ==> #[trigger] edge(w@[t] as int, w@[t + 1] as int),
            forall|a: int|
                0 <= a < n && !#[trigger] removed@[a] ==> exists|k: int|
                    0 <= k < g@[a]@.len() && !removed@[#[trigger] g@[a]@[k] as int],
        decreases n - w.len(),
    {
        let last = w[w.len() - 1];
        let succ = &g[last];
        let mut next: Option<usize> = None;
        let mut k: usize = 0;
        while k < succ.len()
            invariant
                n == g.len(),
                adj_closed(g@),
                removed.len() == n,
                last < n,
                *succ == g@[last as int],
                k <= succ.len(),
                next matches Some(s) ==> succ@.contains(s) && s < n && !removed@[s as int],
                next is None ==> forall|t: int| 0 <= t < k ==> removed@[#[trigger] succ@[t] as int],
            decreases succ.len() - k,
        {
            assert(succ@[k as int] < n);
            if next.is_none() && !removed[succ[k]] {
                next = Some(succ[k]);
                assert(succ@[k as int] == succ[k as int]);
            }
            k += 1;
        }
        let s = match next {
            Some(s) => s,
            None => {
                proof {
                    assert(!removed@[last as int]);
                    let t = choose|t: int|
                        0 <= t < g@[last as int]@.len() && !removed@[#[trigger] g@[last as int]@[t] as int];
                    assert(removed@[succ@[t] as int]);
                }
                return None;
            },
        };
        assert(edge(last as int, s as int));
        let mut p: usize = 0;
        while p < w.len()
            invariant
                p <= w.len(),
                1 <= w.len(),
                edge == adj_edge(g@),
                last == w@[w.len() - 1],
                edge(last as int, s as int),
                forall|t: int| 0 <= t < w.len() - 1 ==> #[trigger] edge(w@[t] as int, w@[t + 1] as int),
                forall|t: int| 0 <= t < p ==> #[trigger] w@[t] != s,
            decreases w.len() - p,
        {
            if w[p] == s {
                proof {
                    lemma_walk_along(edge, w@, p as int, w.len() - 1);
                    assert(cyclic(edge)) by {
                        assert(walk(edge, s as int, last as int, (w.len() - 1 - p) as nat));
                        assert(walk(edge, last as int, last as int, (w.len() - p) as nat));
                    }
                }
                return Some((last, s));
            }
            p += 1;
        }
        proof {
            let w2 = w@.push(s);
            assert(w2.no_duplicates()) by {
                assert forall|a: int, b: int| 0 <= a < w2.len() && 0 <= b < w2.len() && a != b implies w2[a]
                    != w2[b] by {
                    if a < w@.len() && b < w@.len() {
                        assert(w@[a] != w@[b]);
                    }
                }
            }
            lemma_distinct_bounded(w2, n as int);
        }
        w.push(s);
    }
}

} // verus!
