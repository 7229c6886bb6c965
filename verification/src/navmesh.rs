//! The navigation graph the ghost walks on: waypoints joined by edges, and the
//! pruning that keeps only the part reachable from a chosen waypoint.
//!
//! Waypoints are carried as an opaque type `W`: the graph logic never reads them.
use std::collections::VecDeque;
use vstd::prelude::*;

verus! {

/// The adjacency lists of a mesh as plain sequences.
pub open spec fn adjacency(edges: Seq<Vec<usize>>) -> Seq<Seq<usize>> {
    edges.map_values(|e: Vec<usize>| e@)
}

/// Every edge of `g` leads to a vertex of `g`.
pub open spec fn edges_in_range(g: Seq<Seq<usize>>) -> bool {
    forall|v: int, j: int| 0 <= v < g.len() && 0 <= j < g[v].len() ==> #[trigger] g[v][j] < g.len()
}

/// `g` has an edge from `a` to `b`.
pub open spec fn has_edge(g: Seq<Seq<usize>>, a: int, b: int) -> bool {
    0 <= a < g.len() && exists|j: int| 0 <= j < g[a].len() && #[trigger] g[a][j] == b
}

/// `p` is a walk through `g`: a nonempty sequence of vertices, each joined to the next by an edge.
pub open spec fn is_path(g: Seq<Seq<usize>>, p: Seq<int>) -> bool {
    &&& p.len() > 0
    &&& forall|i: int| 0 <= i < p.len() ==> 0 <= #[trigger] p[i] < g.len()
    &&& forall|i: int| 0 <= i < p.len() - 1 ==> #[trigger] has_edge(g, p[i], p[i + 1])
}

/// Some walk through `g` leads from `s` to `v`.
pub open spec fn reachable(g: Seq<Seq<usize>>, s: int, v: int) -> bool {
    exists|p: Seq<int>| #[trigger] is_path(g, p) && p[0] == s && p.last() == v
}

/// How many vertices below `v` are reachable from `s`: the index that a
/// reachable `v` gets once the unreachable vertices are dropped.
pub open spec fn rank(g: Seq<Seq<usize>>, s: int, v: int) -> nat
    decreases v,
{
    if v <= 0 {
        0
    } else {
        rank(g, s, v - 1) + if reachable(g, s, v - 1) { 1nat } else { 0nat }
    }
}

/// The adjacency list of `v` with every neighbour replaced by its rank.
pub open spec fn renumbered(g: Seq<Seq<usize>>, s: int, v: int) -> Seq<usize> {
    g[v].map_values(|u: usize| rank(g, s, u as int) as usize)
}

/// Every index below `rank(g, s, n)` is the rank of some reachable vertex below `n`.
proof fn lemma_rank_onto(g: Seq<Seq<usize>>, s: int, n: int, i: int)
    requires
        0 <= n,
        0 <= i < rank(g, s, n),
    ensures
        exists|v: int| 0 <= v < n && reachable(g, s, v) && #[trigger] rank(g, s, v) == i,
    decreases n,
{
    if n > 0 {
        if i < rank(g, s, n - 1) {
            lemma_rank_onto(g, s, n - 1, i);
            let v = choose|v: int| 0 <= v < n - 1 && reachable(g, s, v) && #[trigger] rank(g, s, v) == i;
            assert(0 <= v < n && reachable(g, s, v) && rank(g, s, v) == i);
        } else {
            assert(reachable(g, s, n - 1) && rank(g, s, n - 1) == i);
        }
    }
}

/// The prefix of a walk from `s` is a walk from `s`: every vertex on it is reachable.
proof fn lemma_path_vertices_reachable(g: Seq<Seq<usize>>, p: Seq<int>, k: int)
    requires
        is_path(g, p),
        0 <= k < p.len(),
    ensures
        reachable(g, p[0], p[k]),
{
    let q = p.take(k + 1);
    assert forall|i: int| 0 <= i < q.len() - 1 implies #[trigger] has_edge(g, q[i], q[i + 1]) by {
        assert(has_edge(g, p[i], p[i + 1]));
    }
    assert(is_path(g, q));
}

/// Once the unreachable vertices of `g` are dropped and the rest renumbered by
/// rank, every vertex of the result `ng` is reachable from the new index of `s`.
proof fn lemma_pruned_graph_connected(g: Seq<Seq<usize>>, s: int, ng: Seq<Seq<usize>>)
    requires
        edges_in_range(g),
        0 <= s < g.len() <= usize::MAX,
        ng.len() == rank(g, s, g.len() as int),
        forall|v: int|
            0 <= v < g.len() && #[trigger] reachable(g, s, v) ==> ng[rank(g, s, v) as int] == renumbered(g, s, v),
    ensures
        forall|i: int| 0 <= i < ng.len() ==> #[trigger] reachable(ng, rank(g, s, s) as int, i),
{
    assert forall|i: int| 0 <= i < ng.len() implies #[trigger] reachable(ng, rank(g, s, s) as int, i) by {
        lemma_rank_onto(g, s, g.len() as int, i);
        let v = choose|v: int| 0 <= v < g.len() && reachable(g, s, v) && #[trigger] rank(g, s, v) == i;
        let p = choose|p: Seq<int>| #[trigger] is_path(g, p) && p[0] == s && p.last() == v;
        let q = p.map_values(|x: int| rank(g, s, x) as int);
        assert forall|k: int| 0 <= k < p.len() implies reachable(g, s, #[trigger] p[k]) && 0 <= q[k] < ng.len() by {
            lemma_path_vertices_reachable(g, p, k);
            lemma_rank_lt(g, s, p[k], g.len() as int);
        }
        assert forall|k: int| 0 <= k < q.len() - 1 implies #[trigger] has_edge(ng, q[k], q[k + 1]) by {
            assert(has_edge(g, p[k], p[k + 1]));
            let a = p[k];
            let j = choose|j: int| 0 <= j < g[a].len() && #[trigger] g[a][j] == p[k + 1];
            assert(reachable(g, s, p[k]));
            assert(reachable(g, s, p[k + 1]));
            assert(ng[q[k]] == renumbered(g, s, a));
            lemma_rank_lt(g, s, p[k + 1], g.len() as int);
            lemma_rank_le(g, s, 0, g.len() as int);
            assert(q[k + 1] == rank(g, s, p[k + 1]));
            assert(ng[q[k]].len() == g[a].len());
            assert(ng[q[k]][j] == rank(g, s, p[k + 1]) as usize);
            assert(ng[q[k]][j] == q[k + 1]);
        }
        assert forall|k: int| 0 <= k < q.len() implies 0 <= #[trigger] q[k] < ng.len() by {
            assert(reachable(g, s, p[k]));
        }
        assert(is_path(ng, q));
        assert(q[0] == rank(g, s, s) && q.last() == i);
    }
}

proof fn lemma_rank_identity(g: Seq<Seq<usize>>, s: int, v: int)
    requires
        0 <= v <= g.len(),
        forall|u: int| 0 <= u < g.len() ==> #[trigger] reachable(g, s, u),
    ensures
        rank(g, s, v) == v,
    decreases v,
{
    if v > 0 {
        lemma_rank_identity(g, s, v - 1);
        assert(reachable(g, s, v - 1));
    }
}

/// Pruning a graph all of whose vertices are reachable from `s` keeps it as it is:
/// every vertex keeps its index and its edges. A graph that was pruned once is such
/// a graph, so pruning it again from the same waypoint changes nothing.
pub proof fn lemma_prune_keeps_connected_graph(g: Seq<Seq<usize>>, s: int)
    requires
        edges_in_range(g),
        0 <= s < g.len(),
        forall|v: int| 0 <= v < g.len() ==> #[trigger] reachable(g, s, v),
    ensures
        rank(g, s, g.len() as int) == g.len(),
        rank(g, s, s) == s,
        forall|v: int| 0 <= v < g.len() ==> #[trigger] rank(g, s, v) == v && renumbered(g, s, v) == g[v],
{
    lemma_rank_identity(g, s, g.len() as int);
    lemma_rank_identity(g, s, s);
    assert forall|v: int| 0 <= v < g.len() implies #[trigger] rank(g, s, v) == v && renumbered(g, s, v) == g[v] by {
        lemma_rank_identity(g, s, v);
        assert forall|j: int| 0 <= j < g[v].len() implies renumbered(g, s, v)[j] == g[v][j] by {
            lemma_rank_identity(g, s, g[v][j] as int);
        }
        assert(renumbered(g, s, v) =~= g[v]);
    }
}

/// A waypoint graph: `edges[v]` lists the waypoints joined to waypoint `v`.
pub struct NavMesh<W> {
    pub waypoints: Vec<W>,
    pub edges: Vec<Vec<usize>>,
}

proof fn lemma_rank_le(g: Seq<Seq<usize>>, s: int, v: int, w: int)
    requires
        0 <= v <= w,
    ensures
        rank(g, s, v) <= rank(g, s, w),
        rank(g, s, w) - rank(g, s, v) <= w - v,
    decreases w - v,
{
    if v < w {
        lemma_rank_le(g, s, v, w - 1);
    }
}

proof fn lemma_rank_lt(g: Seq<Seq<usize>>, s: int, v: int, w: int)
    requires
        0 <= v < w,
        reachable(g, s, v),
    ensures
        rank(g, s, v) < rank(g, s, w),
{
    lemma_rank_le(g, s, v + 1, w);
}

/// Every vertex on a walk that starts at a flagged vertex is flagged, when the
/// flags are closed under the edges.
proof fn lemma_closed_flags_cover_path(g: Seq<Seq<usize>>, flags: Seq<bool>, p: Seq<int>)
    requires
        flags.len() == g.len(),
        is_path(g, p),
        flags[p[0]],
        forall|v: int, j: int|
            0 <= v < g.len() && flags[v] && 0 <= j < g[v].len() ==> #[trigger] flags[g[v][j] as int],
    ensures
        flags[p.last()],
    decreases p.len(),
{
    if p.len() > 1 {
        let q = p.drop_last();
        assert forall|i: int| 0 <= i < q.len() - 1 implies #[trigger] has_edge(g, q[i], q[i + 1]) by {
            assert(has_edge(g, p[i], p[i + 1]));
        }
        lemma_closed_flags_cover_path(g, flags, q);
        let i = p.len() - 2;
        assert(has_edge(g, p[i], p[i + 1]));
        let a = p[i];
        let j = choose|j: int| 0 <= j < g[a].len() && #[trigger] g[a][j] == p[p.len() - 1];
        assert(flags[g[a][j] as int]);
    }
}

/// Extending a walk to `v` by an edge of `v` gives a walk to the neighbour.
proof fn lemma_reachable_step(g: Seq<Seq<usize>>, s: int, v: int, j: int)
    requires
        edges_in_range(g),
        reachable(g, s, v),
        0 <= v < g.len(),
        0 <= j < g[v].len(),
    ensures
        reachable(g, s, g[v][j] as int),
{
    let p = choose|p: Seq<int>| #[trigger] is_path(g, p) && p[0] == s && p.last() == v;
    let u = g[v][j] as int;
    let q = p.push(u);
    assert forall|i: int| 0 <= i < q.len() - 1 implies #[trigger] has_edge(g, q[i], q[i + 1]) by {
        if i < p.len() - 1 {
            assert(has_edge(g, p[i], p[i + 1]));
        } else {
            assert(q[i] == v && q[i + 1] == u);
        }
    }
    assert(is_path(g, q));
}

impl<W: Copy> NavMesh<W> {
    /// The adjacency lists as plain sequences.
    pub open spec fn graph(&self) -> Seq<Seq<usize>> {
        adjacency(self.edges@)
    }

    /// One adjacency list per waypoint, and no edge leaves the mesh.
    pub open spec fn wf(&self) -> bool {
        &&& self.edges.len() == self.waypoints.len()
        &&& edges_in_range(self.graph())
    }

    /// Drops every waypoint that cannot be reached from waypoint `start`, keeping
    /// the others in their order and renumbering the edges to match.
    pub fn remove_unreachable_from(&mut self, start: usize)
        requires
            old(self).wf(),
            start < old(self).waypoints.len(),
        ensures
            final(self).wf(),
            final(self).waypoints.len() == rank(
                old(self).graph(),
                start as int,
                old(self).waypoints.len() as int,
            ),
            forall|v: int|
                0 <= v < old(self).waypoints.len() && #[trigger] reachable(
                    old(self).graph(),
                    start as int,
                    v,
                ) ==> {
                    let r = rank(old(self).graph(), start as int, v) as int;
                    &&& final(self).waypoints@[r] == old(self).waypoints@[v]
                    &&& final(self).graph()[r] == renumbered(old(self).graph(), start as int, v)
                },
            forall|i: int|
                0 <= i < final(self).waypoints.len() ==> #[trigger] reachable(
                    final(self).graph(),
                    rank(old(self).graph(), start as int, start as int) as int,
                    i,
                ),
    {
        let ghost g = self.graph();
        let ghost s = start as int;
        let n = self.waypoints.len();
        let mut flags: Vec<bool> = vec![false; n];
        let mut queue: VecDeque<usize> = VecDeque::new();
        queue.push_back(start);
        flags.set(start, true);
        let ghost mut unmarked: Set<int> = vstd::set_lib::set_int_range(0, n as int).remove(s);
        proof {
            vstd::set_lib::lemma_int_range(0, n as int);
            assert(is_path(g, seq![s]));
            assert(queue@[0] == start);
            assert forall|i: int| 0 <= i < n implies flags@[i] == (i == s) by {
                if i != s {
                    assert(cloned(false, flags@[i]));
                }
            }
        }
        loop
            invariant
                g == self.graph(),
                self.wf(),
                n == self.waypoints.len(),
                s == start,
                start < n,
                flags.len() == n,
                flags@[s],
                forall|v: int| 0 <= v < n && #[trigger] flags@[v] ==> reachable(g, s, v),
                forall|i: int| 0 <= i < queue@.len() ==> #[trigger] queue@[i] < n,
                forall|i: int| 0 <= i < queue@.len() ==> flags@[#[trigger] queue@[i] as int],
                queue@.no_duplicates(),
                forall|v: int, j: int|
                    0 <= v < n && flags@[v] && !queue@.contains(v as usize) && 0 <= j < g[v].len()
                        ==> #[trigger] flags@[g[v][j] as int],
                unmarked.finite(),
                forall|v: int| #[trigger] unmarked.contains(v) <==> (0 <= v < n && !flags@[v]),
            ensures
                flags.len() == n,
                flags@[s],
                forall|v: int| 0 <= v < n && #[trigger] flags@[v] ==> reachable(g, s, v),
                forall|v: int, j: int|
                    0 <= v < n && flags@[v] && 0 <= j < g[v].len() ==> #[trigger] flags@[g[v][j] as int],
            decreases queue@.len() + unmarked.len(),
        {
            let ghost before_pop = queue@;
            match queue.pop_front() {
                None => {
                    break;
                },
                Some(v) => {
                    let ghost popped = queue@;
                    assert(before_pop =~= seq![v] + popped);
                    assert forall|w: usize| w != v && !popped.contains(w) implies !before_pop.contains(w) by {
                        if before_pop.contains(w) {
                            let i = choose|i: int| 0 <= i < before_pop.len() && before_pop[i] == w;
                            assert(popped[i - 1] == w);
                        }
                    }
                    assert(!popped.contains(v)) by {
                        if popped.contains(v) {
                            let i = choose|i: int| 0 <= i < popped.len() && popped[i] == v;
                            assert(before_pop[i + 1] == v && before_pop[0] == v);
                        }
                    }
                    let ghost measure = queue@.len() + unmarked.len();
                    let m = self.edges[v].len();
                    for j in 0..m
                        invariant
                            g == self.graph(),
                            self.wf(),
                            n == self.waypoints.len(),
                            v < n,
                            m == g[v as int].len(),
                            flags.len() == n,
                            flags@[s],
                            flags@[v as int],
                            !queue@.contains(v),
                            forall|w: int| 0 <= w < n && #[trigger] flags@[w] ==> reachable(g, s, w),
                            forall|i: int| 0 <= i < queue@.len() ==> #[trigger] queue@[i] < n,
                            forall|i: int| 0 <= i < queue@.len() ==> flags@[#[trigger] queue@[i] as int],
                            queue@.no_duplicates(),
                            forall|w: int, k: int|
                                0 <= w < n && w != v && flags@[w] && !queue@.contains(w as usize) && 0 <= k < g[w].len()
                                    ==> #[trigger] flags@[g[w][k] as int],
                            forall|k: int| 0 <= k < j ==> #[trigger] flags@[g[v as int][k] as int],
                            unmarked.finite(),
                            forall|w: int| #[trigger] unmarked.contains(w) <==> (0 <= w < n && !flags@[w]),
                            queue@.len() + unmarked.len() == measure,
                    {
                        let u = self.edges[v][j];
                        assert(g[v as int][j as int] == u);
                        let ghost q0 = queue@;
                        if !flags[u] {
                            proof {
                                lemma_reachable_step(g, s, v as int, j as int);
                                assert(unmarked.contains(u as int));
                                unmarked = unmarked.remove(u as int);
                            }
                            flags.set(u, true);
                            queue.push_back(u);
                            assert(queue@ == q0.push(u));
                            assert(queue@[q0.len() as int] == u);
                            assert forall|w: usize| !queue@.contains(w) implies !q0.contains(w) by {
                                if q0.contains(w) {
                                    let i = choose|i: int| 0 <= i < q0.len() && q0[i] == w;
                                    assert(queue@[i] == w);
                                }
                            }
                            assert(!q0.contains(u));
                        }
                    }
                    assert(!queue@.contains(v) ==> true);
                },
            }
        }
        assert forall|w: int| 0 <= w < n implies (#[trigger] flags@[w] <==> reachable(g, s, w)) by {
            if reachable(g, s, w) {
                let p = choose|p: Seq<int>| #[trigger] is_path(g, p) && p[0] == s && p.last() == w;
                lemma_closed_flags_cover_path(g, flags@, p);
            }
        }
        let mut new_indices: Vec<usize> = vec![0; n];
        let mut new_waypoints: Vec<W> = Vec::new();
        let mut next: usize = 0;
        for v in 0..n
            invariant
                g == self.graph(),
                self.wf(),
                n == self.waypoints.len(),
                flags.len() == n,
                new_indices.len() == n,
                forall|w: int| 0 <= w < n ==> (#[trigger] flags@[w] <==> reachable(g, s, w)),
                next == rank(g, s, v as int),
                new_waypoints.len() == next,
                forall|w: int|
                    0 <= w < v && #[trigger] reachable(g, s, w) ==> {
                        &&& new_indices@[w] == rank(g, s, w)
                        &&& new_waypoints@[rank(g, s, w) as int] == self.waypoints@[w]
                    },
        {
            proof {
                lemma_rank_le(g, s, 0, v as int);
            }
            assert(rank(g, s, v + 1) == rank(g, s, v as int) + if reachable(g, s, v as int) { 1nat } else { 0nat });
            assert(flags@[v as int] == reachable(g, s, v as int));
            if flags[v] {
                new_waypoints.push(self.waypoints[v]);
                new_indices.set(v, next);
                next = next + 1;
            }
            assert forall|w: int|
                0 <= w < v + 1 && #[trigger] reachable(g, s, w) implies {
                    &&& new_indices@[w] == rank(g, s, w)
                    &&& new_waypoints@[rank(g, s, w) as int] == self.waypoints@[w]
                } by {
                if w < v {
                    lemma_rank_lt(g, s, w, v as int);
                }
            }
        }
        let mut new_edges: Vec<Vec<usize>> = Vec::new();
        for v in 0..n
            invariant
                g == self.graph(),
                self.wf(),
                n == self.waypoints.len(),
                flags.len() == n,
                new_indices.len() == n,
                forall|w: int| 0 <= w < n ==> (#[trigger] flags@[w] <==> reachable(g, s, w)),
                forall|w: int|
                    0 <= w < n && #[trigger] reachable(g, s, w) ==> new_indices@[w] == rank(g, s, w),
                new_edges.len() == rank(g, s, v as int),
                new_waypoints.len() == rank(g, s, n as int),
                forall|w: int|
                    0 <= w < n && #[trigger] reachable(g, s, w) ==> new_waypoints@[rank(g, s, w) as int]
                        == self.waypoints@[w],
                forall|w: int|
                    0 <= w < v && #[trigger] reachable(g, s, w) ==> new_edges@[rank(g, s, w) as int]@
                        == renumbered(g, s, w),
                forall|i: int, j: int|
                    0 <= i < new_edges.len() && 0 <= j < new_edges@[i].len() ==> #[trigger] new_edges@[i]@[j]
                        < rank(g, s, n as int),
        {
            proof {
                lemma_rank_le(g, s, 0, v as int);
            }
            assert(rank(g, s, v + 1) == rank(g, s, v as int) + if reachable(g, s, v as int) { 1nat } else { 0nat });
            assert(flags@[v as int] == reachable(g, s, v as int));
            if flags[v] {
                let mut e: Vec<usize> = Vec::new();
                let m = self.edges[v].len();
                for j in 0..m
                    invariant
                        g == self.graph(),
                        self.wf(),
                        n == self.waypoints.len(),
                        v < n,
                        reachable(g, s, v as int),
                        m == g[v as int].len(),
                        new_indices.len() == n,
                        forall|w: int|
                            0 <= w < n && #[trigger] reachable(g, s, w) ==> new_indices@[w] == rank(g, s, w),
                        e@ == g[v as int].take(j as int).map_values(|u: usize| rank(g, s, u as int) as usize),
                        forall|k: int| 0 <= k < e.len() ==> #[trigger] e@[k] < rank(g, s, n as int),
                {
                    let u = self.edges[v][j];
                    proof {
                        assert(g[v as int][j as int] == u);
                        lemma_reachable_step(g, s, v as int, j as int);
                        lemma_rank_lt(g, s, u as int, n as int);
                    }
                    e.push(new_indices[u]);
                    assert(g[v as int].take(j + 1) =~= g[v as int].take(j as int).push(u));
                }
                assert(g[v as int].take(m as int) =~= g[v as int]);
                assert(e@ =~= renumbered(g, s, v as int));
                new_edges.push(e);
            }
            assert forall|w: int|
                0 <= w < v + 1 && #[trigger] reachable(g, s, w) implies new_edges@[rank(g, s, w) as int]@
                    == renumbered(g, s, w) by {
                if w < v {
                    lemma_rank_lt(g, s, w, v as int);
                }
            }
        }
        let ghost old_waypoints = self.waypoints@;
        *self = NavMesh { waypoints: new_waypoints, edges: new_edges };
        assert forall|v: int, j: int|
            0 <= v < self.graph().len() && 0 <= j < self.graph()[v].len() implies #[trigger] self.graph()[v][j]
                < self.graph().len() by {
            assert(self.edges@[v]@[j] < rank(g, s, n as int));
        }
        assert forall|v: int| 0 <= v < n && #[trigger] reachable(g, s, v) implies {
            let r = rank(g, s, v) as int;
            &&& self.waypoints@[r] == old_waypoints[v]
            &&& self.graph()[r] == renumbered(g, s, v)
        } by {
            let r = rank(g, s, v) as int;
            lemma_rank_lt(g, s, v, n as int);
            assert(self.graph()[r] == self.edges@[r]@);
        }
        proof {
            lemma_pruned_graph_connected(g, s, self.graph());
        }
    }
}

} // verus!
