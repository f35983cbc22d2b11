//! The inheritance graph: a `petgraph` directed graph whose nodes carry class
//! names and whose edges run from a base type to a type derived from it.
//! What the graph holds is named by `graph_nodes` and `graph_edges`; the
//! wrappers below state how each `petgraph` call changes or reads them.

use vstd::prelude::*;
use vstd::set_lib::*;
use petgraph::graph::{DiGraph, NodeIndex};
use petgraph::visit::EdgeRef;
use crate::cha::types::{InheritanceEdge, InheritanceEdgeType};

verus! {

#[verifier::external_type_specification]
#[verifier::external_body]
#[verifier::reject_recursive_types(N)]
#[verifier::reject_recursive_types(E)]
#[verifier::reject_recursive_types(Ty)]
#[verifier::reject_recursive_types(Ix)]
pub struct ExPetGraph<N, E, Ty, Ix>(petgraph::graph::Graph<N, E, Ty, Ix>);

#[verifier::external_type_specification]
#[verifier::external_body]
pub struct ExPetDirected(petgraph::Directed);

/// The node weights of an inheritance graph, by node index.
pub uninterp spec fn graph_nodes(g: DiGraph<String, InheritanceEdge>) -> Seq<Seq<char>>;

/// The edges of an inheritance graph as (source, target) node indices, by edge index.
pub uninterp spec fn graph_edges(g: DiGraph<String, InheritanceEdge>) -> Seq<(usize, usize)>;

/// The kinds of the edges of an inheritance graph (`edge_type` of each edge
/// weight), by edge index.
pub uninterp spec fn graph_edge_kinds(g: DiGraph<String, InheritanceEdge>) -> Seq<InheritanceEdgeType>;

/// The largest number of nodes (and of edges) a graph with `u32` indices can hold.
pub open spec fn graph_capacity() -> nat {
    0xffff_fffe
}

/// `(a, b)` is one of the edges.
pub open spec fn has_edge(edges: Seq<(usize, usize)>, a: usize, b: usize) -> bool {
    exists|i: int| 0 <= i < edges.len() && #[trigger] edges[i] == (a, b)
}

/// Every edge joins two of the `n` nodes.
pub open spec fn edges_within(edges: Seq<(usize, usize)>, n: nat) -> bool {
    forall|i: int| 0 <= i < edges.len() ==> (#[trigger] edges[i]).0 < n && edges[i].1 < n
}

/// The targets of the edges leaving `a`, the most recently added edge first.
pub open spec fn targets_newest_first(edges: Seq<(usize, usize)>, a: usize) -> Seq<usize>
    decreases edges.len(),
{
    if edges.len() == 0 {
        Seq::empty()
    } else {
        let rest = targets_newest_first(edges.drop_last(), a);
        if edges.last().0 == a {
            seq![edges.last().1] + rest
        } else {
            rest
        }
    }
}

/// The sources of the edges entering `a`, the most recently added edge first.
pub open spec fn sources_newest_first(edges: Seq<(usize, usize)>, a: usize) -> Seq<usize>
    decreases edges.len(),
{
    if edges.len() == 0 {
        Seq::empty()
    } else {
        let rest = sources_newest_first(edges.drop_last(), a);
        if edges.last().1 == a {
            seq![edges.last().0] + rest
        } else {
            rest
        }
    }
}

/// Every edge turned around.
pub open spec fn reversed(edges: Seq<(usize, usize)>) -> Seq<(usize, usize)> {
    Seq::new(edges.len(), |i: int| (edges[i].1, edges[i].0))
}

/// `p` is a walk along the edges: one or more nodes, each joined to the next by an edge.
pub open spec fn is_walk(edges: Seq<(usize, usize)>, p: Seq<usize>) -> bool {
    &&& p.len() >= 1
    &&& forall|i: int| 0 <= i < p.len() - 1 ==> #[trigger] has_edge(edges, p[i], p[i + 1])
}

/// There is a walk (possibly of no edge) from `a` to `b`.
pub open spec fn reaches(edges: Seq<(usize, usize)>, a: usize, b: usize) -> bool {
    exists|p: Seq<usize>| #[trigger] is_walk(edges, p) && p[0] == a && p.last() == b
}

/// `v` lies on a cycle: a walk of one or more edges leads from `v` back to `v`.
pub open spec fn on_cycle(edges: Seq<(usize, usize)>, v: usize) -> bool {
    exists|p: Seq<usize>| #[trigger] is_walk(edges, p) && p.len() >= 2 && p[0] == v && p.last() == v
}

/// No node lies on a cycle.
pub open spec fn acyclic(edges: Seq<(usize, usize)>) -> bool {
    forall|v: usize| !#[trigger] on_cycle(edges, v)
}

/// `Graph::new`: a graph with no node and no edge.
#[verifier::external_body]
pub(crate) fn graph_new() -> (g: DiGraph<String, InheritanceEdge>)
    ensures
        graph_nodes(g) == Seq::<Seq<char>>::empty(),
        graph_edges(g) == Seq::<(usize, usize)>::empty(),
        graph_edge_kinds(g) == Seq::<InheritanceEdgeType>::empty(),
{
    DiGraph::new()
}

/// `Graph::node_count`: the number of nodes.
#[verifier::external_body]
pub(crate) fn graph_node_count(g: &DiGraph<String, InheritanceEdge>) -> (n: usize)
    ensures
        n == graph_nodes(*g).len(),
{
    g.node_count()
}

/// `Graph::edge_count`: the number of edges.
#[verifier::external_body]
pub(crate) fn graph_edge_count(g: &DiGraph<String, InheritanceEdge>) -> (n: usize)
    ensures
        n == graph_edges(*g).len(),
{
    g.edge_count()
}

/// `Graph::add_node`: appends a node with the given weight and returns its index,
/// which is the number of nodes before the call. It panics when the `u32` index
/// space is full, which `requires` rules out.
#[verifier::external_body]
pub(crate) fn graph_add_node(g: &mut DiGraph<String, InheritanceEdge>, weight: String) -> (idx: usize)
    requires
        graph_nodes(*old(g)).len() < graph_capacity(),
    ensures
        idx == graph_nodes(*old(g)).len(),
        graph_nodes(*final(g)) == graph_nodes(*old(g)).push(weight@),
        graph_edges(*final(g)) == graph_edges(*old(g)),
        graph_edge_kinds(*final(g)) == graph_edge_kinds(*old(g)),
{
    g.add_node(weight).index()
}

/// `Graph::add_edge`: appends an edge from `a` to `b` with the given weight. It
/// panics when either node does not exist or the edge index space is full,
/// which `requires` rules out. Of the weight, its kind is described.
#[verifier::external_body]
pub(crate) fn graph_add_edge(g: &mut DiGraph<String, InheritanceEdge>, a: usize, b: usize, weight: InheritanceEdge)
    requires
        a < graph_nodes(*old(g)).len(),
        b < graph_nodes(*old(g)).len(),
        graph_edges(*old(g)).len() < graph_capacity(),
    ensures
        graph_nodes(*final(g)) == graph_nodes(*old(g)),
        graph_edges(*final(g)) == graph_edges(*old(g)).push((a, b)),
        graph_edge_kinds(*final(g)) == graph_edge_kinds(*old(g)).push(weight.edge_type),
{
    g.add_edge(NodeIndex::new(a), NodeIndex::new(b), weight);
}

/// `Graph::edges_directed(a, Outgoing)` mapped to the edge targets: for a directed
/// graph the edges come in reverse order of their addition.
#[verifier::external_body]
pub(crate) fn graph_children(g: &DiGraph<String, InheritanceEdge>, a: usize) -> (res: Vec<usize>)
    requires
        a < graph_nodes(*g).len(),
    ensures
        res@ == targets_newest_first(graph_edges(*g), a),
{
    let mut res = Vec::new();
    for e in g.edges_directed(NodeIndex::new(a), petgraph::Direction::Outgoing) {
        res.push(e.target().index());
    }
    res
}

/// `Graph::edges_directed(a, Incoming)` mapped to the edge sources: for a directed
/// graph the edges come in reverse order of their addition.
#[verifier::external_body]
pub(crate) fn graph_parents(g: &DiGraph<String, InheritanceEdge>, a: usize) -> (res: Vec<usize>)
    requires
        a < graph_nodes(*g).len(),
    ensures
        res@ == sources_newest_first(graph_edges(*g), a),
{
    let mut res = Vec::new();
    for e in g.edges_directed(NodeIndex::new(a), petgraph::Direction::Incoming) {
        res.push(e.source().index());
    }
    res
}

/// `petgraph::algo::toposort`, reduced to its outcome: `None` when the graph is
/// acyclic (the sort succeeds), otherwise `Some` of the node that the returned
/// `Cycle` names, which participates in a cycle. Which node of a cycle is named
/// is left unsaid.
#[verifier::external_body]
pub(crate) fn graph_cycle_node(g: &DiGraph<String, InheritanceEdge>) -> (res: Option<usize>)
    ensures
        res is None <==> acyclic(graph_edges(*g)),
        res matches Some(v) ==> v < graph_nodes(*g).len() && on_cycle(graph_edges(*g), v),
{
    match petgraph::algo::toposort(g, None) {
        Ok(_) => None,
        Err(cycle) => Some(cycle.node_id().index()),
    }
}

/// Membership in `targets_newest_first` is having an edge.
pub proof fn lemma_targets_contains(edges: Seq<(usize, usize)>, a: usize, w: usize)
    ensures
        targets_newest_first(edges, a).contains(w) <==> has_edge(edges, a, w),
    decreases edges.len(),
{
    if edges.len() > 0 {
        let init = edges.drop_last();
        lemma_targets_contains(init, a, w);
        let rest = targets_newest_first(init, a);
        if has_edge(edges, a, w) {
            let i = choose|i: int| 0 <= i < edges.len() && #[trigger] edges[i] == (a, w);
            if i < edges.len() - 1 {
                assert(init[i] == (a, w));
            }
        }
        if has_edge(init, a, w) {
            let i = choose|i: int| 0 <= i < init.len() && #[trigger] init[i] == (a, w);
            assert(edges[i] == (a, w));
        }
        if edges.last().0 == a {
            let s = seq![edges.last().1] + rest;
            assert(s[0] == edges.last().1);
            assert forall|x: usize| s.contains(x) <==> (x == edges.last().1 || rest.contains(x)) by {
                if rest.contains(x) {
                    let j = choose|j: int| 0 <= j < rest.len() && rest[j] == x;
                    assert(s[j + 1] == x);
                }
                if s.contains(x) && x != edges.last().1 {
                    let j = choose|j: int| 0 <= j < s.len() && s[j] == x;
                    assert(rest[j - 1] == x);
                }
            }
            if w == edges.last().1 {
                assert(edges[edges.len() - 1] == (a, w));
            }
        }
    }
}

/// `sources_newest_first` is `targets_newest_first` of the reversed edges.
pub proof fn lemma_sources_reversed(edges: Seq<(usize, usize)>, a: usize)
    ensures
        sources_newest_first(edges, a) == targets_newest_first(reversed(edges), a),
    decreases edges.len(),
{
    if edges.len() > 0 {
        lemma_sources_reversed(edges.drop_last(), a);
        assert(reversed(edges).drop_last() =~= reversed(edges.drop_last()));
    }
}

/// An edge of the graph is an edge, turned around, of the reversed graph.
pub proof fn lemma_reversed_edge(edges: Seq<(usize, usize)>, a: usize, b: usize)
    ensures
        has_edge(reversed(edges), a, b) <==> has_edge(edges, b, a),
{
    let r = reversed(edges);
    if has_edge(r, a, b) {
        let i = choose|i: int| 0 <= i < r.len() && #[trigger] r[i] == (a, b);
        assert(edges[i] == (b, a));
    }
    if has_edge(edges, b, a) {
        let i = choose|i: int| 0 <= i < edges.len() && #[trigger] edges[i] == (b, a);
        assert(r[i] == (a, b));
    }
}

/// Walks of the reversed graph are the walks of the graph read backwards.
pub proof fn lemma_reaches_reversed(edges: Seq<(usize, usize)>, a: usize, b: usize)
    ensures
        reaches(reversed(edges), a, b) <==> reaches(edges, b, a),
{
    if reaches(reversed(edges), a, b) {
        let p = choose|p: Seq<usize>| #[trigger] is_walk(reversed(edges), p) && p[0] == a && p.last() == b;
        let q = p.reverse();
        assert forall|i: int| 0 <= i < q.len() - 1 implies #[trigger] has_edge(edges, q[i], q[i + 1]) by {
            let j = p.len() - 2 - i;
            assert(has_edge(reversed(edges), p[j], p[j + 1]));
            lemma_reversed_edge(edges, p[j], p[j + 1]);
        }
        assert(is_walk(edges, q));
    }
    if reaches(edges, b, a) {
        let p = choose|p: Seq<usize>| #[trigger] is_walk(edges, p) && p[0] == b && p.last() == a;
        let q = p.reverse();
        assert forall|i: int| 0 <= i < q.len() - 1 implies #[trigger] has_edge(reversed(edges), q[i], q[i + 1]) by {
            let j = p.len() - 2 - i;
            assert(has_edge(edges, p[j], p[j + 1]));
            lemma_reversed_edge(edges, q[i], q[i + 1]);
        }
        assert(is_walk(reversed(edges), q));
    }
}

/// A node reaches itself.
pub proof fn lemma_reaches_self(edges: Seq<(usize, usize)>, a: usize)
    ensures
        reaches(edges, a, a),
{
    let p = seq![a];
    assert(is_walk(edges, p));
}

/// A walk to `v` followed by an edge from `v` is a walk.
pub proof fn lemma_reaches_step(edges: Seq<(usize, usize)>, a: usize, v: usize, w: usize)
    requires
        reaches(edges, a, v),
        has_edge(edges, v, w),
    ensures
        reaches(edges, a, w),
{
    let p = choose|p: Seq<usize>| #[trigger] is_walk(edges, p) && p[0] == a && p.last() == v;
    let q = p.push(w);
    assert forall|i: int| 0 <= i < q.len() - 1 implies #[trigger] has_edge(edges, q[i], q[i + 1]) by {
        if i < p.len() - 1 {
            assert(has_edge(edges, p[i], p[i + 1]));
        }
    }
    assert(is_walk(edges, q));
}

/// Two walks that meet make one walk.
pub proof fn lemma_walk_concat(edges: Seq<(usize, usize)>, p: Seq<usize>, q: Seq<usize>)
    requires
        is_walk(edges, p),
        is_walk(edges, q),
        p.last() == q[0],
    ensures
        is_walk(edges, p + q.drop_first()),
        (p + q.drop_first())[0] == p[0],
        (p + q.drop_first()).last() == q.last(),
        (p + q.drop_first()).len() == p.len() + q.len() - 1,
{
    let r = p + q.drop_first();
    assert forall|i: int| 0 <= i < r.len() - 1 implies #[trigger] has_edge(edges, r[i], r[i + 1]) by {
        if i < p.len() - 1 {
            assert(has_edge(edges, p[i], p[i + 1]));
        } else {
            let k = i - (p.len() - 1);
            assert(has_edge(edges, q[k], q[k + 1]));
            if i == p.len() - 1 {
                assert(r[i] == p.last());
            } else {
                assert(r[i] == q[k]);
            }
            assert(r[i + 1] == q[k + 1]);
        }
    }
    if q.len() == 1 {
        assert(r =~= p);
    }
}

/// Reachability is transitive.
pub proof fn lemma_reaches_trans(edges: Seq<(usize, usize)>, a: usize, b: usize, c: usize)
    requires
        reaches(edges, a, b),
        reaches(edges, b, c),
    ensures
        reaches(edges, a, c),
{
    let p = choose|p: Seq<usize>| #[trigger] is_walk(edges, p) && p[0] == a && p.last() == b;
    let q = choose|q: Seq<usize>| #[trigger] is_walk(edges, q) && q[0] == b && q.last() == c;
    lemma_walk_concat(edges, p, q);
    assert(is_walk(edges, p + q.drop_first()));
}

/// Two distinct nodes that reach each other lie on a cycle.
pub proof fn lemma_mutual_reach_cycle(edges: Seq<(usize, usize)>, a: usize, b: usize)
    requires
        reaches(edges, a, b),
        reaches(edges, b, a),
        a != b,
    ensures
        on_cycle(edges, a),
{
    let p = choose|p: Seq<usize>| #[trigger] is_walk(edges, p) && p[0] == a && p.last() == b;
    let q = choose|q: Seq<usize>| #[trigger] is_walk(edges, q) && q[0] == b && q.last() == a;
    lemma_walk_concat(edges, p, q);
    assert(p.len() >= 2);
    assert(is_walk(edges, p + q.drop_first()));
}

/// A set of nodes that holds the start of a walk and is closed under edges holds its end.
pub proof fn lemma_closed_walk(edges: Seq<(usize, usize)>, marked: Seq<bool>, p: Seq<usize>)
    requires
        is_walk(edges, p),
        p[0] < marked.len(),
        marked[p[0] as int],
        forall|v: usize, w: usize|
            v < marked.len() && marked[v as int] && #[trigger] has_edge(edges, v, w) ==> w < marked.len() && marked[w as int],
    ensures
        p.last() < marked.len(),
        marked[p.last() as int],
    decreases p.len(),
{
    if p.len() > 1 {
        let q = p.drop_last();
        assert forall|i: int| 0 <= i < q.len() - 1 implies #[trigger] has_edge(edges, q[i], q[i + 1]) by {
            assert(has_edge(edges, p[i], p[i + 1]));
        }
        lemma_closed_walk(edges, marked, q);
        let i = p.len() - 2;
        assert(has_edge(edges, p[i], p[i + 1]));
    }
}

/// Marks every node that can be reached from `start`: along the edges when
/// `forward`, against them otherwise. Returns one flag per node.
pub(crate) fn reachable_from(g: &DiGraph<String, InheritanceEdge>, start: usize, forward: bool) -> (visited: Vec<bool>)
    requires
        start < graph_nodes(*g).len(),
        edges_within(graph_edges(*g), graph_nodes(*g).len()),
    ensures
        visited.len() == graph_nodes(*g).len(),
        forall|v: usize| v < visited.len() ==> (#[trigger] visited@[v as int] <==> if forward {
            reaches(graph_edges(*g), start, v)
        } else {
            reaches(graph_edges(*g), v, start)
        }),
{
    let ghost edges = graph_edges(*g);
    let ghost walk_edges = if forward { edges } else { reversed(edges) };
    let n = graph_node_count(g);
    proof {
        if !forward {
            assert forall|i: int| 0 <= i < walk_edges.len() implies (#[trigger] walk_edges[i]).0 < n && walk_edges[i].1 < n by {
                assert(edges[i].0 < n && edges[i].1 < n);
            }
        }
    }
    let mut visited: Vec<bool> = Vec::new();
    let mut i: usize = 0;
    while i < n
        invariant
            i <= n,
            visited.len() == i,
            forall|j: int| 0 <= j < i ==> !visited@[j],
        decreases n - i,
    {
        visited.push(false);
        i = i + 1;
    }
    visited.set(start, true);
    let ghost mut vset: Set<int> = set![start as int];
    let mut stack: Vec<usize> = Vec::new();
    stack.push(start);
    proof {
        lemma_reaches_self(walk_edges, start);
        assert(vset =~= Set::new(|v: int| 0 <= v < n && visited@[v]));
        assert(stack@[0] == start);
        lemma_int_range(0, n as int);
        lemma_len_subset(vset, set_int_range(0, n as int));
    }
    while stack.len() > 0
        invariant
            n == graph_nodes(*g).len(),
            edges == graph_edges(*g),
            walk_edges == (if forward { edges } else { reversed(edges) }),
            edges_within(walk_edges, n as nat),
            visited.len() == n,
            start < n,
            visited@[start as int],
            vset == Set::new(|v: int| 0 <= v < n && visited@[v]),
            vset.finite(),
            vset.len() <= n,
            forall|v: usize| v < n && #[trigger] visited@[v as int] ==> reaches(walk_edges, start, v),
            forall|j: int| 0 <= j < stack.len() ==> stack@[j] < n && visited@[stack@[j] as int],
            forall|v: usize, w: usize|
                v < n && visited@[v as int] && !stack@.contains(v) && #[trigger] has_edge(walk_edges, v, w)
                    ==> visited@[w as int],
        decreases n - vset.len(), stack.len(),
    {
        let ghost stack_before_pop = stack@;
        let v = stack.pop().unwrap();
        proof {
            assert(stack_before_pop == stack@.push(v));
            assert(stack_before_pop[stack_before_pop.len() - 1] == v);
        }
        let ghost len_after_pop = stack.len();
        let next = if forward { graph_children(g, v) } else { graph_parents(g, v) };
        proof {
            if !forward {
                lemma_sources_reversed(edges, v);
            }
            assert forall|x: usize, w: usize|
                x < n && visited@[x as int] && !stack@.contains(x) && x != v && #[trigger] has_edge(walk_edges, x, w)
                    implies visited@[w as int] by {
                if stack_before_pop.contains(x) {
                    let j = choose|j: int| 0 <= j < stack_before_pop.len() && stack_before_pop[j] == x;
                    if j < stack.len() {
                        assert(stack@[j] == x);
                    }
                }
            }
        }
        proof {
            assert forall|j: int| 0 <= j < next.len() implies #[trigger] next@[j] < n by {
                assert(next@.contains(next@[j]));
                lemma_targets_contains(walk_edges, v, next@[j]);
                let idx = choose|idx: int| 0 <= idx < walk_edges.len() && #[trigger] walk_edges[idx] == (v, next@[j]);
                assert(walk_edges[idx].1 < n);
            }
        }
        let ghost vset_before = vset;
        let mut k: usize = 0;
        while k < next.len()
            invariant
                n == graph_nodes(*g).len(),
                edges == graph_edges(*g),
                walk_edges == (if forward { edges } else { reversed(edges) }),
                edges_within(walk_edges, n as nat),
                next@ == targets_newest_first(walk_edges, v),
                forall|j: int| 0 <= j < next.len() ==> #[trigger] next@[j] < n,
                v < n,
                visited@[v as int],
                reaches(walk_edges, start, v),
                k <= next.len(),
                visited.len() == n,
                start < n,
                visited@[start as int],
                vset == Set::new(|x: int| 0 <= x < n && visited@[x]),
                vset.finite(),
                vset.len() <= n,
                vset_before.len() <= vset.len(),
                stack.len() == len_after_pop + (vset.len() - vset_before.len()),
                forall|x: usize| x < n && #[trigger] visited@[x as int] ==> reaches(walk_edges, start, x),
                forall|j: int| 0 <= j < stack.len() ==> stack@[j] < n && visited@[stack@[j] as int],
                forall|j: int| 0 <= j < k ==> visited@[#[trigger] next@[j] as int],
                forall|x: usize, w: usize|
                    x < n && visited@[x as int] && !stack@.contains(x) && x != v && #[trigger] has_edge(walk_edges, x, w)
                        ==> visited@[w as int],
            decreases next.len() - k,
        {
            let w = next[k];
            proof {
                assert(next@[k as int] == w);
                assert(next@.contains(w));
                lemma_targets_contains(walk_edges, v, w);
                let idx = choose|idx: int| 0 <= idx < walk_edges.len() && #[trigger] walk_edges[idx] == (v, w);
                assert(walk_edges[idx].1 < n);
            }
            if !visited[w] {
                let ghost old_stack = stack@;
                let ghost old_visited = visited@;
                let ghost old_vset = vset;
                visited.set(w, true);
                stack.push(w);
                proof {
                    lemma_reaches_step(walk_edges, start, v, w);
                    assert(!old_vset.contains(w as int));
                    vset = vset.insert(w as int);
                    assert(vset =~= Set::new(|x: int| 0 <= x < n && visited@[x]));
                    lemma_int_range(0, n as int);
                    lemma_len_subset(vset, set_int_range(0, n as int));
                    assert(stack@ == old_stack.push(w));
                    assert(stack@[stack@.len() - 1] == w);
                    assert forall|x: usize, y: usize|
                        x < n && visited@[x as int] && !stack@.contains(x) && x != v && #[trigger] has_edge(walk_edges, x, y)
                            implies visited@[y as int] by {
                        if old_stack.contains(x) {
                            let j = choose|j: int| 0 <= j < old_stack.len() && old_stack[j] == x;
                            assert(stack@[j] == x);
                        }
                        assert(old_visited[x as int]);
                    }
                    assert(visited@ == old_visited.update(w as int, true));
                    assert forall|j: int| 0 <= j < k + 1 implies visited@[#[trigger] next@[j] as int] by {
                        if j < k {
                            assert(old_visited[next@[j] as int]);
                        }
                    }
                }
            }
            k = k + 1;
        }
        proof {
            assert forall|w: usize| #[trigger] has_edge(walk_edges, v, w) implies visited@[w as int] by {
                lemma_targets_contains(walk_edges, v, w);
                let j = choose|j: int| 0 <= j < next.len() && next@[j] == w;
                assert(visited@[next@[j] as int]);
            }
        }
    }
    proof {
        assert forall|v: usize| v < n implies (#[trigger] visited@[v as int] <==> reaches(walk_edges, start, v)) by {
            if reaches(walk_edges, start, v) {
                let p = choose|p: Seq<usize>| #[trigger] is_walk(walk_edges, p) && p[0] == start && p.last() == v;
                assert forall|a: usize, b: usize|
                    a < visited@.len() && visited@[a as int] && #[trigger] has_edge(walk_edges, a, b)
                        implies b < visited@.len() && visited@[b as int] by {
                    let idx = choose|idx: int| 0 <= idx < walk_edges.len() && #[trigger] walk_edges[idx] == (a, b);
                    assert(walk_edges[idx].1 < n);
                }
                assert(visited@[start as int]);
                lemma_closed_walk(walk_edges, visited@, p);
            }
        }
        if !forward {
            assert forall|v: usize| v < n implies (#[trigger] visited@[v as int] <==> reaches(edges, v, start)) by {
                lemma_reaches_reversed(edges, start, v);
            }
        }
    }
    visited
}

} // verus!
