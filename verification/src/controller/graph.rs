//! The dependency graph of `petgraph`, with nodes numbered by position.

use petgraph::graphmap::DiGraphMap;
use vstd::prelude::*;

verus! {

/// The graph of `petgraph` (`petgraph::graphmap::GraphMap`), known here through the names
/// `graph_nodes` and `graph_edges`.
#[verifier::external_type_specification]
#[verifier::external_body]
#[verifier::reject_recursive_types(N)]
#[verifier::reject_recursive_types(E)]
#[verifier::reject_recursive_types(Ty)]
#[verifier::reject_recursive_types(S)]
pub struct ExGraphMap<N, E, Ty, S = std::hash::RandomState>(
    petgraph::graphmap::GraphMap<N, E, Ty, S>,
) where S: std::hash::BuildHasher;

/// The marker of directed graphs of `petgraph` (`petgraph::Directed`).
#[verifier::external_type_specification]
#[verifier::external_body]
pub struct ExDirected(petgraph::Directed);

/// The nodes of a dependency graph.
pub uninterp spec fn graph_nodes(g: DiGraphMap<usize, ()>) -> Set<usize>;

/// The edges of a dependency graph, each from a node to its successor.
pub uninterp spec fn graph_edges(g: DiGraphMap<usize, ()>) -> Set<(usize, usize)>;

/// `order` lists `nodes` once each, every edge going from an earlier to a later position.
pub open spec fn is_topological_order(
    order: Seq<usize>,
    nodes: Set<usize>,
    edges: Set<(usize, usize)>,
) -> bool {
    &&& order.no_duplicates()
    &&& forall|n: usize| order.contains(n) <==> nodes.contains(n)
    &&& forall|i: int, j: int|
        0 <= i < order.len() && 0 <= j < order.len() && edges.contains((order[i], order[j]))
            ==> i < j
}

/// `path` follows edges from its first node to its last.
pub open spec fn is_path(path: Seq<usize>, edges: Set<(usize, usize)>) -> bool {
    forall|k: int| 0 <= k < path.len() - 1 ==> edges.contains((#[trigger] path[k], path[k + 1]))
}

/// The node `n` lies on a cycle: a path of at least one edge leads from `n` back to it.
pub open spec fn on_cycle(n: usize, edges: Set<(usize, usize)>) -> bool {
    exists|path: Seq<usize>|
        path.len() >= 2 && path[0] == n && path.last() == n && #[trigger] is_path(path, edges)
}

/// An empty graph (`DiGraphMap::new`).
#[verifier::external_body]
pub(crate) fn graph_new() -> (g: DiGraphMap<usize, ()>)
    ensures
        graph_nodes(g) == Set::<usize>::empty(),
        graph_edges(g) == Set::<(usize, usize)>::empty(),
{
    DiGraphMap::new()
}

/// Adds the node `n` (`GraphMap::add_node`); a node already there stays as it is.
#[verifier::external_body]
pub(crate) fn graph_add_node(g: &mut DiGraphMap<usize, ()>, n: usize)
    ensures
        graph_nodes(*final(g)) == graph_nodes(*old(g)).insert(n),
        graph_edges(*final(g)) == graph_edges(*old(g)),
{
    g.add_node(n);
}

/// Adds the edge from `a` to `b` (`GraphMap::add_edge`), and its end nodes where they are
/// not there yet; an edge already there stays one edge.
#[verifier::external_body]
pub(crate) fn graph_add_edge(g: &mut DiGraphMap<usize, ()>, a: usize, b: usize)
    ensures
        graph_nodes(*final(g)) == graph_nodes(*old(g)).insert(a).insert(b),
        graph_edges(*final(g)) == graph_edges(*old(g)).insert((a, b)),
{
    g.add_edge(a, b, ());
}

/// Sorts the graph topologically (`petgraph::algo::toposort`). An order lists every node once,
/// each before its successors; a cycle is reported by a node on it, a node with an edge to
/// itself being a cycle too.
#[verifier::external_body]
pub(crate) fn graph_toposort(g: &DiGraphMap<usize, ()>) -> (res: Result<Vec<usize>, usize>)
    ensures
        res matches Ok(order) ==> is_topological_order(order@, graph_nodes(*g), graph_edges(*g)),
        res matches Err(n) ==> graph_nodes(*g).contains(n) && on_cycle(n, graph_edges(*g)),
{
    match petgraph::algo::toposort(g, None) {
        Ok(order) => Ok(order),
        Err(cycle) => Err(cycle.node_id()),
    }
}

} // verus!
