use crate::edge::{Edge, EdgeModel};
use crate::node::{Node, NodeModel};
use petgraph::dot::Dot;
use petgraph::graph::{EdgeIndex, Graph, NodeIndex};
use vstd::prelude::*;

verus! {

/// `petgraph::graph::Graph`, held as an opaque value: what it holds is
/// spoken of through [`graph_nodes`] and [`graph_edges`] only.
#[verifier::external_type_specification]
#[verifier::external_body]
#[verifier::reject_recursive_types(N)]
#[verifier::reject_recursive_types(E)]
#[verifier::reject_recursive_types(Ty)]
#[verifier::reject_recursive_types(Ix)]
pub struct ExGraph<N, E, Ty, Ix>(Graph<N, E, Ty, Ix>);

/// `petgraph::Directed`, the marker of a graph whose edges have a direction.
#[verifier::external_type_specification]
#[verifier::external_body]
pub struct ExDirected(petgraph::Directed);

/// `petgraph::graph::EdgeIndex`, held as an opaque value.
#[verifier::external_type_specification]
#[verifier::external_body]
#[verifier::reject_recursive_types(Ix)]
pub struct ExEdgeIndex<Ix>(EdgeIndex<Ix>);

/// One edge as the store holds it: the positions of its two ends and its weight.
pub struct EdgeEntry {
    pub source: int,
    pub target: int,
    pub weight: EdgeModel,
}

/// The node weights that a graph holds, by node index.
pub uninterp spec fn graph_nodes(g: Graph<Node, Edge>) -> Seq<NodeModel>;

/// The edges that a graph holds, by edge index.
pub uninterp spec fn graph_edges(g: Graph<Node, Edge>) -> Seq<EdgeEntry>;

/// The largest number of nodes, and of edges, that a graph indexed by `u32` takes.
pub const CAPACITY: usize = 0xFFFF_FFFF;

/// `Graph::new`: a directed graph without nodes or edges.
#[verifier::external_body]
pub(crate) fn graph_new() -> (g: Graph<Node, Edge>)
    ensures
        graph_nodes(g) == Seq::<NodeModel>::empty(),
        graph_edges(g) == Seq::<EdgeEntry>::empty(),
{
    Graph::new()
}

/// `Graph::node_count`: the number of nodes held.
#[verifier::external_body]
pub(crate) fn graph_node_count(g: &Graph<Node, Edge>) -> (n: usize)
    ensures
        n == graph_nodes(*g).len(),
{
    g.node_count()
}

/// `Graph::edge_count`: the number of edges held.
#[verifier::external_body]
pub(crate) fn graph_edge_count(g: &Graph<Node, Edge>) -> (n: usize)
    ensures
        n == graph_edges(*g).len(),
{
    g.edge_count()
}

/// `Graph::add_node`: the weight is appended to the nodes, the edges stay,
/// and the index of the new node is the number of nodes held before. The
/// call panics on a graph that holds `u32::MAX` nodes, which is excluded.
#[verifier::external_body]
pub(crate) fn graph_add_node(g: &mut Graph<Node, Edge>, weight: Node) -> (index: usize)
    requires
        graph_nodes(*old(g)).len() < CAPACITY,
    ensures
        graph_nodes(*final(g)) == graph_nodes(*old(g)).push(weight@),
        graph_edges(*final(g)) == graph_edges(*old(g)),
        index == graph_nodes(*old(g)).len(),
{
    g.add_node(weight).index()
}

/// `Graph::add_edge`: an edge from `a` to `b` is appended to the edges and
/// the nodes stay. The call panics where an end is no node of the graph or
/// the graph holds `u32::MAX` edges; both are excluded.
#[verifier::external_body]
pub(crate) fn graph_add_edge(g: &mut Graph<Node, Edge>, a: usize, b: usize, weight: Edge) -> (index: usize)
    requires
        a < graph_nodes(*old(g)).len(),
        b < graph_nodes(*old(g)).len(),
        graph_nodes(*old(g)).len() <= CAPACITY,
        graph_edges(*old(g)).len() < CAPACITY,
    ensures
        graph_nodes(*final(g)) == graph_nodes(*old(g)),
        graph_edges(*final(g)) == graph_edges(*old(g)).push(
            (EdgeEntry { source: a as int, target: b as int, weight: weight@ }),
        ),
        index == graph_edges(*old(g)).len(),
{
    g.add_edge(NodeIndex::new(a), NodeIndex::new(b), weight).index()
}

/// Whether some edge of `edges` runs from `a` to `b`.
pub open spec fn has_edge(edges: Seq<EdgeEntry>, a: int, b: int) -> bool {
    exists|k: int| 0 <= k < edges.len() && (#[trigger] edges[k]).source == a && edges[k].target == b
}

/// `Graph::find_edge` on a directed graph: an edge index comes back exactly
/// when some edge runs from `a` to `b`.
#[verifier::external_body]
pub(crate) fn graph_find_edge(g: &Graph<Node, Edge>, a: usize, b: usize) -> (found: Option<EdgeIndex<u32>>)
    requires
        a < graph_nodes(*g).len(),
        b < graph_nodes(*g).len(),
        graph_nodes(*g).len() <= CAPACITY,
    ensures
        found.is_some() == has_edge(graph_edges(*g), a as int, b as int),
{
    g.find_edge(NodeIndex::new(a), NodeIndex::new(b))
}

/// `Graph::edge_endpoints`: the two ends of the edge with index `k`.
#[verifier::external_body]
pub(crate) fn graph_edge_endpoints(g: &Graph<Node, Edge>, k: usize) -> (ends: Option<(usize, usize)>)
    requires
        k < graph_edges(*g).len(),
        graph_edges(*g).len() <= CAPACITY,
    ensures
        ends is Some,
        ends.unwrap().0 == graph_edges(*g)[k as int].source,
        ends.unwrap().1 == graph_edges(*g)[k as int].target,
{
    match g.edge_endpoints(EdgeIndex::new(k)) {
        Some((a, b)) => Some((a.index(), b.index())),
        None => None,
    }
}

/// `Graph::edge_weight`: the weight of the edge with index `k`.
#[verifier::external_body]
pub(crate) fn graph_edge_weight(g: &Graph<Node, Edge>, k: usize) -> (weight: Option<&Edge>)
    requires
        k < graph_edges(*g).len(),
        graph_edges(*g).len() <= CAPACITY,
    ensures
        weight is Some,
        weight.unwrap()@ == graph_edges(*g)[k as int].weight,
{
    g.edge_weight(EdgeIndex::new(k))
}

/// The text that `Dot` writes for a graph with these nodes and edges.
pub uninterp spec fn dot_text(nodes: Seq<NodeModel>, edges: Seq<EdgeEntry>) -> Seq<char>;

/// `Dot::new` and its `Debug` output: the description of the graph in the
/// DOT language, one line for each node and for each edge in index order,
/// labelled with the `Debug` text of the weights.
#[verifier::external_body]
pub(crate) fn graph_dot(g: &Graph<Node, Edge>) -> (text: String)
    ensures
        text@ == dot_text(graph_nodes(*g), graph_edges(*g)),
{
    format!("{:?}", Dot::new(g))
}

} // verus!
