use crate::edge::link_edge;
use crate::error::Error;
use crate::node::NodeModel;
use crate::store::{has_edge, EdgeEntry, CAPACITY};
use vstd::prelude::*;

verus! {

/// The mathematical content of a graph: its nodes by index, and its edges.
pub struct GraphModel {
    pub nodes: Seq<NodeModel>,
    pub edges: Seq<EdgeEntry>,
}

/// The graph without nodes.
pub open spec fn empty_graph() -> GraphModel {
    GraphModel { nodes: Seq::empty(), edges: Seq::empty() }
}

/// What makes a graph well formed: no node occurs twice, every edge joins
/// two different nodes of the graph, no two edges join the same ordered
/// pair, and the counts stay within what the indices can number.
pub open spec fn well_formed(m: GraphModel) -> bool {
    &&& m.nodes.no_duplicates()
    &&& m.nodes.len() <= CAPACITY
    &&& m.edges.len() <= CAPACITY
    &&& forall|k: int|
        0 <= k < m.edges.len() ==> {
            &&& 0 <= (#[trigger] m.edges[k]).source < m.nodes.len()
            &&& 0 <= m.edges[k].target < m.nodes.len()
            &&& m.edges[k].source != m.edges[k].target
        }
    &&& forall|j: int, k: int|
        0 <= j < k < m.edges.len() ==> !((#[trigger] m.edges[j]).source == (
        #[trigger] m.edges[k]).source && m.edges[j].target == m.edges[k].target)
}

/// The nodes with `n` among them: appended where it was missing.
pub open spec fn with_node(nodes: Seq<NodeModel>, n: NodeModel) -> Seq<NodeModel> {
    if nodes.contains(n) {
        nodes
    } else {
        nodes.push(n)
    }
}

/// The index under which `n` stands in `nodes`.
pub open spec fn index_in(nodes: Seq<NodeModel>, n: NodeModel) -> int {
    choose|i: int| 0 <= i < nodes.len() && nodes[i] == n
}

/// The graph after one link between two resolved nodes was taken in: both
/// nodes are present, and an edge runs from `b` to `a` unless they are the
/// same node or such an edge was there already.
pub open spec fn connect(
    m: GraphModel,
    a: NodeModel,
    input_index: Option<usize>,
    b: NodeModel,
    output_index: Option<usize>,
) -> Result<GraphModel, Error> {
    let nodes = with_node(with_node(m.nodes, a), b);
    let ia = index_in(nodes, a);
    let ib = index_in(nodes, b);
    if nodes.len() > CAPACITY {
        Err(Error::GraphFull)
    } else if a == b || has_edge(m.edges, ib, ia) {
        Ok(GraphModel { nodes, edges: m.edges })
    } else if m.edges.len() >= CAPACITY {
        Err(Error::GraphFull)
    } else {
        Ok(
            GraphModel {
                nodes,
                edges: m.edges.push(
                    EdgeEntry { source: ib, target: ia, weight: link_edge(input_index, output_index) },
                ),
            },
        )
    }
}

/// Among nodes without duplicates, a node stands under one index only.
pub proof fn lemma_index_in(nodes: Seq<NodeModel>, n: NodeModel, i: int)
    requires
        nodes.no_duplicates(),
        0 <= i < nodes.len(),
        nodes[i] == n,
    ensures
        index_in(nodes, n) == i,
{
}

/// Taking a node in keeps what was there, in place, and keeps the nodes distinct.
pub proof fn lemma_with_node(nodes: Seq<NodeModel>, n: NodeModel)
    requires
        nodes.no_duplicates(),
    ensures
        with_node(nodes, n).no_duplicates(),
        with_node(nodes, n).contains(n),
        nodes.len() <= with_node(nodes, n).len() <= nodes.len() + 1,
        forall|i: int| 0 <= i < nodes.len() ==> with_node(nodes, n)[i] == nodes[i],
{
    if !nodes.contains(n) {
        let after = nodes.push(n);
        assert(after[nodes.len() as int] == n);
        assert forall|i: int, j: int| 0 <= i < after.len() && 0 <= j < after.len() && i != j implies after[i]
            != after[j] by {
            if i < nodes.len() && j < nodes.len() {
            } else if i < nodes.len() {
                assert(nodes.contains(nodes[i]));
            } else {
                assert(nodes.contains(nodes[j]));
            }
        }
    }
}

/// Taking a link into a well-formed graph leaves a well-formed graph.
pub proof fn lemma_connect_well_formed(
    m: GraphModel,
    a: NodeModel,
    input_index: Option<usize>,
    b: NodeModel,
    output_index: Option<usize>,
)
    requires
        well_formed(m),
    ensures
        connect(m, a, input_index, b, output_index) is Ok ==> well_formed(
            connect(m, a, input_index, b, output_index).unwrap(),
        ),
{
    let first = with_node(m.nodes, a);
    lemma_with_node(m.nodes, a);
    let nodes = with_node(first, b);
    lemma_with_node(first, b);
    let r = connect(m, a, input_index, b, output_index);
    if r is Ok {
        let g = r.unwrap();
        assert(first.contains(a));
        let ka = choose|k: int| 0 <= k < first.len() && first[k] == a;
        assert(nodes[ka] == a);
        assert(nodes.contains(b));
        let ia = index_in(nodes, a);
        let ib = index_in(nodes, b);
        assert(0 <= ia < nodes.len() && nodes[ia] == a);
        assert(0 <= ib < nodes.len() && nodes[ib] == b);
        if !(a == b || has_edge(m.edges, ib, ia)) {
            let e = EdgeEntry { source: ib, target: ia, weight: link_edge(input_index, output_index) };
            assert(g.edges == m.edges.push(e));
            assert forall|j: int, k: int| 0 <= j < k < g.edges.len() implies !((#[trigger] g.edges[j]).source == (
            #[trigger] g.edges[k]).source && g.edges[j].target == g.edges[k].target) by {
                if k == m.edges.len() {
                    assert(m.edges[j] == g.edges[j]);
                } else {
                    assert(m.edges[j] == g.edges[j]);
                    assert(m.edges[k] == g.edges[k]);
                }
            }
            assert forall|k: int| 0 <= k < g.edges.len() implies {
                &&& 0 <= (#[trigger] g.edges[k]).source < g.nodes.len()
                &&& 0 <= g.edges[k].target < g.nodes.len()
                &&& g.edges[k].source != g.edges[k].target
            } by {
                if k < m.edges.len() {
                    assert(m.edges[k] == g.edges[k]);
                }
            }
        }
    }
}

} // verus!
