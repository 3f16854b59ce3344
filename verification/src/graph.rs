use crate::edge::Edge;
use crate::error::Error;
use crate::model::{connect, empty_graph, index_in, lemma_connect_well_formed, lemma_index_in, lemma_with_node, well_formed, with_node, GraphModel};
use crate::node::Node;
use crate::store::{
    dot_text, graph_add_edge, graph_add_node, graph_dot, graph_edge_count, graph_edge_endpoints,
    graph_edge_weight, graph_edges, graph_find_edge, graph_new, graph_node_count, graph_nodes,
    has_edge, CAPACITY,
};
use petgraph::graph::Graph;
use vstd::prelude::*;

verus! {

/// A directed graph of distinct nodes, with at most one edge for each
/// ordered pair of them, together with the list by which a node is found
/// again.
pub struct DepGraph {
    graph: Graph<Node, Edge>,
    known: Vec<Node>,
}

impl View for DepGraph {
    type V = GraphModel;

    closed spec fn view(&self) -> GraphModel {
        GraphModel { nodes: graph_nodes(self.graph), edges: graph_edges(self.graph) }
    }
}

/// The view of an attempt to build or extend a graph.
pub open spec fn built(r: Result<DepGraph, Error>) -> Result<GraphModel, Error> {
    match r {
        Ok(g) => Ok(g@),
        Err(e) => Err(e),
    }
}

impl DepGraph {
    /// The graph is well formed, and the list of known nodes holds the
    /// graph's nodes in the order of their indices.
    pub closed spec fn wf(&self) -> bool {
        &&& well_formed(self@)
        &&& self.known@.len() == self@.nodes.len()
        &&& forall|i: int| 0 <= i < self.known@.len() ==> (#[trigger] self.known@[i])@ == self@.nodes[i]
    }

    /// A well-formed graph has a well-formed content.
    pub proof fn lemma_wf(&self)
        requires
            self.wf(),
        ensures
            well_formed(self@),
    {
    }

    /// The graph without nodes.
    pub fn new() -> (g: DepGraph)
        ensures
            g.wf(),
            g@ == empty_graph(),
    {
        DepGraph { graph: graph_new(), known: Vec::new() }
    }

    /// The number of nodes.
    pub fn node_count(&self) -> (n: usize)
        ensures
            n == self@.nodes.len(),
    {
        graph_node_count(&self.graph)
    }

    /// The number of edges.
    pub fn edge_count(&self) -> (n: usize)
        ensures
            n == self@.edges.len(),
    {
        graph_edge_count(&self.graph)
    }

    /// The index of the node equal to `node`, if the graph holds one.
    pub fn find_node(&self, node: &Node) -> (r: Option<usize>)
        requires
            self.wf(),
        ensures
            r is Some <==> self@.nodes.contains(node@),
            r is Some ==> r.unwrap() == index_in(self@.nodes, node@),
    {
        let mut i: usize = 0;
        while i < self.known.len()
            invariant
                self.wf(),
                i <= self.known.len(),
                forall|k: int| 0 <= k < i ==> self@.nodes[k] != node@,
            decreases self.known.len() - i,
        {
            if self.known[i].same(node) {
                proof {
                    lemma_index_in(self@.nodes, node@, i as int);
                }
                return Some(i);
            }
            i += 1;
        }
        None
    }

    /// A copy of the node with index `i`, if there is one.
    pub fn node(&self, i: usize) -> (r: Option<Node>)
        requires
            self.wf(),
        ensures
            r is Some <==> i < self@.nodes.len(),
            r is Some ==> r.unwrap()@ == self@.nodes[i as int],
    {
        if i < self.known.len() {
            Some(self.known[i].duplicate())
        } else {
            None
        }
    }

    /// The edge with index `k`, if there is one: the index of the node it
    /// leaves, the index of the node it enters, and a copy of its weight.
    pub fn edge(&self, k: usize) -> (r: Option<(usize, usize, Edge)>)
        requires
            self.wf(),
        ensures
            r is Some <==> k < self@.edges.len(),
            r is Some ==> {
                &&& r.unwrap().0 == self@.edges[k as int].source
                &&& r.unwrap().1 == self@.edges[k as int].target
                &&& r.unwrap().2@ == self@.edges[k as int].weight
            },
    {
        if k >= graph_edge_count(&self.graph) {
            return None;
        }
        let ends = graph_edge_endpoints(&self.graph, k).unwrap();
        let weight = graph_edge_weight(&self.graph, k).unwrap();
        Some((ends.0, ends.1, weight.duplicate()))
    }

    /// Whether an edge runs from the node with index `a` to the one with index `b`.
    pub fn contains_edge(&self, a: usize, b: usize) -> (r: bool)
        requires
            self.wf(),
        ensures
            r == has_edge(self@.edges, a as int, b as int),
    {
        let n = graph_node_count(&self.graph);
        if a < n && b < n {
            graph_find_edge(&self.graph, a, b).is_some()
        } else {
            proof {
                if has_edge(self@.edges, a as int, b as int) {
                    let k = choose|k: int|
                        0 <= k < self@.edges.len() && (#[trigger] self@.edges[k]).source == a
                            && self@.edges[k].target == b;
                    assert(self@.edges[k].source < self@.nodes.len());
                }
            }
            false
        }
    }

    /// The description of the graph in the DOT language.
    pub fn render(&self) -> (text: String)
        ensures
            text@ == dot_text(self@.nodes, self@.edges),
    {
        graph_dot(&self.graph)
    }

    /// Makes `node` a node of the graph unless it is one, and gives its
    /// index; `None`, with the graph untouched, where no index is left.
    fn intern(&mut self, node: Node) -> (r: Option<usize>)
        requires
            old(self).wf(),
        ensures
            final(self).wf(),
            final(self)@.edges == old(self)@.edges,
            r is Some ==> {
                &&& final(self)@.nodes == with_node(old(self)@.nodes, node@)
                &&& r.unwrap() == index_in(final(self)@.nodes, node@)
                &&& r.unwrap() < final(self)@.nodes.len()
            },
            r is None ==> {
                &&& !old(self)@.nodes.contains(node@)
                &&& old(self)@.nodes.len() == CAPACITY
                &&& final(self)@ == old(self)@
            },
    {
        proof {
            lemma_with_node(self@.nodes, node@);
        }
        match self.find_node(&node) {
            Some(i) => Some(i),
            None => {
                if graph_node_count(&self.graph) >= CAPACITY {
                    return None;
                }
                let copy = node.duplicate();
                let i = graph_add_node(&mut self.graph, node);
                self.known.push(copy);
                proof {
                    lemma_index_in(self@.nodes, node@, i as int);
                    assert forall|k: int| 0 <= k < self@.edges.len() implies {
                        &&& 0 <= (#[trigger] self@.edges[k]).source < self@.nodes.len()
                        &&& 0 <= self@.edges[k].target < self@.nodes.len()
                        &&& self@.edges[k].source != self@.edges[k].target
                    } by {
                        assert(old(self)@.edges[k] == self@.edges[k]);
                    }
                }
                Some(i)
            },
        }
    }

    /// Takes in one link between two resolved nodes: both become nodes of
    /// the graph, and an edge with the two slots runs from `out_node` to
    /// `in_node` unless they are equal or such an edge exists.
    pub fn add_resolved(
        self,
        in_node: Node,
        input_index: Option<usize>,
        out_node: Node,
        output_index: Option<usize>,
    ) -> (r: Result<DepGraph, Error>)
        requires
            self.wf(),
        ensures
            built(r) == connect(self@, in_node@, input_index, out_node@, output_index),
            r is Ok ==> r.unwrap().wf(),
    {
        let mut g = self;
        let ghost m = self@;
        let ghost a = in_node@;
        let ghost b = out_node@;
        proof {
            lemma_with_node(m.nodes, a);
            lemma_with_node(with_node(m.nodes, a), b);
            lemma_connect_well_formed(m, a, input_index, b, output_index);
        }
        let same = in_node.same(&out_node);
        let in_idx = match g.intern(in_node) {
            Some(i) => i,
            None => { return Err(Error::GraphFull); },
        };
        let out_idx = match g.intern(out_node) {
            Some(i) => i,
            None => { return Err(Error::GraphFull); },
        };
        proof {
            let first = with_node(m.nodes, a);
            let nodes = with_node(first, b);
            assert(g@.nodes == nodes);
            assert(first[in_idx as int] == a);
            assert(nodes[in_idx as int] == a);
            lemma_index_in(nodes, a, in_idx as int);
        }
        if !same && graph_find_edge(&g.graph, out_idx, in_idx).is_none() {
            if graph_edge_count(&g.graph) >= CAPACITY {
                return Err(Error::GraphFull);
            }
            graph_add_edge(&mut g.graph, out_idx, in_idx, Edge::new(input_index, output_index));
        }
        Ok(g)
    }
}

} // verus!
