use opgraph::builder::generate_graph;
use opgraph::edge::Edge;
use opgraph::error::Error;
use opgraph::graph::DepGraph;
use opgraph::node::Node;
use opgraph::operation::{Endpoint, OpId, Operation};

fn id(name: &str, op_type: &str) -> OpId {
    OpId { name: name.as_bytes().to_vec(), op_type: op_type.as_bytes().to_vec() }
}

fn op(name: &str, op_type: &str) -> Operation {
    Operation {
        id: id(name, op_type),
        inputs: vec![],
        consumers: vec![],
        control_outputs: vec![],
        control_inputs: vec![],
    }
}

fn node(name: &[&str], ty: &str) -> Node {
    Node { name: name.iter().map(|s| s.to_string()).collect(), ty: ty.to_string() }
}

fn index_of(g: &DepGraph, name: &[&str], ty: &str) -> usize {
    g.find_node(&node(name, ty)).unwrap()
}

fn edges_of(g: &DepGraph) -> Vec<(usize, usize, Edge)> {
    (0..g.edge_count()).map(|k| g.edge(k).unwrap()).collect()
}

#[test]
fn data_edge_without_collapsing() {
    let mut a = op("a", "Const");
    a.consumers = vec![vec![Endpoint { op: id("b", "Add"), slot: 0 }]];
    let mut b = op("b", "Add");
    b.inputs = vec![Endpoint { op: id("a", "Const"), slot: 0 }];
    let g = generate_graph(&vec![a, b], None).unwrap();
    assert_eq!(g.node_count(), 2);
    assert_eq!(g.edge_count(), 1);
    let ia = index_of(&g, &["a"], "Const");
    let ib = index_of(&g, &["b"], "Add");
    assert_ne!(ia, ib);
    let (source, target, edge) = g.edge(0).unwrap();
    assert_eq!((source, target), (ia, ib));
    assert_eq!(edge.input_index, Some(0));
    assert_eq!(edge.output_index, Some(0));
    assert_eq!(edge.dim, vec![]);
    assert!(g.contains_edge(ia, ib));
    assert!(!g.contains_edge(ib, ia));
}

#[test]
fn data_edge_found_from_the_input_side_alone() {
    let a = op("a", "Const");
    let mut b = op("b", "Add");
    b.inputs = vec![Endpoint { op: id("a", "Const"), slot: 3 }];
    let g = generate_graph(&vec![a, b], None).unwrap();
    assert_eq!(g.node_count(), 2);
    assert_eq!(g.node(0).unwrap(), node(&["b"], "Add"));
    assert_eq!(g.node(1).unwrap(), node(&["a"], "Const"));
    assert_eq!(g.node(2), None);
    let edges = edges_of(&g);
    assert_eq!(edges.len(), 1);
    assert_eq!(edges[0].0, 1);
    assert_eq!(edges[0].1, 0);
    assert_eq!(edges[0].2, Edge { dim: vec![], input_index: Some(0), output_index: Some(3) });
    assert_eq!(g.edge(1), None);
}

#[test]
fn collapsing_merges_producer_and_consumer() {
    let mut x = op("grp/x", "Const");
    x.consumers = vec![vec![Endpoint { op: id("grp/y", "Add"), slot: 0 }]];
    let mut y = op("grp/y", "Add");
    y.inputs = vec![Endpoint { op: id("grp/x", "Const"), slot: 0 }];
    let g = generate_graph(&vec![x, y], Some(1)).unwrap();
    assert_eq!(g.node_count(), 1);
    assert_eq!(g.edge_count(), 0);
    assert_eq!(g.node(0).unwrap(), node(&["grp"], "Block"));
}

#[test]
fn control_only_dependency() {
    let mut b = op("b", "NoOp");
    b.control_inputs = vec![id("a", "NoOp")];
    let g = generate_graph(&vec![b], None).unwrap();
    assert_eq!(g.node_count(), 2);
    assert_eq!(g.edge_count(), 1);
    let ia = index_of(&g, &["a"], "NoOp");
    let ib = index_of(&g, &["b"], "NoOp");
    let (source, target, edge) = g.edge(0).unwrap();
    assert_eq!((source, target), (ib, ia));
    assert_eq!(edge.input_index, None);
    assert_eq!(edge.output_index, None);
}

#[test]
fn control_output_gives_the_edge_of_the_matching_control_input() {
    let mut a = op("a", "NoOp");
    a.control_outputs = vec![id("b", "NoOp")];
    let mut b = op("b", "NoOp");
    b.control_inputs = vec![id("a", "NoOp")];
    let g = generate_graph(&vec![a, b], None).unwrap();
    assert_eq!(g.node_count(), 2);
    assert_eq!(g.edge_count(), 1);
    let ia = index_of(&g, &["a"], "NoOp");
    let ib = index_of(&g, &["b"], "NoOp");
    assert!(g.contains_edge(ib, ia));
    assert!(!g.contains_edge(ia, ib));
}

#[test]
fn repeated_consumer_reference() {
    let mut a = op("a", "Const");
    a.consumers = vec![vec![Endpoint { op: id("b", "Add"), slot: 0 }, Endpoint { op: id("c", "Add"), slot: 0 }]];
    let mut b = op("b", "Add");
    b.inputs = vec![Endpoint { op: id("a", "Const"), slot: 0 }];
    let mut c = op("c", "Add");
    c.inputs = vec![Endpoint { op: id("a", "Const"), slot: 0 }];
    let g = generate_graph(&vec![a, b, c], None).unwrap();
    assert_eq!(g.node_count(), 3);
    assert_eq!(g.edge_count(), 2);
    let ia = index_of(&g, &["a"], "Const");
    let ib = index_of(&g, &["b"], "Add");
    let ic = index_of(&g, &["c"], "Add");
    let ends: Vec<(usize, usize)> = edges_of(&g).iter().map(|e| (e.0, e.1)).collect();
    assert_eq!(ends, vec![(ia, ib), (ia, ic)]);
}

#[test]
fn first_discovered_edge_keeps_its_slots() {
    let mut b = op("b", "AddN");
    b.inputs = vec![Endpoint { op: id("a", "Const"), slot: 5 }, Endpoint { op: id("a", "Const"), slot: 7 }];
    let g = generate_graph(&vec![b], None).unwrap();
    assert_eq!(g.node_count(), 2);
    let edges = edges_of(&g);
    assert_eq!(edges.len(), 1);
    assert_eq!(edges[0].2.input_index, Some(0));
    assert_eq!(edges[0].2.output_index, Some(5));
}

#[test]
fn same_name_with_another_type_is_another_node() {
    let mut b = op("b", "Add");
    b.inputs = vec![Endpoint { op: id("a", "Const"), slot: 0 }, Endpoint { op: id("a", "Variable"), slot: 0 }];
    let g = generate_graph(&vec![b], None).unwrap();
    assert_eq!(g.node_count(), 3);
    assert_eq!(g.edge_count(), 2);
}

#[test]
fn nodes_and_edges_are_unique_and_loop_free() {
    let mut a = op("m/a", "Const");
    a.consumers = vec![
        vec![Endpoint { op: id("m/b", "Add"), slot: 0 }, Endpoint { op: id("n/c", "Add"), slot: 1 }],
        vec![Endpoint { op: id("n/c", "Add"), slot: 0 }],
    ];
    a.control_outputs = vec![id("n/d", "NoOp")];
    let mut c = op("n/c", "Add");
    c.inputs = vec![Endpoint { op: id("m/a", "Const"), slot: 1 }, Endpoint { op: id("m/a", "Const"), slot: 0 }];
    c.control_inputs = vec![id("n/d", "NoOp"), id("m/b", "Add")];
    for depth in [None, Some(0), Some(1), Some(2)] {
        let g = generate_graph(&vec![a.clone(), c.clone()], depth).unwrap();
        let nodes: Vec<Node> = (0..g.node_count()).map(|i| g.node(i).unwrap()).collect();
        for i in 0..nodes.len() {
            for j in 0..i {
                assert_ne!(nodes[i], nodes[j]);
            }
        }
        let edges = edges_of(&g);
        for j in 0..edges.len() {
            assert_ne!(edges[j].0, edges[j].1);
            assert!(edges[j].0 < nodes.len() && edges[j].1 < nodes.len());
            for k in 0..j {
                assert_ne!((edges[j].0, edges[j].1), (edges[k].0, edges[k].1));
            }
        }
    }
    let g = generate_graph(&vec![a.clone(), c.clone()], Some(1)).unwrap();
    assert_eq!(g.node_count(), 2);
    assert_eq!(g.edge_count(), 2);
    let g = generate_graph(&vec![a, c], Some(0)).unwrap();
    assert_eq!(g.node_count(), 1);
    assert_eq!(g.node(0).unwrap(), node(&[], "Block"));
    assert_eq!(g.edge_count(), 0);
}

#[test]
fn operation_without_links_leaves_no_node() {
    let g = generate_graph(&vec![op("alone", "Const")], None).unwrap();
    assert_eq!(g.node_count(), 0);
    assert_eq!(g.edge_count(), 0);
    let g = generate_graph(&vec![], Some(2)).unwrap();
    assert_eq!(g.node_count(), 0);
}

#[test]
fn invalid_name_stops_the_build() {
    let mut b = op("b", "Add");
    b.inputs = vec![Endpoint { op: OpId { name: vec![0xff, 0x61], op_type: b"Const".to_vec() }, slot: 0 }];
    assert_eq!(generate_graph(&vec![b], None).err(), Some(Error::InvalidName));
}

#[test]
fn invalid_type_stops_the_build() {
    let mut b = op("b", "Add");
    b.control_outputs = vec![OpId { name: b"a".to_vec(), op_type: vec![0xc3] }];
    assert_eq!(generate_graph(&vec![b], Some(3)).err(), Some(Error::InvalidType));
}

#[test]
fn invalid_name_is_reported_before_invalid_type() {
    let bad = OpId { name: vec![0x80], op_type: vec![0x80] };
    assert_eq!(Node::from_operation(&bad), Err(Error::InvalidName));
    assert_eq!(Node::from_operation_with_depth(&bad, 1), Err(Error::InvalidName));
}

#[test]
fn add_op_to_graph_takes_in_one_link() {
    let a = id("s/a", "Const");
    let b = id("s/b", "Add");
    let g = DepGraph::new();
    let g = g.add_op_to_graph((&b, Some(2)), (&a, Some(4)), None).unwrap();
    assert_eq!(g.node_count(), 2);
    assert_eq!(g.node(0).unwrap(), node(&["s", "b"], "Add"));
    assert_eq!(g.node(1).unwrap(), node(&["s", "a"], "Const"));
    assert_eq!(g.edge(0).unwrap(), (1, 0, Edge { dim: vec![], input_index: Some(2), output_index: Some(4) }));
    let g = g.add_op_to_graph((&b, Some(9)), (&a, Some(9)), None).unwrap();
    assert_eq!(g.edge_count(), 1);
    let g = g.add_op_to_graph((&a, None), (&b, None), None).unwrap();
    assert_eq!(g.edge_count(), 2);
    assert_eq!(g.edge(1).unwrap(), (0, 1, Edge { dim: vec![], input_index: None, output_index: None }));
    let g = g.add_op_to_graph((&a, None), (&a, None), None).unwrap();
    assert_eq!(g.node_count(), 2);
    assert_eq!(g.edge_count(), 2);
}

#[test]
fn add_resolved_reuses_known_nodes() {
    let g = DepGraph::new();
    let g = g.add_resolved(node(&["x"], "A"), None, node(&["y"], "B"), None).unwrap();
    let g = g.add_resolved(node(&["z"], "C"), Some(1), node(&["x"], "A"), Some(0)).unwrap();
    assert_eq!(g.node_count(), 3);
    assert_eq!(g.find_node(&node(&["x"], "A")), Some(0));
    assert_eq!(g.find_node(&node(&["y"], "B")), Some(1));
    assert_eq!(g.find_node(&node(&["z"], "C")), Some(2));
    assert_eq!(g.find_node(&node(&["z"], "A")), None);
    assert_eq!(g.edge(0).unwrap().0, 1);
    assert_eq!(g.edge(0).unwrap().1, 0);
    assert_eq!(g.edge(1).unwrap(), (0, 2, Edge::new(Some(1), Some(0))));
    assert!(!g.contains_edge(7, 0));
}

#[test]
fn rendering_is_the_same_on_every_run() {
    let mut a = op("a", "Const");
    a.consumers = vec![vec![Endpoint { op: id("b", "Add"), slot: 0 }, Endpoint { op: id("c", "Add"), slot: 0 }]];
    a.control_outputs = vec![id("c", "Add")];
    let first = generate_graph(&vec![a.clone()], None).unwrap().render();
    let second = generate_graph(&vec![a], None).unwrap().render();
    assert_eq!(first, second);
}

#[test]
fn rendering_lists_nodes_and_edges() {
    let mut b = op("b", "Add");
    b.inputs = vec![Endpoint { op: id("s/a", "Const"), slot: 1 }];
    let text = generate_graph(&vec![b], None).unwrap().render();
    let expected = "digraph {\n    0 [ label = \"Node { name: [\\\"b\\\"], ty: \\\"Add\\\" }\" ]\n    1 [ label = \"Node { name: [\\\"s\\\", \\\"a\\\"], ty: \\\"Const\\\" }\" ]\n    1 -> 0 [ label = \"Edge { dim: [], input_index: Some(0), output_index: Some(1) }\" ]\n}\n";
    assert_eq!(text, expected);
    assert_eq!(DepGraph::new().render(), "digraph {\n}\n");
}

#[test]
fn rooted_and_bare_names_are_two_nodes() {
    let mut b = op("b", "Add");
    b.inputs = vec![Endpoint { op: id("/a", "Const"), slot: 0 }, Endpoint { op: id("a", "Const"), slot: 0 }];
    let g = generate_graph(&vec![b.clone()], None).unwrap();
    assert_eq!(g.node_count(), 3);
    assert_eq!(g.edge_count(), 2);
    assert_eq!(g.find_node(&node(&["/", "a"], "Const")), Some(1));
    assert_eq!(g.find_node(&node(&["a"], "Const")), Some(2));
    let g = generate_graph(&vec![b], Some(1)).unwrap();
    assert_eq!(g.node_count(), 3);
    assert_eq!(g.find_node(&node(&["/"], "Block")), Some(1));
    assert_eq!(g.find_node(&node(&["a"], "Const")), Some(2));
}
