use opgraph::edge::Edge;
use opgraph::node::Node;
use opgraph::operation::OpId;
use opgraph::text::{decode, split_name};

fn id(name: &str, op_type: &str) -> OpId {
    OpId { name: name.as_bytes().to_vec(), op_type: op_type.as_bytes().to_vec() }
}

fn node(name: &[&str], ty: &str) -> Node {
    Node { name: name.iter().map(|s| s.to_string()).collect(), ty: ty.to_string() }
}

#[test]
fn full_name_and_type_without_a_limit() {
    let n = Node::from_operation(&id("scope/sub/op", "MatMul")).unwrap();
    assert_eq!(n, node(&["scope", "sub", "op"], "MatMul"));
    assert_eq!(Node::resolve(&id("scope/sub/op", "MatMul"), None).unwrap(), n);
}

#[test]
fn longer_names_collapse_into_blocks() {
    let op = id("scope/sub/op", "MatMul");
    assert_eq!(Node::from_operation_with_depth(&op, 2).unwrap(), node(&["scope", "sub"], "Block"));
    assert_eq!(Node::from_operation_with_depth(&op, 1).unwrap(), node(&["scope"], "Block"));
    assert_eq!(Node::from_operation_with_depth(&op, 0).unwrap(), node(&[], "Block"));
    assert_eq!(Node::resolve(&op, Some(2)).unwrap(), node(&["scope", "sub"], "Block"));
}

#[test]
fn names_within_the_limit_are_kept() {
    let op = id("scope/sub/op", "MatMul");
    assert_eq!(Node::from_operation_with_depth(&op, 3).unwrap(), node(&["scope", "sub", "op"], "MatMul"));
    assert_eq!(Node::from_operation_with_depth(&op, 4).unwrap(), node(&["scope", "sub", "op"], "MatMul"));
    assert_eq!(
        Node::from_operation_with_depth(&op, usize::MAX).unwrap(),
        node(&["scope", "sub", "op"], "MatMul")
    );
}

#[test]
fn resolving_twice_gives_equal_nodes() {
    let op = id("a/b/c", "Relu");
    for depth in [None, Some(0), Some(2), Some(5)] {
        let first = Node::resolve(&op, depth).unwrap();
        let second = Node::resolve(&id("a/b/c", "Relu"), depth).unwrap();
        assert!(first.same(&second));
        assert_eq!(first, second);
    }
}

#[test]
fn limit_depth_cuts_and_relabels() {
    let mut n = node(&["a", "b", "c"], "Const");
    n.limit_depth(5);
    assert_eq!(n, node(&["a", "b", "c"], "Const"));
    n.limit_depth(3);
    assert_eq!(n, node(&["a", "b", "c"], "Const"));
    n.limit_depth(2);
    assert_eq!(n, node(&["a", "b"], "Block"));
    n.limit_depth(0);
    assert_eq!(n, node(&[], "Block"));
}

#[test]
fn same_compares_name_and_type() {
    let n = node(&["a", "b"], "Const");
    assert!(n.same(&node(&["a", "b"], "Const")));
    assert!(!n.same(&node(&["a", "b"], "Block")));
    assert!(!n.same(&node(&["a"], "Const")));
    assert!(!n.same(&node(&["a", "c"], "Const")));
    assert!(n.duplicate().same(&n));
    assert_eq!(n.duplicate(), n);
}

#[test]
fn split_name_ignores_repeated_and_trailing_separators() {
    let strings = |v: &[&str]| -> Vec<String> { v.iter().map(|s| s.to_string()).collect() };
    assert_eq!(split_name("a"), strings(&["a"]));
    assert_eq!(split_name("a/b"), strings(&["a", "b"]));
    assert_eq!(split_name("a//b/"), strings(&["a", "b"]));
    assert_eq!(split_name("a/b///"), strings(&["a", "b"]));
    assert_eq!(split_name(""), strings(&[]));
    assert_eq!(split_name("été/naïve_1"), strings(&["été", "naïve_1"]));
}

#[test]
fn split_name_keeps_the_root() {
    let strings = |v: &[&str]| -> Vec<String> { v.iter().map(|s| s.to_string()).collect() };
    assert_eq!(split_name("/a"), strings(&["/", "a"]));
    assert_eq!(split_name("/a/b"), strings(&["/", "a", "b"]));
    assert_eq!(split_name("//a"), strings(&["/", "a"]));
    assert_eq!(split_name("/"), strings(&["/"]));
    assert_eq!(split_name("///"), strings(&["/"]));
    assert_eq!(split_name("a/"), strings(&["a"]));
}

#[test]
fn rooted_name_is_another_node() {
    let rooted = Node::from_operation(&id("/a", "Const")).unwrap();
    let bare = Node::from_operation(&id("a", "Const")).unwrap();
    assert_eq!(rooted, node(&["/", "a"], "Const"));
    assert_eq!(bare, node(&["a"], "Const"));
    assert!(!rooted.same(&bare));
    assert_ne!(rooted, bare);
}

#[test]
fn rooted_name_collapses_at_depth_one() {
    assert_eq!(Node::from_operation_with_depth(&id("/a", "Const"), 1).unwrap(), node(&["/"], "Block"));
    assert_eq!(Node::from_operation_with_depth(&id("a", "Const"), 1).unwrap(), node(&["a"], "Const"));
    assert_eq!(Node::from_operation_with_depth(&id("/a", "Const"), 2).unwrap(), node(&["/", "a"], "Const"));
    assert_eq!(Node::resolve(&id("/a/b", "Add"), Some(2)).unwrap(), node(&["/", "a"], "Block"));
}

#[test]
fn decode_accepts_utf8_only() {
    assert_eq!(decode(&b"abc".to_vec()), Some("abc".to_string()));
    assert_eq!(decode(&vec![0xc3, 0xa9]), Some("é".to_string()));
    assert_eq!(decode(&vec![]), Some(String::new()));
    assert_eq!(decode(&vec![0xc3]), None);
    assert_eq!(decode(&vec![0x61, 0xff]), None);
}

#[test]
fn edge_copies_keep_their_content() {
    let e = Edge { dim: vec![Some(3), None], input_index: Some(1), output_index: None };
    assert_eq!(e.duplicate(), e);
    assert_eq!(Edge::new(Some(4), Some(5)), Edge { dim: vec![], input_index: Some(4), output_index: Some(5) });
}
