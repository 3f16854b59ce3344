use crate::links::{all_links, apply_links, build_spec, lemma_apply_well_formed, link_step, Link};
use crate::model::{empty_graph, lemma_with_node, well_formed, with_node, GraphModel};
use crate::node::{block_label, resolve_spec, NodeModel};
use crate::operation::{OpIdModel, Operation};
use crate::error::Error;
use crate::text::{
    has_root, lemma_rooted_name, lemma_split_path, plain, root_segment, separator, split_path,
};
use vstd::prelude::*;
use vstd::utf8::{decode_utf8, valid_utf8};

verus! {

/// Whether `n` is what one of the two ends of `l` resolves to.
pub open spec fn is_end(l: Link, n: NodeModel, max_depth: Option<usize>) -> bool {
    ||| resolve_spec(l.input.name, l.input.op_type, max_depth) == Ok::<NodeModel, Error>(n)
    ||| resolve_spec(l.output.name, l.output.op_type, max_depth) == Ok::<NodeModel, Error>(n)
}

/// Whether `n` is what an end of one of the links resolves to.
pub open spec fn is_named(links: Seq<Link>, n: NodeModel, max_depth: Option<usize>) -> bool {
    exists|k: int| 0 <= k < links.len() && is_end(#[trigger] links[k], n, max_depth)
}

/// After links were taken in, the nodes are those that were there and
/// those that the links name, and no others.
pub proof fn lemma_nodes_after(m: GraphModel, links: Seq<Link>, max_depth: Option<usize>)
    requires
        well_formed(m),
        apply_links(m, links, max_depth) is Ok,
    ensures
        forall|n: NodeModel|
            apply_links(m, links, max_depth).unwrap().nodes.contains(n) <==> (m.nodes.contains(n) || is_named(
                links,
                n,
                max_depth,
            )),
    decreases links.len(),
{
    let g = apply_links(m, links, max_depth).unwrap();
    if links.len() == 0 {
        assert forall|n: NodeModel| g.nodes.contains(n) <==> (m.nodes.contains(n) || is_named(links, n, max_depth)) by {}
    } else {
        let front = links.drop_last();
        let l = links.last();
        let before = apply_links(m, front, max_depth).unwrap();
        lemma_nodes_after(m, front, max_depth);
        lemma_apply_well_formed(m, front, max_depth);
        let a = resolve_spec(l.input.name, l.input.op_type, max_depth).unwrap();
        let b = resolve_spec(l.output.name, l.output.op_type, max_depth).unwrap();
        let first = with_node(before.nodes, a);
        lemma_with_node(before.nodes, a);
        lemma_with_node(first, b);
        assert(g.nodes == with_node(first, b));
        assert forall|n: NodeModel| g.nodes.contains(n) <==> (m.nodes.contains(n) || is_named(links, n, max_depth)) by {
            if g.nodes.contains(n) {
                let i = choose|i: int| 0 <= i < g.nodes.len() && g.nodes[i] == n;
                if i < before.nodes.len() {
                    assert(before.nodes[i] == n);
                    assert(before.nodes.contains(n));
                    if !m.nodes.contains(n) {
                        let k = choose|k: int| 0 <= k < front.len() && is_end(#[trigger] front[k], n, max_depth);
                        assert(links[k] == front[k]);
                    }
                } else {
                    assert(n == a || n == b);
                    assert(is_end(links[links.len() - 1], n, max_depth));
                }
            }
            if m.nodes.contains(n) {
                assert(before.nodes.contains(n));
                let i = choose|i: int| 0 <= i < before.nodes.len() && before.nodes[i] == n;
                assert(g.nodes[i] == n);
            }
            if is_named(links, n, max_depth) {
                let k = choose|k: int| 0 <= k < links.len() && is_end(#[trigger] links[k], n, max_depth);
                if k < front.len() {
                    assert(front[k] == links[k]);
                    assert(is_named(front, n, max_depth));
                    let i = choose|i: int| 0 <= i < before.nodes.len() && before.nodes[i] == n;
                    assert(g.nodes[i] == n);
                } else {
                    if n == b {
                        assert(with_node(first, b).contains(b));
                    } else {
                        assert(n == a);
                        assert(first.contains(a));
                        let i = choose|i: int| 0 <= i < first.len() && first[i] == n;
                        assert(g.nodes[i] == n);
                    }
                }
            }
        }
    }
}

/// Each node stands in the graph once: the graph of a list of operations
/// holds exactly the nodes that the ends of its links resolve to, and
/// none of them twice, however often a link names it.
pub proof fn law_node_uniqueness(ops: Seq<Operation>, max_depth: Option<usize>)
    requires
        build_spec(ops, max_depth) is Ok,
    ensures
        build_spec(ops, max_depth).unwrap().nodes.no_duplicates(),
        forall|n: NodeModel|
            build_spec(ops, max_depth).unwrap().nodes.contains(n) <==> is_named(
                all_links(ops, ops.len() as int),
                n,
                max_depth,
            ),
{
    let links = all_links(ops, ops.len() as int);
    lemma_apply_well_formed(empty_graph(), links, max_depth);
    lemma_nodes_after(empty_graph(), links, max_depth);
    assert forall|n: NodeModel| !empty_graph().nodes.contains(n) by {}
}

/// No two edges of the graph of a list of operations join the same
/// ordered pair of nodes.
pub proof fn law_edge_uniqueness(ops: Seq<Operation>, max_depth: Option<usize>, j: int, k: int)
    requires
        build_spec(ops, max_depth) is Ok,
        0 <= j < build_spec(ops, max_depth).unwrap().edges.len(),
        0 <= k < build_spec(ops, max_depth).unwrap().edges.len(),
        j != k,
    ensures
        ({
            let g = build_spec(ops, max_depth).unwrap();
            g.edges[j].source != g.edges[k].source || g.edges[j].target != g.edges[k].target
        }),
{
    lemma_apply_well_formed(empty_graph(), all_links(ops, ops.len() as int), max_depth);
    let g = build_spec(ops, max_depth).unwrap();
    if j < k {
        assert(!(g.edges[j].source == g.edges[k].source && g.edges[j].target == g.edges[k].target));
    } else {
        assert(!(g.edges[k].source == g.edges[j].source && g.edges[k].target == g.edges[j].target));
    }
}

/// No edge of the graph of a list of operations joins a node to itself:
/// its two ends are nodes of the graph, and different ones.
pub proof fn law_no_self_loops(ops: Seq<Operation>, max_depth: Option<usize>, k: int)
    requires
        build_spec(ops, max_depth) is Ok,
        0 <= k < build_spec(ops, max_depth).unwrap().edges.len(),
    ensures
        ({
            let g = build_spec(ops, max_depth).unwrap();
            &&& 0 <= g.edges[k].source < g.nodes.len()
            &&& 0 <= g.edges[k].target < g.nodes.len()
            &&& g.edges[k].source != g.edges[k].target
            &&& g.nodes[g.edges[k].source] != g.nodes[g.edges[k].target]
        }),
{
    lemma_apply_well_formed(empty_graph(), all_links(ops, ops.len() as int), max_depth);
}

/// Under a depth limit, a name of more segments than the limit resolves
/// to the block of its first segments, and any other name resolves as it
/// does without a limit.
pub proof fn law_collapsing(name: Seq<u8>, op_type: Seq<u8>, max_depth: usize)
    requires
        valid_utf8(name),
        valid_utf8(op_type),
    ensures
        ({
            let full = resolve_spec(name, op_type, None).unwrap();
            let limited = resolve_spec(name, op_type, Some(max_depth)).unwrap();
            &&& resolve_spec(name, op_type, None) is Ok
            &&& resolve_spec(name, op_type, Some(max_depth)) is Ok
            &&& full.name.len() > max_depth ==> limited.name == full.name.take(max_depth as int) && limited.ty
                == block_label()
            &&& full.name.len() <= max_depth ==> limited == full
        }),
{
}

/// Two operations with the same name and type resolve alike under the
/// same depth limit.
pub proof fn law_resolution_repeats(a: OpIdModel, b: OpIdModel, max_depth: Option<usize>)
    requires
        a.name == b.name,
        a.op_type == b.op_type,
    ensures
        resolve_spec(a.name, a.op_type, max_depth) == resolve_spec(b.name, b.op_type, max_depth),
{
}

/// A link whose two ends resolve to the same node adds no edge.
pub proof fn law_merged_ends_add_no_edge(m: GraphModel, l: Link, max_depth: Option<usize>)
    requires
        link_step(m, l, max_depth) is Ok,
        resolve_spec(l.input.name, l.input.op_type, max_depth) == resolve_spec(
            l.output.name,
            l.output.op_type,
            max_depth,
        ),
    ensures
        link_step(m, l, max_depth).unwrap().edges == m.edges,
{
}

/// The root counts: a name that begins with a separator never has the
/// segments of a name that does not.
pub proof fn law_root_is_kept(rooted: Seq<char>, other: Seq<char>)
    requires
        has_root(rooted),
        !has_root(other),
    ensures
        split_path(rooted) != split_path(other),
        split_path(rooted).len() >= 1,
        split_path(rooted)[0] == root_segment(),
{
    lemma_split_path(rooted);
    lemma_split_path(other);
    if split_path(other).len() > 0 {
        assert(root_segment()[0] == separator());
        assert(split_path(other)[0] != root_segment());
    }
}

/// Two operations of which only one has a name that begins with a
/// separator resolve to different nodes, whatever their types.
pub proof fn law_rooted_names_differ(
    rooted: Seq<u8>,
    other: Seq<u8>,
    rooted_type: Seq<u8>,
    other_type: Seq<u8>,
)
    requires
        valid_utf8(rooted),
        valid_utf8(other),
        valid_utf8(rooted_type),
        valid_utf8(other_type),
        has_root(decode_utf8(rooted)),
        !has_root(decode_utf8(other)),
    ensures
        resolve_spec(rooted, rooted_type, None) != resolve_spec(other, other_type, None),
{
    law_root_is_kept(decode_utf8(rooted), decode_utf8(other));
}

/// A name made of a separator and one plain segment has two segments, so
/// under a depth limit of 1 it resolves to the block of the root.
pub proof fn law_rooted_name_collapses(name: Seq<u8>, op_type: Seq<u8>, segment: Seq<char>)
    requires
        valid_utf8(name),
        valid_utf8(op_type),
        plain(segment),
        decode_utf8(name) == seq![separator()] + segment,
    ensures
        resolve_spec(name, op_type, None) == Ok::<NodeModel, Error>(
            NodeModel { name: seq![root_segment(), segment], ty: decode_utf8(op_type) },
        ),
        resolve_spec(name, op_type, Some(1)) == Ok::<NodeModel, Error>(
            NodeModel { name: seq![root_segment()], ty: block_label() },
        ),
{
    lemma_rooted_name(segment);
    assert(seq![root_segment(), segment].take(1) =~= seq![root_segment()]);
}

} // verus!
