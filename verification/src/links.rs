use crate::error::Error;
use crate::model::{connect, empty_graph, lemma_connect_well_formed, well_formed, GraphModel};
use crate::node::resolve_spec;
use crate::operation::{OpIdModel, Operation};
use vstd::prelude::*;

verus! {

/// One relationship between two operations, as the builder meets it: an
/// edge is wanted from the node of `output` to the node of `input`.
pub struct Link {
    pub input: OpIdModel,
    pub input_index: Option<usize>,
    pub output: OpIdModel,
    pub output_index: Option<usize>,
}

/// The data inputs of an operation: for each input slot, a link from the
/// producer's output slot to that slot.
pub open spec fn input_links(op: Operation) -> Seq<Link> {
    Seq::new(
        op.inputs@.len(),
        |i: int|
            Link {
                input: op.id@,
                input_index: Some(i as usize),
                output: op.inputs@[i].op@,
                output_index: Some(op.inputs@[i].slot),
            },
    )
}

/// The consumers of one output slot: for each, a link from that slot to
/// the consumer's input slot.
pub open spec fn slot_links(op: Operation, slot: int) -> Seq<Link> {
    Seq::new(
        op.consumers@[slot]@.len(),
        |j: int|
            Link {
                input: op.consumers@[slot]@[j].op@,
                input_index: Some(op.consumers@[slot]@[j].slot),
                output: op.id@,
                output_index: Some(slot as usize),
            },
    )
}

/// The consumers of the first `n` output slots, slot by slot.
pub open spec fn consumer_links(op: Operation, n: int) -> Seq<Link>
    decreases n,
{
    if n <= 0 {
        Seq::empty()
    } else {
        consumer_links(op, n - 1) + slot_links(op, n - 1)
    }
}

/// The operations that must run after `op`: each gets an edge to `op`.
pub open spec fn control_output_links(op: Operation) -> Seq<Link> {
    Seq::new(
        op.control_outputs@.len(),
        |i: int|
            Link { input: op.id@, input_index: None, output: op.control_outputs@[i]@, output_index: None },
    )
}

/// The operations that `op` must run after: `op` gets an edge to each.
pub open spec fn control_input_links(op: Operation) -> Seq<Link> {
    Seq::new(
        op.control_inputs@.len(),
        |i: int|
            Link { input: op.control_inputs@[i]@, input_index: None, output: op.id@, output_index: None },
    )
}

/// Every link of one operation, in the order in which they are taken in.
pub open spec fn op_links(op: Operation) -> Seq<Link> {
    input_links(op) + consumer_links(op, op.consumers@.len() as int) + control_output_links(op)
        + control_input_links(op)
}

/// Every link of the first `n` operations, operation by operation.
pub open spec fn all_links(ops: Seq<Operation>, n: int) -> Seq<Link>
    decreases n,
{
    if n <= 0 {
        Seq::empty()
    } else {
        all_links(ops, n - 1) + op_links(ops[n - 1])
    }
}

/// The graph after one link was taken in: both ends are resolved, the
/// input end first, and the resolved nodes are connected.
pub open spec fn link_step(m: GraphModel, l: Link, max_depth: Option<usize>) -> Result<GraphModel, Error> {
    match resolve_spec(l.input.name, l.input.op_type, max_depth) {
        Err(e) => Err(e),
        Ok(a) => match resolve_spec(l.output.name, l.output.op_type, max_depth) {
            Err(e) => Err(e),
            Ok(b) => connect(m, a, l.input_index, b, l.output_index),
        },
    }
}

/// The graph after the links were taken in one after the other; the first
/// failure is the outcome.
pub open spec fn apply_links(m: GraphModel, links: Seq<Link>, max_depth: Option<usize>) -> Result<
    GraphModel,
    Error,
>
    decreases links.len(),
{
    if links.len() == 0 {
        Ok(m)
    } else {
        match apply_links(m, links.drop_last(), max_depth) {
            Err(e) => Err(e),
            Ok(before) => link_step(before, links.last(), max_depth),
        }
    }
}

/// The graph of a list of operations.
pub open spec fn build_spec(ops: Seq<Operation>, max_depth: Option<usize>) -> Result<GraphModel, Error> {
    apply_links(empty_graph(), all_links(ops, ops.len() as int), max_depth)
}

/// Taking in two runs of links one after the other is taking in their concatenation.
pub proof fn lemma_apply_concat(m: GraphModel, p: Seq<Link>, q: Seq<Link>, max_depth: Option<usize>)
    ensures
        apply_links(m, p + q, max_depth) == match apply_links(m, p, max_depth) {
            Err(e) => Err(e),
            Ok(mid) => apply_links(mid, q, max_depth),
        },
    decreases q.len(),
{
    if q.len() == 0 {
        assert(p + q =~= p);
    } else {
        assert((p + q).drop_last() =~= p + q.drop_last());
        assert((p + q).last() == q.last());
        lemma_apply_concat(m, p, q.drop_last(), max_depth);
    }
}

/// Taking in the first `k + 1` links is taking in the first `k` and then the next.
pub proof fn lemma_apply_next(m: GraphModel, links: Seq<Link>, k: int, max_depth: Option<usize>)
    requires
        0 <= k < links.len(),
    ensures
        apply_links(m, links.take(k + 1), max_depth) == match apply_links(m, links.take(k), max_depth) {
            Err(e) => Err(e),
            Ok(before) => link_step(before, links[k], max_depth),
        },
{
    assert(links.take(k + 1).drop_last() =~= links.take(k));
    assert(links.take(k + 1).last() == links[k]);
}

/// A failure on the first `k` links is the outcome of them all.
pub proof fn lemma_apply_failed(m: GraphModel, links: Seq<Link>, k: int, max_depth: Option<usize>)
    requires
        0 <= k <= links.len(),
        apply_links(m, links.take(k), max_depth) is Err,
    ensures
        apply_links(m, links, max_depth) == apply_links(m, links.take(k), max_depth),
{
    assert(links.take(k) + links.skip(k) =~= links);
    lemma_apply_concat(m, links.take(k), links.skip(k), max_depth);
}

/// A failure on the consumers of the first `k` output slots is the outcome of the first `n`.
pub proof fn lemma_consumers_failed(m: GraphModel, op: Operation, k: int, n: int, max_depth: Option<usize>)
    requires
        0 <= k <= n,
        apply_links(m, consumer_links(op, k), max_depth) is Err,
    ensures
        apply_links(m, consumer_links(op, n), max_depth) == apply_links(m, consumer_links(op, k), max_depth),
    decreases n,
{
    if k < n {
        lemma_consumers_failed(m, op, k, n - 1, max_depth);
        lemma_apply_concat(m, consumer_links(op, n - 1), slot_links(op, n - 1), max_depth);
    }
}

/// A failure on the first `k` operations is the outcome of the first `n`.
pub proof fn lemma_all_failed(m: GraphModel, ops: Seq<Operation>, k: int, n: int, max_depth: Option<usize>)
    requires
        0 <= k <= n,
        apply_links(m, all_links(ops, k), max_depth) is Err,
    ensures
        apply_links(m, all_links(ops, n), max_depth) == apply_links(m, all_links(ops, k), max_depth),
    decreases n,
{
    if k < n {
        lemma_all_failed(m, ops, k, n - 1, max_depth);
        lemma_apply_concat(m, all_links(ops, n - 1), op_links(ops[n - 1]), max_depth);
    }
}

/// Links taken into a well-formed graph leave a well-formed graph.
pub proof fn lemma_apply_well_formed(m: GraphModel, links: Seq<Link>, max_depth: Option<usize>)
    requires
        well_formed(m),
    ensures
        apply_links(m, links, max_depth) is Ok ==> well_formed(apply_links(m, links, max_depth).unwrap()),
    decreases links.len(),
{
    if links.len() > 0 {
        lemma_apply_well_formed(m, links.drop_last(), max_depth);
        let l = links.last();
        match apply_links(m, links.drop_last(), max_depth) {
            Err(e) => {},
            Ok(before) => {
                match resolve_spec(l.input.name, l.input.op_type, max_depth) {
                    Err(e) => {},
                    Ok(a) => match resolve_spec(l.output.name, l.output.op_type, max_depth) {
                        Err(e) => {},
                        Ok(b) => {
                            lemma_connect_well_formed(before, a, l.input_index, b, l.output_index);
                        },
                    },
                }
            },
        }
    }
}

} // verus!
