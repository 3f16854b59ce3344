use crate::error::Error;
use crate::graph::{built, DepGraph};
use crate::links::{
    all_links, apply_links, build_spec, consumer_links, control_input_links, control_output_links,
    input_links, lemma_all_failed, lemma_apply_concat, lemma_apply_failed, lemma_apply_next,
    lemma_consumers_failed, link_step, op_links, slot_links, Link,
};
use crate::model::{empty_graph, well_formed, GraphModel};
use crate::node::Node;
use crate::operation::{OpId, Operation};
use vstd::prelude::*;

verus! {

impl DepGraph {
    /// Takes in one link: resolves the two operations, `input` first, and
    /// connects the resolved nodes with an edge from `output` to `input`.
    pub fn add_op_to_graph(
        self,
        input: (&OpId, Option<usize>),
        output: (&OpId, Option<usize>),
        max_depth: Option<usize>,
    ) -> (r: Result<DepGraph, Error>)
        requires
            self.wf(),
        ensures
            built(r) == link_step(
                self@,
                (Link { input: input.0@, input_index: input.1, output: output.0@, output_index: output.1 }),
                max_depth,
            ),
            r is Ok ==> r.unwrap().wf(),
    {
        let in_node = match Node::resolve(input.0, max_depth) {
            Ok(n) => n,
            Err(e) => { return Err(e); },
        };
        let out_node = match Node::resolve(output.0, max_depth) {
            Ok(n) => n,
            Err(e) => { return Err(e); },
        };
        self.add_resolved(in_node, input.1, out_node, output.1)
    }

    /// Takes in the data inputs of `op`.
    pub fn add_data_inputs(self, op: &Operation, max_depth: Option<usize>) -> (r: Result<DepGraph, Error>)
        requires
            self.wf(),
        ensures
            built(r) == apply_links(self@, input_links(*op), max_depth),
            r is Ok ==> r.unwrap().wf(),
    {
        let ghost start = self@;
        let ghost links = input_links(*op);
        let mut g = self;
        let mut i: usize = 0;
        while i < op.inputs.len()
            invariant
                g.wf(),
                start == self@,
                i <= op.inputs.len(),
                links == input_links(*op),
                apply_links(start, links.take(i as int), max_depth) == Ok::<GraphModel, Error>(g@),
            decreases op.inputs.len() - i,
        {
            let end = &op.inputs[i];
            proof {
                lemma_apply_next(start, links, i as int, max_depth);
            }
            match g.add_op_to_graph((&op.id, Some(i)), (&end.op, Some(end.slot)), max_depth) {
                Ok(next) => {
                    g = next;
                },
                Err(e) => {
                    proof {
                        lemma_apply_failed(start, links, i + 1, max_depth);
                    }
                    return Err(e);
                },
            }
            i += 1;
        }
        proof {
            assert(links.take(i as int) =~= links);
        }
        Ok(g)
    }

    /// Takes in the consumers of output slot `slot` of `op`.
    pub fn add_slot_consumers(self, op: &Operation, slot: usize, max_depth: Option<usize>) -> (r: Result<
        DepGraph,
        Error,
    >)
        requires
            self.wf(),
            slot < op.consumers@.len(),
        ensures
            built(r) == apply_links(self@, slot_links(*op, slot as int), max_depth),
            r is Ok ==> r.unwrap().wf(),
    {
        let ghost start = self@;
        let ghost links = slot_links(*op, slot as int);
        let consumers = &op.consumers[slot];
        let mut g = self;
        let mut j: usize = 0;
        while j < consumers.len()
            invariant
                g.wf(),
                start == self@,
                slot < op.consumers@.len(),
                *consumers == op.consumers@[slot as int],
                j <= consumers.len(),
                links == slot_links(*op, slot as int),
                apply_links(start, links.take(j as int), max_depth) == Ok::<GraphModel, Error>(g@),
            decreases consumers.len() - j,
        {
            let end = &consumers[j];
            proof {
                lemma_apply_next(start, links, j as int, max_depth);
            }
            match g.add_op_to_graph((&end.op, Some(end.slot)), (&op.id, Some(slot)), max_depth) {
                Ok(next) => {
                    g = next;
                },
                Err(e) => {
                    proof {
                        lemma_apply_failed(start, links, j + 1, max_depth);
                    }
                    return Err(e);
                },
            }
            j += 1;
        }
        proof {
            assert(links.take(j as int) =~= links);
        }
        Ok(g)
    }

    /// Takes in the consumers of every output slot of `op`, slot by slot.
    pub fn add_consumers(self, op: &Operation, max_depth: Option<usize>) -> (r: Result<DepGraph, Error>)
        requires
            self.wf(),
        ensures
            built(r) == apply_links(self@, consumer_links(*op, op.consumers@.len() as int), max_depth),
            r is Ok ==> r.unwrap().wf(),
    {
        let ghost start = self@;
        let mut g = self;
        let mut i: usize = 0;
        while i < op.consumers.len()
            invariant
                g.wf(),
                start == self@,
                i <= op.consumers.len(),
                apply_links(start, consumer_links(*op, i as int), max_depth) == Ok::<GraphModel, Error>(g@),
            decreases op.consumers.len() - i,
        {
            proof {
                lemma_apply_concat(start, consumer_links(*op, i as int), slot_links(*op, i as int), max_depth);
            }
            match g.add_slot_consumers(op, i, max_depth) {
                Ok(next) => {
                    g = next;
                },
                Err(e) => {
                    proof {
                        lemma_consumers_failed(start, *op, i + 1, op.consumers@.len() as int, max_depth);
                    }
                    return Err(e);
                },
            }
            i += 1;
        }
        Ok(g)
    }

    /// Takes in the operations that must run after `op`.
    pub fn add_control_outputs(self, op: &Operation, max_depth: Option<usize>) -> (r: Result<DepGraph, Error>)
        requires
            self.wf(),
        ensures
            built(r) == apply_links(self@, control_output_links(*op), max_depth),
            r is Ok ==> r.unwrap().wf(),
    {
        let ghost start = self@;
        let ghost links = control_output_links(*op);
        let mut g = self;
        let mut i: usize = 0;
        while i < op.control_outputs.len()
            invariant
                g.wf(),
                start == self@,
                i <= op.control_outputs.len(),
                links == control_output_links(*op),
                apply_links(start, links.take(i as int), max_depth) == Ok::<GraphModel, Error>(g@),
            decreases op.control_outputs.len() - i,
        {
            proof {
                lemma_apply_next(start, links, i as int, max_depth);
            }
            match g.add_op_to_graph((&op.id, None), (&op.control_outputs[i], None), max_depth) {
                Ok(next) => {
                    g = next;
                },
                Err(e) => {
                    proof {
                        lemma_apply_failed(start, links, i + 1, max_depth);
                    }
                    return Err(e);
                },
            }
            i += 1;
        }
        proof {
            assert(links.take(i as int) =~= links);
        }
        Ok(g)
    }

    /// Takes in the operations that `op` must run after.
    pub fn add_control_inputs(self, op: &Operation, max_depth: Option<usize>) -> (r: Result<DepGraph, Error>)
        requires
            self.wf(),
        ensures
            built(r) == apply_links(self@, control_input_links(*op), max_depth),
            r is Ok ==> r.unwrap().wf(),
    {
        let ghost start = self@;
        let ghost links = control_input_links(*op);
        let mut g = self;
        let mut i: usize = 0;
        while i < op.control_inputs.len()
            invariant
                g.wf(),
                start == self@,
                i <= op.control_inputs.len(),
                links == control_input_links(*op),
                apply_links(start, links.take(i as int), max_depth) == Ok::<GraphModel, Error>(g@),
            decreases op.control_inputs.len() - i,
        {
            proof {
                lemma_apply_next(start, links, i as int, max_depth);
            }
            match g.add_op_to_graph((&op.control_inputs[i], None), (&op.id, None), max_depth) {
                Ok(next) => {
                    g = next;
                },
                Err(e) => {
                    proof {
                        lemma_apply_failed(start, links, i + 1, max_depth);
                    }
                    return Err(e);
                },
            }
            i += 1;
        }
        proof {
            assert(links.take(i as int) =~= links);
        }
        Ok(g)
    }

    /// Takes in every link of `op`: its data inputs, the consumers of its
    /// outputs, the operations after it and the operations before it.
    pub fn add_operation(self, op: &Operation, max_depth: Option<usize>) -> (r: Result<DepGraph, Error>)
        requires
            self.wf(),
        ensures
            built(r) == apply_links(self@, op_links(*op), max_depth),
            r is Ok ==> r.unwrap().wf(),
    {
        let ghost start = self@;
        let ghost a = input_links(*op);
        let ghost b = consumer_links(*op, op.consumers@.len() as int);
        let ghost c = control_output_links(*op);
        let ghost d = control_input_links(*op);
        proof {
            lemma_apply_concat(start, a, b, max_depth);
            lemma_apply_concat(start, a + b, c, max_depth);
            lemma_apply_concat(start, a + b + c, d, max_depth);
        }
        let g = match self.add_data_inputs(op, max_depth) {
            Ok(g) => g,
            Err(e) => { return Err(e); },
        };
        let g = match g.add_consumers(op, max_depth) {
            Ok(g) => g,
            Err(e) => { return Err(e); },
        };
        let g = match g.add_control_outputs(op, max_depth) {
            Ok(g) => g,
            Err(e) => { return Err(e); },
        };
        g.add_control_inputs(op, max_depth)
    }
}

/// Builds the graph of a list of operations: every operation that a link
/// names becomes a node, resolved under `max_depth`, and every link an
/// edge, unless it would join a node to itself or repeat an edge.
pub fn generate_graph(ops: &Vec<Operation>, max_depth: Option<usize>) -> (r: Result<DepGraph, Error>)
    ensures
        built(r) == build_spec(ops@, max_depth),
        r is Ok ==> r.unwrap().wf() && well_formed(r.unwrap()@),
{
    let mut g = DepGraph::new();
    let ghost start = g@;
    let mut k: usize = 0;
    while k < ops.len()
        invariant
            g.wf(),
            k <= ops.len(),
            start == empty_graph(),
            apply_links(start, all_links(ops@, k as int), max_depth) == Ok::<GraphModel, Error>(g@),
        decreases ops.len() - k,
    {
        proof {
            lemma_apply_concat(start, all_links(ops@, k as int), op_links(ops@[k as int]), max_depth);
        }
        match g.add_operation(&ops[k], max_depth) {
            Ok(next) => {
                g = next;
            },
            Err(e) => {
                proof {
                    lemma_all_failed(start, ops@, k + 1, ops@.len() as int, max_depth);
                }
                return Err(e);
            },
        }
        k += 1;
    }
    proof {
        g.lemma_wf();
    }
    Ok(g)
}

} // verus!
