use vstd::prelude::*;

verus! {

/// One directed relationship between two nodes.
#[derive(Clone, Debug, PartialEq, Eq, PartialOrd, Ord, Hash)]
pub struct Edge {
    /// Dimension sizes of the value carried; never filled in here.
    pub dim: Vec<Option<usize>>,
    /// Argument slot on the consuming operation; absent on control edges.
    pub input_index: Option<usize>,
    /// Output slot on the producing operation; absent on control edges.
    pub output_index: Option<usize>,
}

/// The mathematical content of an [`Edge`].
pub struct EdgeModel {
    pub dim: Seq<Option<usize>>,
    pub input_index: Option<usize>,
    pub output_index: Option<usize>,
}

impl View for Edge {
    type V = EdgeModel;

    open spec fn view(&self) -> EdgeModel {
        EdgeModel { dim: self.dim@, input_index: self.input_index, output_index: self.output_index }
    }
}

impl Edge {
    /// An edge without dimensions that carries the two slot numbers.
    pub fn new(input_index: Option<usize>, output_index: Option<usize>) -> (e: Edge)
        ensures
            e@ == link_edge(input_index, output_index),
    {
        Edge { dim: Vec::new(), input_index, output_index }
    }

    /// A copy with the same content.
    pub fn duplicate(&self) -> (e: Edge)
        ensures
            e@ == self@,
    {
        let mut dim: Vec<Option<usize>> = Vec::new();
        let mut i: usize = 0;
        while i < self.dim.len()
            invariant
                i <= self.dim.len(),
                dim@ == self.dim@.take(i as int),
            decreases self.dim.len() - i,
        {
            dim.push(self.dim[i]);
            proof {
                assert(self.dim@.take(i + 1) =~= self.dim@.take(i as int).push(self.dim@[i as int]));
            }
            i += 1;
        }
        proof {
            assert(self.dim@.take(self.dim.len() as int) =~= self.dim@);
        }
        Edge { dim, input_index: self.input_index, output_index: self.output_index }
    }
}

/// The edge that a freshly discovered link gets: no dimensions, the two slots.
pub open spec fn link_edge(input_index: Option<usize>, output_index: Option<usize>) -> EdgeModel {
    EdgeModel { dim: Seq::empty(), input_index, output_index }
}

} // verus!
