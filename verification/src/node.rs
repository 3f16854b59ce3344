use crate::error::Error;
use crate::operation::OpId;
use crate::text::{decode, split_name, split_path, texts};
use vstd::prelude::*;
use vstd::utf8::{decode_utf8, valid_utf8};

verus! {

/// One operation, or one collapsed group of operations.
#[derive(Clone, Debug, PartialEq, Eq, PartialOrd, Ord, Hash)]
pub struct Node {
    pub name: Vec<String>,
    pub ty: String,
}

/// The mathematical content of a [`Node`]: its path segments and its label.
pub struct NodeModel {
    pub name: Seq<Seq<char>>,
    pub ty: Seq<char>,
}

impl View for Node {
    type V = NodeModel;

    open spec fn view(&self) -> NodeModel {
        NodeModel { name: texts(self.name@), ty: self.ty@ }
    }
}

/// The label of a node that stands for a collapsed group.
pub open spec fn block_label() -> Seq<char> {
    "Block"@
}

/// What limiting to `max_depth` segments makes of a node.
pub open spec fn limit_depth_spec(n: NodeModel, max_depth: usize) -> NodeModel {
    if n.name.len() > max_depth {
        NodeModel { name: n.name.take(max_depth as int), ty: block_label() }
    } else {
        n
    }
}

/// The node that an operation with these name and type bytes resolves to,
/// or the encoding error that stops the resolution.
pub open spec fn resolve_spec(name: Seq<u8>, op_type: Seq<u8>, max_depth: Option<usize>) -> Result<
    NodeModel,
    Error,
> {
    if !valid_utf8(name) {
        Err(Error::InvalidName)
    } else if !valid_utf8(op_type) {
        Err(Error::InvalidType)
    } else {
        let full = NodeModel { name: split_path(decode_utf8(name)), ty: decode_utf8(op_type) };
        match max_depth {
            Some(d) => Ok(limit_depth_spec(full, d)),
            None => Ok(full),
        }
    }
}

/// The view of a resolution's outcome.
pub open spec fn outcome(r: Result<Node, Error>) -> Result<NodeModel, Error> {
    match r {
        Ok(n) => Ok(n@),
        Err(e) => Err(e),
    }
}

impl Node {
    /// The node of an operation: its full name, split into segments, and its type.
    pub fn from_operation(op: &OpId) -> (r: Result<Node, Error>)
        ensures
            outcome(r) == resolve_spec(op.name@, op.op_type@, None),
    {
        let name = match decode(&op.name) {
            Some(s) => s,
            None => { return Err(Error::InvalidName); },
        };
        let ty = match decode(&op.op_type) {
            Some(s) => s,
            None => { return Err(Error::InvalidType); },
        };
        Ok(Node { name: split_name(name.as_str()), ty })
    }

    /// The node of an operation under a depth limit: a name of more than
    /// `max_depth` segments collapses into the block of its first `max_depth`.
    pub fn from_operation_with_depth(op: &OpId, max_depth: usize) -> (r: Result<Node, Error>)
        ensures
            outcome(r) == resolve_spec(op.name@, op.op_type@, Some(max_depth)),
    {
        match Node::from_operation(op) {
            Ok(mut ret) => {
                ret.limit_depth(max_depth);
                Ok(ret)
            },
            Err(e) => Err(e),
        }
    }

    /// The node of an operation, under a depth limit where one is given.
    pub fn resolve(op: &OpId, max_depth: Option<usize>) -> (r: Result<Node, Error>)
        ensures
            outcome(r) == resolve_spec(op.name@, op.op_type@, max_depth),
    {
        match max_depth {
            Some(d) => Node::from_operation_with_depth(op, d),
            None => Node::from_operation(op),
        }
    }

    /// Cuts the name down to its first `max_depth` segments and marks the
    /// node as a block, if the name is longer than that.
    pub fn limit_depth(&mut self, max_depth: usize)
        ensures
            final(self)@ == limit_depth_spec(old(self)@, max_depth),
    {
        if max_depth < self.name.len() {
            self.name.truncate(max_depth);
            self.ty = "Block".to_owned();
            proof {
                assert(texts(self.name@) =~= texts(old(self).name@).take(max_depth as int));
            }
        }
    }

    /// Whether two nodes are the same entity: equal names and equal labels.
    pub fn same(&self, other: &Node) -> (b: bool)
        ensures
            b == (self@ == other@),
    {
        if self.ty != other.ty || self.name.len() != other.name.len() {
            proof {
                assert(texts(self.name@).len() == self.name@.len());
                assert(texts(other.name@).len() == other.name@.len());
            }
            return false;
        }
        let mut i: usize = 0;
        while i < self.name.len()
            invariant
                i <= self.name.len(),
                self.name.len() == other.name.len(),
                forall|k: int| 0 <= k < i ==> self.name@[k]@ == other.name@[k]@,
            decreases self.name.len() - i,
        {
            if self.name[i] != other.name[i] {
                proof {
                    assert(texts(self.name@)[i as int] != texts(other.name@)[i as int]);
                }
                return false;
            }
            i += 1;
        }
        proof {
            assert(texts(self.name@) =~= texts(other.name@));
        }
        true
    }

    /// A copy with the same content.
    pub fn duplicate(&self) -> (n: Node)
        ensures
            n@ == self@,
    {
        let mut name: Vec<String> = Vec::new();
        let mut i: usize = 0;
        while i < self.name.len()
            invariant
                i <= self.name.len(),
                name@.len() == i,
                forall|k: int| 0 <= k < i ==> name@[k]@ == self.name@[k]@,
            decreases self.name.len() - i,
        {
            name.push(self.name[i].clone());
            i += 1;
        }
        proof {
            assert(texts(name@) =~= texts(self.name@));
        }
        Node { name, ty: self.ty.clone() }
    }
}

} // verus!
