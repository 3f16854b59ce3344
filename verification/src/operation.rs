use vstd::prelude::*;

verus! {

/// What identifies a raw operation: its hierarchical name and its type, as
/// the bytes the graph definition holds.
#[derive(Clone, Debug, PartialEq, Eq, PartialOrd, Ord, Hash)]
pub struct OpId {
    pub name: Vec<u8>,
    pub op_type: Vec<u8>,
}

/// The mathematical content of an [`OpId`].
pub struct OpIdModel {
    pub name: Seq<u8>,
    pub op_type: Seq<u8>,
}

impl View for OpId {
    type V = OpIdModel;

    open spec fn view(&self) -> OpIdModel {
        OpIdModel { name: self.name@, op_type: self.op_type@ }
    }
}

/// One slot of an operation.
#[derive(Clone, Debug, PartialEq, Eq, PartialOrd, Ord, Hash)]
pub struct Endpoint {
    pub op: OpId,
    pub slot: usize,
}

/// A raw operation with everything it is connected to.
#[derive(Clone, Debug, PartialEq, Eq, PartialOrd, Ord, Hash)]
pub struct Operation {
    pub id: OpId,
    /// For each input slot, the producer and its output slot.
    pub inputs: Vec<Endpoint>,
    /// For each output slot, the consumers and their input slots.
    pub consumers: Vec<Vec<Endpoint>>,
    /// The operations that must run after this one.
    pub control_outputs: Vec<OpId>,
    /// The operations that this one must run after.
    pub control_inputs: Vec<OpId>,
}

} // verus!
