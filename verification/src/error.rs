use vstd::prelude::*;

verus! {

/// Why a graph could not be built.
#[derive(Clone, Copy, Debug, PartialEq, Eq, Structural)]
pub enum Error {
    /// An operation's name is not valid UTF-8.
    InvalidName,
    /// An operation's type is not valid UTF-8.
    InvalidType,
    /// The graph would need more nodes or edges than its indices can number.
    GraphFull,
}

} // verus!
