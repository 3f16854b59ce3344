use vstd::prelude::*;

verus! {

/// What one run is asked to do.
#[derive(Clone, Debug, PartialEq, Eq, PartialOrd, Ord)]
pub struct Config {
    /// Where the graph definition is read from.
    pub input: String,
    /// Where the rendered text goes; standard output when absent.
    pub output: Option<String>,
    /// Number of name segments past which nodes collapse into blocks.
    pub max_depth: Option<usize>,
}

} // verus!
