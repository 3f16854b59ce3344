//! Builds a directed graph of named, typed nodes out of a list of raw
//! operations, collapsing deep names into block nodes on request.

pub mod builder;
pub mod config;
pub mod edge;
pub mod error;
pub mod graph;
pub mod laws;
pub mod links;
pub mod model;
pub mod node;
pub mod operation;
pub mod store;
pub mod text;
