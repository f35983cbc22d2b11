//! The HTTP interface's request and response records, and the computations
//! behind its handlers.

pub mod models;
pub mod snippets;
pub mod call_graph;
pub mod tree;
