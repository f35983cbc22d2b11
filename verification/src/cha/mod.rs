//! Class hierarchy analysis (CHA): resolving calls, virtual calls in
//! particular, against the inheritance hierarchy of the analysed classes.

pub mod types;
pub mod graph;
pub mod hierarchy;
pub mod idset;
pub mod analysis;
pub mod language_extensions;
pub mod extractor;
