//! A simpler class-hierarchy analysis: classes know their parent and their
//! methods; a call with a receiver type resolves to the methods of that name
//! in the receiver type and all its subtypes, a call without one to every
//! function of that name.

pub mod types;
pub mod analysis;
