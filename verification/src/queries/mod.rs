//! What the per-language analyses find in source files.

pub mod rust;
pub mod java;
pub mod python;
pub mod cpp;
pub mod javascript;
pub mod typescript;
