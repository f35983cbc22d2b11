//! Class-hierarchy analysis and code-graph bookkeeping for multi-language
//! source trees, with the resolution rules proved against their contracts.

pub mod text;
pub mod cha;
pub mod queries;
pub mod http;
pub mod config;
pub mod cli;
pub mod languages;
pub mod graph_types;
pub mod table;
pub mod parser;
pub mod cha_simple;
pub mod parsers;
pub mod analyzers;
pub mod services;
