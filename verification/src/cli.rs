//! The command line: storage modes and commands.

use vstd::prelude::*;
use crate::text::{decimal, push_decimal, string_push_str};

verus! {

/// How a code graph is persisted.
#[derive(Debug, Clone, Copy, PartialEq, Eq, Structural)]
pub enum StorageMode {
    /// JSON only.
    Json,
    /// Binary only.
    Binary,
    /// Both JSON and binary.
    Both,
}

impl Default for StorageMode {
    fn default() -> (res: Self)
        ensures
            res == StorageMode::Json,
    {
        StorageMode::Json
    }
}

/// The parsed command line.
#[derive(Debug)]
pub struct Cli {
    /// Verbose output.
    pub verbose: bool,
    /// Storage mode for code graph persistence.
    pub storage_mode: StorageMode,
    pub command: Commands,
}

/// The commands.
#[derive(Debug)]
pub enum Commands {
    /// Analyse code dependencies and write a code graph.
    Analyze {
        /// Input directory.
        input: Option<String>,
        /// Output file.
        output: Option<String>,
        /// Output format (json, dot, graphml, gexf).
        format: String,
        /// Storage mode for this command.
        storage_mode: Option<StorageMode>,
    },
    /// Analyse a repository, with incremental updates.
    Repo {
        /// The repository.
        path: String,
        /// Where the state is kept.
        state_dir: String,
        /// Update incrementally.
        incremental: bool,
        /// A search query.
        search: Option<String>,
        /// Show statistics.
        stats: bool,
        /// Storage mode for this command.
        storage_mode: Option<StorageMode>,
    },
    /// Serve HTTP on the given address (such as 127.0.0.1:8080).
    Server {
        address: Option<String>,
        /// Storage mode for this command.
        storage_mode: Option<StorageMode>,
    },
}

/// Runs the command line.
pub struct CodeGraphRunner;

impl CodeGraphRunner {
    /// A runner.
    pub fn new() -> (res: Self) {
        CodeGraphRunner
    }
}

/// The address the server listens on: the one given, or the local host on
/// the configured port (8080 when there is no configuration).
pub open spec fn server_address_of(address: Option<Seq<char>>, configured_port: Option<u16>) -> Seq<char> {
    match address {
        Some(a) => a,
        None => "127.0.0.1:"@ + decimal(match configured_port { Some(p) => p as nat, None => 8080 }),
    }
}

/// The address the server listens on.
pub fn server_address(address: &Option<String>, configured_port: Option<u16>) -> (res: String)
    ensures
        res@ == server_address_of(
            match address { Some(a) => Some(a@), None => None },
            configured_port,
        ),
{
    match address {
        Some(a) => a.clone(),
        None => {
            let port: u16 = match configured_port { Some(p) => p, None => 8080 };
            let mut s = String::new();
            string_push_str(&mut s, "127.0.0.1:");
            push_decimal(&mut s, port as u64);
            s
        },
    }
}

/// The storage mode of a command: its own, or the command line's.
pub fn effective_storage_mode(command_mode: Option<StorageMode>, cli_mode: StorageMode) -> (res: StorageMode)
    ensures
        res == match command_mode { Some(m) => m, None => cli_mode },
{
    match command_mode {
        Some(m) => m,
        None => cli_mode,
    }
}

} // verus!
