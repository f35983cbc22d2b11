//! The results of analysing Rust source: snippets, calls, scopes.

use vstd::prelude::*;

verus! {

/// The kinds of Rust code snippets.
#[derive(Debug, Clone, Copy, PartialEq, Eq, Structural)]
pub enum RustSnippetType {
    Function,
    Struct,
    Enum,
    Trait,
    Impl,
    Module,
    Macro,
    Type,
    Const,
    Static,
    Variable,
}

/// A Rust definition: its kind, name, text and where it stands.
#[derive(Debug, Clone)]
pub struct RustSnippet {
    pub snippet_type: RustSnippetType,
    pub name: String,
    pub start_line: usize,
    pub end_line: usize,
    pub file_path: String,
    pub content: String,
    pub scope: Option<String>,
    pub modifiers: Vec<String>,
    pub generics: Vec<String>,
    pub parameters: Vec<String>,
    pub return_type: Option<String>,
}

/// A call found in Rust source.
#[derive(Debug)]
pub struct RustMethodCall {
    pub caller_name: String,
    pub called_name: String,
    /// Line and column.
    pub location: (usize, usize),
    pub file_path: String,
    pub arguments: Vec<String>,
    pub type_arguments: Vec<String>,
}

impl Clone for RustMethodCall {
    fn clone(&self) -> (res: Self)
        ensures
            res == (RustMethodCall { arguments: res.arguments, type_arguments: res.type_arguments, ..*self }),
            res.arguments@ == self.arguments@,
            res.type_arguments@ == self.type_arguments@,
    {
        RustMethodCall {
            caller_name: self.caller_name.clone(),
            called_name: self.called_name.clone(),
            location: self.location,
            file_path: self.file_path.clone(),
            arguments: crate::cha::hierarchy::clone_string_vec(&self.arguments),
            type_arguments: crate::cha::hierarchy::clone_string_vec(&self.type_arguments),
        }
    }
}


/// A Rust scope: a region of source with a name.
#[derive(Debug, Clone)]
pub struct RustScope {
    pub name: String,
    pub scope_type: RustSnippetType,
    pub start_line: usize,
    pub end_line: usize,
    pub file_path: String,
    pub parent_scope: Option<String>,
}

/// What the analysis of Rust source found.
#[derive(Debug, Clone)]
pub struct RustAnalysisResult {
    pub snippets: Vec<RustSnippet>,
    pub method_calls: Vec<RustMethodCall>,
    pub scopes: Vec<RustScope>,
    pub imports: Vec<String>,
    /// Name and members, one entry per name.
    pub modules: Vec<(String, Vec<String>)>,
    /// Name and members, one entry per name.
    pub structs: Vec<(String, Vec<String>)>,
    /// Name and members, one entry per name.
    pub enums: Vec<(String, Vec<String>)>,
    /// Name and members, one entry per name.
    pub traits: Vec<(String, Vec<String>)>,
    /// Name and members, one entry per name.
    pub macros: Vec<(String, Vec<String>)>,
    /// Name and members, one entry per name.
    pub types: Vec<(String, Vec<String>)>,
}

} // verus!
