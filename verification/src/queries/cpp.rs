//! The results of analysing C++ source: snippets, calls, scopes.

use vstd::prelude::*;

verus! {

/// The kinds of C++ code snippets.
#[derive(Debug, Clone, Copy, PartialEq, Eq, Structural)]
pub enum CppSnippetType {
    Function,
    Class,
    Namespace,
    Variable,
    Include,
    Method,
    Constructor,
    Destructor,
}

/// A C++ definition: its kind, name, text and where it stands.
#[derive(Debug, Clone)]
pub struct CppSnippet {
    pub snippet_type: CppSnippetType,
    pub name: String,
    pub content: String,
    pub start_line: usize,
    pub end_line: usize,
    pub start_column: usize,
    pub end_column: usize,
    pub file_path: String,
    pub namespace: Option<String>,
    pub class_name: Option<String>,
    pub parameters: Vec<String>,
    pub return_type: Option<String>,
}

/// A call found in C++ source.
#[derive(Debug)]
pub struct CppFunctionCall {
    pub caller_name: String,
    pub called_name: String,
    /// Line and column.
    pub caller_location: (usize, usize),
    /// Line and column.
    pub called_location: (usize, usize),
    pub caller_file: String,
    pub called_file: Option<String>,
    pub is_resolved: bool,
    pub namespace: Option<String>,
    pub class_name: Option<String>,
}

impl Clone for CppFunctionCall {
    fn clone(&self) -> (res: Self)
        ensures
            res == *self,
    {
        CppFunctionCall {
            caller_name: self.caller_name.clone(),
            called_name: self.called_name.clone(),
            caller_location: self.caller_location,
            called_location: self.called_location,
            caller_file: self.caller_file.clone(),
            called_file: crate::cha::types::clone_opt_string(&self.called_file),
            is_resolved: self.is_resolved,
            namespace: crate::cha::types::clone_opt_string(&self.namespace),
            class_name: crate::cha::types::clone_opt_string(&self.class_name),
        }
    }
}


/// A C++ scope: a region of source with a name.
#[derive(Debug, Clone)]
pub struct CppScope {
    pub name: String,
    pub scope_type: CppSnippetType,
    pub start_line: usize,
    pub end_line: usize,
    pub start_column: usize,
    pub end_column: usize,
    pub parent_scope: Option<String>,
    pub namespace: Option<String>,
    pub class_name: Option<String>,
}

/// What the analysis of C++ source found.
#[derive(Debug, Clone)]
pub struct CppAnalysisResult {
    pub snippets: Vec<CppSnippet>,
    pub function_calls: Vec<CppFunctionCall>,
    pub scopes: Vec<CppScope>,
    pub includes: Vec<String>,
    /// Name and members, one entry per name.
    pub namespaces: Vec<(String, Vec<String>)>,
    /// Name and members, one entry per name.
    pub classes: Vec<(String, Vec<String>)>,
}

} // verus!
