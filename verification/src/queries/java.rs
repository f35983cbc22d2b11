//! The results of analysing Java source: snippets, calls, scopes.

use vstd::prelude::*;

verus! {

/// The kinds of Java code snippets.
#[derive(Debug, Clone, Copy, PartialEq, Eq, Structural)]
pub enum JavaSnippetType {
    Method,
    Class,
    Interface,
    Package,
    Import,
}

/// A Java definition: its kind, name, text and where it stands.
#[derive(Debug, Clone)]
pub struct JavaSnippet {
    pub snippet_type: JavaSnippetType,
    pub name: String,
    pub content: String,
    pub start_line: usize,
    pub end_line: usize,
    pub start_column: usize,
    pub end_column: usize,
    pub file_path: String,
    pub package_name: Option<String>,
    pub class_name: Option<String>,
    pub parameters: Vec<String>,
    pub return_type: Option<String>,
}

/// A call found in Java source.
#[derive(Debug)]
pub struct JavaMethodCall {
    pub caller_name: String,
    pub called_name: String,
    /// Line and column.
    pub caller_location: (usize, usize),
    /// Line and column.
    pub called_location: (usize, usize),
    pub caller_file: String,
    pub called_file: Option<String>,
    pub is_resolved: bool,
    pub package_name: Option<String>,
    pub class_name: Option<String>,
}

impl Clone for JavaMethodCall {
    fn clone(&self) -> (res: Self)
        ensures
            res == *self,
    {
        JavaMethodCall {
            caller_name: self.caller_name.clone(),
            called_name: self.called_name.clone(),
            caller_location: self.caller_location,
            called_location: self.called_location,
            caller_file: self.caller_file.clone(),
            called_file: crate::cha::types::clone_opt_string(&self.called_file),
            is_resolved: self.is_resolved,
            package_name: crate::cha::types::clone_opt_string(&self.package_name),
            class_name: crate::cha::types::clone_opt_string(&self.class_name),
        }
    }
}


/// A Java scope: a region of source with a name.
#[derive(Debug, Clone)]
pub struct JavaScope {
    pub name: String,
    pub scope_type: JavaSnippetType,
    pub start_line: usize,
    pub end_line: usize,
    pub start_column: usize,
    pub end_column: usize,
    pub parent_scope: Option<String>,
    pub package_name: Option<String>,
    pub class_name: Option<String>,
}

/// What the analysis of Java source found.
#[derive(Debug, Clone)]
pub struct JavaAnalysisResult {
    pub snippets: Vec<JavaSnippet>,
    pub method_calls: Vec<JavaMethodCall>,
    pub scopes: Vec<JavaScope>,
    pub imports: Vec<String>,
    /// Name and members, one entry per name.
    pub packages: Vec<(String, Vec<String>)>,
    /// Name and members, one entry per name.
    pub classes: Vec<(String, Vec<String>)>,
    /// Name and members, one entry per name.
    pub interfaces: Vec<(String, Vec<String>)>,
}

} // verus!
