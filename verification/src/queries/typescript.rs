//! The results of analysing TypeScript source: snippets, calls, scopes.

use vstd::prelude::*;

verus! {

/// The kinds of TypeScript code snippets.
#[derive(Debug, Clone, Copy, PartialEq, Eq, Structural)]
pub enum TypeScriptSnippetType {
    Function,
    Class,
    Interface,
    Type,
    Method,
    Module,
    Variable,
    Import,
    Export,
    Decorator,
    Generic,
    Enum,
    Namespace,
}

/// A TypeScript definition: its kind, name, text and where it stands.
#[derive(Debug, Clone)]
pub struct TypeScriptSnippet {
    pub snippet_type: TypeScriptSnippetType,
    pub name: String,
    pub content: String,
    pub start_line: usize,
    pub end_line: usize,
    pub start_column: usize,
    pub end_column: usize,
    pub file_path: String,
    pub module_name: Option<String>,
    pub class_name: Option<String>,
    pub interface_name: Option<String>,
    pub parameters: Vec<String>,
    pub return_type: Option<String>,
    pub decorators: Vec<String>,
    pub type_parameters: Vec<String>,
    pub extends: Vec<String>,
    pub implements: Vec<String>,
}

/// A call found in TypeScript source.
#[derive(Debug)]
pub struct TypeScriptFunctionCall {
    pub caller_name: String,
    pub called_name: String,
    /// Line and column.
    pub caller_location: (usize, usize),
    /// Line and column.
    pub called_location: (usize, usize),
    pub caller_file: String,
    pub called_file: Option<String>,
    pub is_resolved: bool,
    pub module_name: Option<String>,
    pub class_name: Option<String>,
    pub interface_name: Option<String>,
    pub arguments: Vec<String>,
    pub type_arguments: Vec<String>,
}

impl Clone for TypeScriptFunctionCall {
    fn clone(&self) -> (res: Self)
        ensures
            res == (TypeScriptFunctionCall { arguments: res.arguments, type_arguments: res.type_arguments, ..*self }),
            res.arguments@ == self.arguments@,
            res.type_arguments@ == self.type_arguments@,
    {
        TypeScriptFunctionCall {
            caller_name: self.caller_name.clone(),
            called_name: self.called_name.clone(),
            caller_location: self.caller_location,
            called_location: self.called_location,
            caller_file: self.caller_file.clone(),
            called_file: crate::cha::types::clone_opt_string(&self.called_file),
            is_resolved: self.is_resolved,
            module_name: crate::cha::types::clone_opt_string(&self.module_name),
            class_name: crate::cha::types::clone_opt_string(&self.class_name),
            interface_name: crate::cha::types::clone_opt_string(&self.interface_name),
            arguments: crate::cha::hierarchy::clone_string_vec(&self.arguments),
            type_arguments: crate::cha::hierarchy::clone_string_vec(&self.type_arguments),
        }
    }
}


/// A TypeScript scope: a region of source with a name.
#[derive(Debug, Clone)]
pub struct TypeScriptScope {
    pub name: String,
    pub scope_type: TypeScriptSnippetType,
    pub start_line: usize,
    pub end_line: usize,
    pub start_column: usize,
    pub end_column: usize,
    pub parent_scope: Option<String>,
    pub module_name: Option<String>,
    pub class_name: Option<String>,
    pub interface_name: Option<String>,
}

/// What the analysis of TypeScript source found.
#[derive(Debug, Clone)]
pub struct TypeScriptAnalysisResult {
    pub snippets: Vec<TypeScriptSnippet>,
    pub function_calls: Vec<TypeScriptFunctionCall>,
    pub scopes: Vec<TypeScriptScope>,
    pub imports: Vec<String>,
    pub exports: Vec<String>,
    /// Name and members, one entry per name.
    pub modules: Vec<(String, Vec<String>)>,
    /// Name and members, one entry per name.
    pub classes: Vec<(String, Vec<String>)>,
    /// Name and members, one entry per name.
    pub interfaces: Vec<(String, Vec<String>)>,
}

} // verus!
