//! The results of analysing JavaScript source: snippets, calls, scopes.

use vstd::prelude::*;

verus! {

/// The kinds of JavaScript code snippets.
#[derive(Debug, Clone, Copy, PartialEq, Eq, Structural)]
pub enum JavaScriptSnippetType {
    Function,
    Class,
    Object,
    Method,
    Module,
    Variable,
    Import,
    Export,
    Decorator,
    ArrowFunction,
    FunctionExpression,
    ObjectMethod,
    ClassMethod,
    Constructor,
}

/// A JavaScript definition: its kind, name, text and where it stands.
#[derive(Debug, Clone)]
pub struct JavaScriptSnippet {
    pub snippet_type: JavaScriptSnippetType,
    pub name: String,
    pub content: String,
    pub start_line: usize,
    pub end_line: usize,
    pub start_column: usize,
    pub end_column: usize,
    pub file_path: String,
    pub module_name: Option<String>,
    pub class_name: Option<String>,
    pub object_name: Option<String>,
    pub parameters: Vec<String>,
    pub return_type: Option<String>,
    pub decorators: Vec<String>,
    pub extends: Vec<String>,
    pub implements: Vec<String>,
    pub is_async: bool,
    pub is_generator: bool,
}

/// A call found in JavaScript source.
#[derive(Debug)]
pub struct JavaScriptFunctionCall {
    pub caller_name: String,
    pub called_name: String,
    /// Line and column.
    pub caller_location: (usize, usize),
    /// Line and column.
    pub called_location: (usize, usize),
    pub caller_file: String,
    pub called_file: Option<String>,
    pub is_resolved: bool,
    pub module_name: Option<String>,
    pub class_name: Option<String>,
    pub object_name: Option<String>,
    pub arguments: Vec<String>,
    pub is_method_call: bool,
    pub is_constructor_call: bool,
}

impl Clone for JavaScriptFunctionCall {
    fn clone(&self) -> (res: Self)
        ensures
            res == (JavaScriptFunctionCall { arguments: res.arguments, ..*self }),
            res.arguments@ == self.arguments@,
    {
        JavaScriptFunctionCall {
            caller_name: self.caller_name.clone(),
            called_name: self.called_name.clone(),
            caller_location: self.caller_location,
            called_location: self.called_location,
            caller_file: self.caller_file.clone(),
            called_file: crate::cha::types::clone_opt_string(&self.called_file),
            is_resolved: self.is_resolved,
            module_name: crate::cha::types::clone_opt_string(&self.module_name),
            class_name: crate::cha::types::clone_opt_string(&self.class_name),
            object_name: crate::cha::types::clone_opt_string(&self.object_name),
            arguments: crate::cha::hierarchy::clone_string_vec(&self.arguments),
            is_method_call: self.is_method_call,
            is_constructor_call: self.is_constructor_call,
        }
    }
}


/// A JavaScript scope: a region of source with a name.
#[derive(Debug, Clone)]
pub struct JavaScriptScope {
    pub name: String,
    pub scope_type: JavaScriptSnippetType,
    pub start_line: usize,
    pub end_line: usize,
    pub start_column: usize,
    pub end_column: usize,
    pub parent_scope: Option<String>,
    pub module_name: Option<String>,
    pub class_name: Option<String>,
    pub object_name: Option<String>,
}

/// What the analysis of JavaScript source found.
#[derive(Debug, Clone)]
pub struct JavaScriptAnalysisResult {
    pub snippets: Vec<JavaScriptSnippet>,
    pub function_calls: Vec<JavaScriptFunctionCall>,
    pub scopes: Vec<JavaScriptScope>,
    pub imports: Vec<String>,
    pub exports: Vec<String>,
    /// Name and members, one entry per name.
    pub modules: Vec<(String, Vec<String>)>,
    /// Name and members, one entry per name.
    pub classes: Vec<(String, Vec<String>)>,
    /// Name and members, one entry per name.
    pub objects: Vec<(String, Vec<String>)>,
}

} // verus!
