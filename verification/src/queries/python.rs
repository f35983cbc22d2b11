//! The results of analysing Python source: snippets, calls, scopes.

use vstd::prelude::*;

verus! {

/// The kinds of Python code snippets.
#[derive(Debug, Clone, Copy, PartialEq, Eq, Structural)]
pub enum PythonSnippetType {
    Function,
    Class,
    Method,
    Module,
    Variable,
    Import,
    Decorator,
}

/// A Python definition: its kind, name, text and where it stands.
#[derive(Debug)]
pub struct PythonSnippet {
    pub snippet_type: PythonSnippetType,
    pub name: String,
    pub content: String,
    pub start_line: usize,
    pub end_line: usize,
    pub start_column: usize,
    pub end_column: usize,
    pub file_path: String,
    pub module_name: Option<String>,
    pub class_name: Option<String>,
    pub parameters: Vec<String>,
    pub return_type: Option<String>,
    pub decorators: Vec<String>,
}

/// A call found in Python source.
#[derive(Debug)]
pub struct PythonFunctionCall {
    pub caller_name: String,
    pub called_name: String,
    /// Line and column.
    pub caller_location: (usize, usize),
    /// Line and column.
    pub called_location: (usize, usize),
    pub caller_file: String,
    pub called_file: Option<String>,
    pub is_resolved: bool,
    pub module_name: Option<String>,
    pub class_name: Option<String>,
    pub arguments: Vec<String>,
    /// Keyword and argument text, one entry per keyword.
    pub keyword_arguments: Vec<(String, String)>,
}

/// `b` is a copy of `a`: the same fields, the lists equal item by item.
pub open spec fn same_snippet(a: PythonSnippet, b: PythonSnippet) -> bool {
    &&& a.snippet_type == b.snippet_type
    &&& a.name == b.name
    &&& a.content == b.content
    &&& a.start_line == b.start_line
    &&& a.end_line == b.end_line
    &&& a.start_column == b.start_column
    &&& a.end_column == b.end_column
    &&& a.file_path == b.file_path
    &&& a.module_name == b.module_name
    &&& a.class_name == b.class_name
    &&& a.parameters@ == b.parameters@
    &&& a.return_type == b.return_type
    &&& a.decorators@ == b.decorators@
}

impl Clone for PythonSnippet {
    fn clone(&self) -> (res: Self)
        ensures
            same_snippet(*self, res),
    {
        PythonSnippet {
            snippet_type: self.snippet_type,
            name: self.name.clone(),
            content: self.content.clone(),
            start_line: self.start_line,
            end_line: self.end_line,
            start_column: self.start_column,
            end_column: self.end_column,
            file_path: self.file_path.clone(),
            module_name: crate::cha::types::clone_opt_string(&self.module_name),
            class_name: crate::cha::types::clone_opt_string(&self.class_name),
            parameters: crate::cha::hierarchy::clone_string_vec(&self.parameters),
            return_type: crate::cha::types::clone_opt_string(&self.return_type),
            decorators: crate::cha::hierarchy::clone_string_vec(&self.decorators),
        }
    }
}

/// A copy of a list of string pairs.
pub fn clone_pairs(v: &Vec<(String, String)>) -> (res: Vec<(String, String)>)
    ensures
        res@ == v@,
{
    let mut res: Vec<(String, String)> = Vec::new();
    let mut i: usize = 0;
    while i < v.len()
        invariant
            i <= v.len(),
            res@ == v@.subrange(0, i as int),
        decreases v.len() - i,
    {
        res.push((v[i].0.clone(), v[i].1.clone()));
        proof { assert(res@ =~= v@.subrange(0, i + 1)); }
        i = i + 1;
    }
    proof { assert(v@.subrange(0, v.len() as int) =~= v@); }
    res
}

impl Clone for PythonFunctionCall {
    fn clone(&self) -> (res: Self)
        ensures
            res == (PythonFunctionCall { arguments: res.arguments, keyword_arguments: res.keyword_arguments, ..*self }),
            res.arguments@ == self.arguments@,
            res.keyword_arguments@ == self.keyword_arguments@,
    {
        PythonFunctionCall {
            caller_name: self.caller_name.clone(),
            called_name: self.called_name.clone(),
            caller_location: self.caller_location,
            called_location: self.called_location,
            caller_file: self.caller_file.clone(),
            called_file: crate::cha::types::clone_opt_string(&self.called_file),
            is_resolved: self.is_resolved,
            module_name: crate::cha::types::clone_opt_string(&self.module_name),
            class_name: crate::cha::types::clone_opt_string(&self.class_name),
            arguments: crate::cha::hierarchy::clone_string_vec(&self.arguments),
            keyword_arguments: clone_pairs(&self.keyword_arguments),
        }
    }
}


/// A Python scope: a region of source with a name.
#[derive(Debug, Clone)]
pub struct PythonScope {
    pub name: String,
    pub scope_type: PythonSnippetType,
    pub start_line: usize,
    pub end_line: usize,
    pub start_column: usize,
    pub end_column: usize,
    pub parent_scope: Option<String>,
    pub module_name: Option<String>,
    pub class_name: Option<String>,
}

/// What the analysis of Python source found.
#[derive(Debug, Clone)]
pub struct PythonAnalysisResult {
    pub snippets: Vec<PythonSnippet>,
    pub function_calls: Vec<PythonFunctionCall>,
    pub scopes: Vec<PythonScope>,
    pub imports: Vec<String>,
    /// Name and members, one entry per name.
    pub modules: Vec<(String, Vec<String>)>,
    /// Name and members, one entry per name.
    pub classes: Vec<(String, Vec<String>)>,
}

} // verus!
