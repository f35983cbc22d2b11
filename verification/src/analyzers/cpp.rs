//! The C++ parser's work on what the syntax tree gave: the caller of each
//! call, the namespace and class around each definition, and parameter lists.

use vstd::prelude::*;
use crate::queries::cpp::{CppSnippet, CppSnippetType, CppFunctionCall, CppScope, CppAnalysisResult};
use crate::analyzers::common::{split_parameters, parameter_list};

verus! {

/// The name of the first scope, from `i` on, of kind `kind` whose lines hold `line`.
pub open spec fn cpp_scope_from(scopes: Seq<CppScope>, kind: CppSnippetType, line: nat, i: nat) -> Option<String>
    decreases scopes.len() - i,
{
    if i >= scopes.len() {
        None
    } else if scopes[i as int].scope_type == kind && scopes[i as int].start_line <= line <= scopes[i as int].end_line {
        Some(scopes[i as int].name)
    } else {
        cpp_scope_from(scopes, kind, line, i + 1)
    }
}

/// `s` holds the position (line and column) within its lines and columns.
pub open spec fn cpp_holds(s: CppScope, loc: (usize, usize)) -> bool {
    s.start_line <= loc.0 <= s.end_line && s.start_column <= loc.1 <= s.end_column
}

/// The name of the first function scope, from `i` on, that holds `loc`.
pub open spec fn cpp_function_from(scopes: Seq<CppScope>, loc: (usize, usize), i: nat) -> Option<String>
    decreases scopes.len() - i,
{
    if i >= scopes.len() {
        None
    } else if scopes[i as int].scope_type == CppSnippetType::Function && cpp_holds(scopes[i as int], loc) {
        Some(scopes[i as int].name)
    } else {
        cpp_function_from(scopes, loc, i + 1)
    }
}

/// A call with its caller set to the function around it, if any.
pub open spec fn cpp_call_with_caller(scopes: Seq<CppScope>, c: CppFunctionCall) -> CppFunctionCall {
    match cpp_function_from(scopes, c.caller_location, 0) {
        Some(n) => CppFunctionCall { caller_name: n, ..c },
        None => c,
    }
}

/// A definition with its namespace and class set to those around it, where
/// there are such.
pub open spec fn cpp_snippet_placed(scopes: Seq<CppScope>, s: CppSnippet) -> CppSnippet {
    let line = s.start_line as nat;
    CppSnippet {
        namespace: match cpp_scope_from(scopes, CppSnippetType::Namespace, line, 0) {
            Some(n) => Some(n),
            None => s.namespace,
        },
        class_name: match cpp_scope_from(scopes, CppSnippetType::Class, line, 0) {
            Some(n) => Some(n),
            None => s.class_name,
        },
        ..s
    }
}

/// The first scope of kind `kind` whose lines hold `line`.
fn scope_name_at(scopes: &Vec<CppScope>, kind: CppSnippetType, line: usize) -> (res: Option<String>)
    ensures
        res == cpp_scope_from(scopes@, kind, line as nat, 0),
{
    let mut i: usize = 0;
    while i < scopes.len()
        invariant
            i <= scopes.len(),
            cpp_scope_from(scopes@, kind, line as nat, 0) == cpp_scope_from(scopes@, kind, line as nat, i as nat),
        decreases scopes.len() - i,
    {
        let s = &scopes[i];
        if s.scope_type == kind && s.start_line <= line && line <= s.end_line {
            return Some(s.name.clone());
        }
        i = i + 1;
    }
    None
}

/// The first function scope that holds `loc`.
fn function_at(scopes: &Vec<CppScope>, loc: (usize, usize)) -> (res: Option<String>)
    ensures
        res == cpp_function_from(scopes@, loc, 0),
{
    let mut i: usize = 0;
    while i < scopes.len()
        invariant
            i <= scopes.len(),
            cpp_function_from(scopes@, loc, 0) == cpp_function_from(scopes@, loc, i as nat),
        decreases scopes.len() - i,
    {
        let s = &scopes[i];
        if s.scope_type == CppSnippetType::Function && s.start_line <= loc.0 && loc.0 <= s.end_line
            && s.start_column <= loc.1 && loc.1 <= s.end_column {
            return Some(s.name.clone());
        }
        i = i + 1;
    }
    None
}

/// Sets the caller of each call to the function around it, and the namespace
/// and class of each definition to those around it.
pub fn establish_call_relationships(result: &mut CppAnalysisResult)
    ensures
        final(result).function_calls@.len() == old(result).function_calls@.len(),
        forall|i: int| 0 <= i < old(result).function_calls@.len() ==> #[trigger] final(result).function_calls@[i]
            == cpp_call_with_caller(old(result).scopes@, old(result).function_calls@[i]),
        final(result).snippets@.len() == old(result).snippets@.len(),
        forall|i: int| 0 <= i < old(result).snippets@.len() ==> #[trigger] final(result).snippets@[i]
            == cpp_snippet_placed(old(result).scopes@, old(result).snippets@[i]),
        final(result).scopes == old(result).scopes,
        final(result).includes == old(result).includes,
        final(result).namespaces == old(result).namespaces,
        final(result).classes == old(result).classes,
{
    let ghost scopes = result.scopes@;
    let ghost old_calls = result.function_calls@;
    let mut i: usize = 0;
    while i < result.function_calls.len()
        invariant
            i <= result.function_calls@.len(),
            result.function_calls@.len() == old_calls.len(),
            result.scopes@ == scopes,
            result.scopes == old(result).scopes,
            result.includes == old(result).includes,
            result.namespaces == old(result).namespaces,
            result.classes == old(result).classes,
            result.snippets == old(result).snippets,
            forall|j: int| 0 <= j < i ==> #[trigger] result.function_calls@[j] == cpp_call_with_caller(scopes, old_calls[j]),
            forall|j: int| i <= j < old_calls.len() ==> #[trigger] result.function_calls@[j] == old_calls[j],
        decreases old_calls.len() - i,
    {
        let loc = result.function_calls[i].caller_location;
        match function_at(&result.scopes, loc) {
            Some(n) => {
                result.function_calls[i].caller_name = n;
            },
            None => {},
        }
        i = i + 1;
    }
    let ghost old_snippets = result.snippets@;
    let mut k: usize = 0;
    while k < result.snippets.len()
        invariant
            k <= result.snippets@.len(),
            result.snippets@.len() == old_snippets.len(),
            old_snippets == old(result).snippets@,
            result.scopes@ == scopes,
            result.scopes == old(result).scopes,
            result.includes == old(result).includes,
            result.namespaces == old(result).namespaces,
            result.classes == old(result).classes,
            result.function_calls@.len() == old_calls.len(),
            forall|j: int| 0 <= j < old_calls.len() ==> #[trigger] result.function_calls@[j] == cpp_call_with_caller(scopes, old_calls[j]),
            forall|j: int| 0 <= j < k ==> #[trigger] result.snippets@[j] == cpp_snippet_placed(scopes, old_snippets[j]),
            forall|j: int| k <= j < old_snippets.len() ==> #[trigger] result.snippets@[j] == old_snippets[j],
        decreases old_snippets.len() - k,
    {
        let line = result.snippets[k].start_line;
        match scope_name_at(&result.scopes, CppSnippetType::Namespace, line) {
            Some(n) => {
                result.snippets[k].namespace = Some(n);
            },
            None => {},
        }
        match scope_name_at(&result.scopes, CppSnippetType::Class, line) {
            Some(n) => {
                result.snippets[k].class_name = Some(n);
            },
            None => {},
        }
        k = k + 1;
    }
}

/// The parameters of a parenthesised C++ parameter list.
pub fn parse_parameters(params_text: &str) -> (res: Vec<String>)
    ensures
        crate::cha::types::views(res@) == parameter_list(params_text@),
{
    split_parameters(params_text)
}

proof fn lemma_cpp_caller_from(scopes: Seq<CppScope>, loc: (usize, usize), i: nat)
    ensures
        cpp_function_from(scopes, loc, i) matches Some(n) ==> exists|k: int| i <= k < scopes.len() && #[trigger] scopes[k].name == n
            && scopes[k].scope_type == CppSnippetType::Function && scopes[k].start_line <= loc.0 && loc.0 <= scopes[k].end_line && scopes[k].start_column <= loc.1 && loc.1 <= scopes[k].end_column
            && forall|j: int| i <= j < k ==> !(#[trigger] scopes[j].scope_type == CppSnippetType::Function && scopes[j].start_line <= loc.0 && loc.0 <= scopes[j].end_line && scopes[j].start_column <= loc.1 && loc.1 <= scopes[j].end_column),
        cpp_function_from(scopes, loc, i) is None ==> forall|j: int| i <= j < scopes.len() ==> !(#[trigger] scopes[j].scope_type == CppSnippetType::Function && scopes[j].start_line <= loc.0 && loc.0 <= scopes[j].end_line && scopes[j].start_column <= loc.1 && loc.1 <= scopes[j].end_column),
    decreases scopes.len() - i,
{
    if i < scopes.len() {
        lemma_cpp_caller_from(scopes, loc, i + 1);
    }
}

/// A call's caller is the function around it: when one is found, it is the
/// first function scope whose lines and columns hold the call's position;
/// when none is, no function scope holds it.
pub proof fn law_cpp_caller_encloses_the_call(scopes: Seq<CppScope>, loc: (usize, usize))
    ensures
        cpp_function_from(scopes, loc, 0) matches Some(n) ==> exists|k: int| 0 <= k < scopes.len() && #[trigger] scopes[k].name == n
            && scopes[k].scope_type == CppSnippetType::Function && scopes[k].start_line <= loc.0 && loc.0 <= scopes[k].end_line && scopes[k].start_column <= loc.1 && loc.1 <= scopes[k].end_column
            && forall|j: int| 0 <= j < k ==> !(#[trigger] scopes[j].scope_type == CppSnippetType::Function && scopes[j].start_line <= loc.0 && loc.0 <= scopes[j].end_line && scopes[j].start_column <= loc.1 && loc.1 <= scopes[j].end_column),
        cpp_function_from(scopes, loc, 0) is None ==> forall|j: int| 0 <= j < scopes.len() ==> !(#[trigger] scopes[j].scope_type == CppSnippetType::Function && scopes[j].start_line <= loc.0 && loc.0 <= scopes[j].end_line && scopes[j].start_column <= loc.1 && loc.1 <= scopes[j].end_column),
{
    lemma_cpp_caller_from(scopes, loc, 0);
}

} // verus!
