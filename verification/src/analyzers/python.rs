//! The Python analyzer's work on what the syntax tree gave: the caller of
//! each call, the class around each definition, the functions of a file, and
//! parameter lists.

use vstd::prelude::*;
use crate::queries::python::{clone_pairs, same_snippet, PythonSnippet, PythonSnippetType, PythonFunctionCall, PythonScope, PythonAnalysisResult};
use crate::analyzers::common::{
    Position, within, new_id, split_parameters, parameter_list, text_or_empty, string_or_empty,
    describes_function, parameters_named, NamedCapture, last_capture, last_capture_named, origin,
};
use crate::cha::types::views;
use crate::graph_types::FunctionInfo;
use crate::cha::types::clone_opt_string;
use crate::cha::hierarchy::clone_string_vec;
use crate::languages::{path_extension, path_extension_of, path_file_name, path_file_name_of};
use crate::text::{to_lowercase, lowercase_of, str_eq, decimal, push_decimal, string_push_str};
use crate::analyzers::registry::{FunctionRegistry, names_recorded, function_lines, file_lines, push_function_lines, push_file_lines, named};
use crate::table::{lookup, table_keys, keys_put};
use crate::analyzers::registry::names_put;

verus! {

/// A function and the box its body spans.
#[derive(Debug)]
pub struct FunctionScope {
    pub name: String,
    pub params: Vec<String>,
    pub body_start: Position,
    pub body_end: Position,
    pub module_name: Option<String>,
    pub class_name: Option<String>,
    pub function_id: u128,
    pub decorators: Vec<String>,
}

/// A call and where it stands.
#[derive(Debug)]
pub struct FunctionCall {
    pub caller_name: String,
    pub called_name: String,
    pub location: Position,
    pub module_name: Option<String>,
    pub class_name: Option<String>,
    pub arguments: Vec<String>,
    /// Keyword and argument text, one entry per keyword.
    pub keyword_arguments: Vec<(String, String)>,
}

/// The name of the first scope, from `i` on, of kind `kind` whose lines hold `line`.
pub open spec fn python_scope_from(scopes: Seq<PythonScope>, kind: PythonSnippetType, line: nat, i: nat) -> Option<String>
    decreases scopes.len() - i,
{
    if i >= scopes.len() {
        None
    } else if scopes[i as int].scope_type == kind && scopes[i as int].start_line <= line <= scopes[i as int].end_line {
        Some(scopes[i as int].name)
    } else {
        python_scope_from(scopes, kind, line, i + 1)
    }
}

/// The name of the first function scope, from `i` on, whose body holds `loc`.
pub open spec fn python_function_from(scopes: Seq<FunctionScope>, loc: Position, i: nat) -> Option<String>
    decreases scopes.len() - i,
{
    if i >= scopes.len() {
        None
    } else if within(loc, scopes[i as int].body_start, scopes[i as int].body_end) {
        Some(scopes[i as int].name)
    } else {
        python_function_from(scopes, loc, i + 1)
    }
}

/// The class of a definition: the first class scope holding its first line,
/// else the class it had.
pub open spec fn python_snippet_class(scopes: Seq<PythonScope>, s: PythonSnippet) -> Option<String> {
    match python_scope_from(scopes, PythonSnippetType::Class, s.start_line as nat, 0) {
        Some(n) => Some(n),
        None => s.class_name,
    }
}

/// `mc` records `call`: its caller is the first function whose body holds the
/// call (none: empty), the call is at the call's position and not resolved.
pub open spec fn python_call_built(mc: PythonFunctionCall, scopes: Seq<FunctionScope>, call: FunctionCall) -> bool {
    &&& mc.caller_name@ == text_or_empty(python_function_from(scopes, call.location, 0))
    &&& mc.called_name == call.called_name
    &&& mc.caller_location == (call.location.row, call.location.column)
    &&& mc.called_location == (0usize, 0usize)
    &&& mc.caller_file@ == Seq::<char>::empty()
    &&& mc.called_file is None
    &&& !mc.is_resolved
    &&& mc.module_name == call.module_name
    &&& mc.class_name == call.class_name
    &&& mc.arguments@ == call.arguments@
    &&& mc.keyword_arguments@ == call.keyword_arguments@
}

/// The function definitions among the snippets, in order.
pub open spec fn python_function_snippets(snippets: Seq<PythonSnippet>) -> Seq<PythonSnippet>
    decreases snippets.len(),
{
    if snippets.len() == 0 {
        Seq::empty()
    } else {
        let rest = python_function_snippets(snippets.drop_last());
        if snippets.last().snippet_type == PythonSnippetType::Function { rest.push(snippets.last()) } else { rest }
    }
}

/// `f` is the function of the Python function `s` of `file_path`: named
/// after it, its module as namespace, its text as signature.
pub open spec fn python_function_of(f: FunctionInfo, s: PythonSnippet, file_path: Seq<char>) -> bool {
    describes_function(
        f, s.name, file_path, s.start_line, s.end_line, text_or_empty(s.module_name), "python"@,
        Some(s.content), s.return_type, s.parameters@,
    )
}

/// The first scope of kind `kind` whose lines hold `line`.
fn scope_name_at(scopes: &Vec<PythonScope>, kind: PythonSnippetType, line: usize) -> (res: Option<String>)
    ensures
        res == python_scope_from(scopes@, kind, line as nat, 0),
{
    let mut i: usize = 0;
    while i < scopes.len()
        invariant
            i <= scopes.len(),
            python_scope_from(scopes@, kind, line as nat, 0) == python_scope_from(scopes@, kind, line as nat, i as nat),
        decreases scopes.len() - i,
    {
        let s = &scopes[i];
        if s.scope_type == kind && s.start_line <= line && line <= s.end_line {
            return Some(s.name.clone());
        }
        i = i + 1;
    }
    None
}

/// The first function scope whose body holds `loc`.
fn function_at(scopes: &Vec<FunctionScope>, loc: Position) -> (res: Option<String>)
    ensures
        res == python_function_from(scopes@, loc, 0),
{
    let mut i: usize = 0;
    while i < scopes.len()
        invariant
            i <= scopes.len(),
            python_function_from(scopes@, loc, 0) == python_function_from(scopes@, loc, i as nat),
        decreases scopes.len() - i,
    {
        let s = &scopes[i];
        if s.body_start.row <= loc.row && loc.row <= s.body_end.row && s.body_start.column <= loc.column
            && loc.column <= s.body_end.column {
            return Some(s.name.clone());
        }
        i = i + 1;
    }
    None
}

/// Sets the class of each definition to the class around it, and records
/// each call with the function that makes it.
pub fn establish_call_relationships(
    function_scopes: &Vec<FunctionScope>,
    all_calls: &Vec<FunctionCall>,
    result: &mut PythonAnalysisResult,
)
    ensures
        final(result).snippets@.len() == old(result).snippets@.len(),
        forall|i: int| 0 <= i < old(result).snippets@.len() ==> #[trigger] final(result).snippets@[i] == (PythonSnippet {
            class_name: python_snippet_class(old(result).scopes@, old(result).snippets@[i]),
            ..old(result).snippets@[i]
        }),
        final(result).function_calls@.len() == old(result).function_calls@.len() + all_calls@.len(),
        forall|j: int| 0 <= j < old(result).function_calls@.len() ==> #[trigger] final(result).function_calls@[j] == old(result).function_calls@[j],
        forall|k: int| 0 <= k < all_calls@.len() ==> python_call_built(
            #[trigger] final(result).function_calls@[old(result).function_calls@.len() + k], function_scopes@, all_calls@[k]),
        final(result).scopes == old(result).scopes,
        final(result).imports == old(result).imports,
        final(result).modules == old(result).modules,
        final(result).classes == old(result).classes,
{
    let ghost old_snippets = result.snippets@;
    let ghost scopes = result.scopes@;
    let mut i: usize = 0;
    while i < result.snippets.len()
        invariant
            i <= result.snippets@.len(),
            result.snippets@.len() == old_snippets.len(),
            result.scopes@ == scopes,
            result.scopes == old(result).scopes,
            result.imports == old(result).imports,
            result.modules == old(result).modules,
            result.classes == old(result).classes,
            result.function_calls == old(result).function_calls,
            forall|j: int| 0 <= j < i ==> #[trigger] result.snippets@[j] == (PythonSnippet {
                class_name: python_snippet_class(scopes, old_snippets[j]),
                ..old_snippets[j]
            }),
            forall|j: int| i <= j < old_snippets.len() ==> #[trigger] result.snippets@[j] == old_snippets[j],
        decreases old_snippets.len() - i,
    {
        let line = result.snippets[i].start_line;
        let class = scope_name_at(&result.scopes, PythonSnippetType::Class, line);
        match class {
            Some(n) => {
                result.snippets[i].class_name = Some(n);
            },
            None => {},
        }
        i = i + 1;
    }
    let ghost calls_before = result.function_calls@;
    let mut k: usize = 0;
    while k < all_calls.len()
        invariant
            k <= all_calls@.len(),
            calls_before == old(result).function_calls@,
            result.function_calls@.len() == calls_before.len() + k,
            forall|j: int| 0 <= j < calls_before.len() ==> #[trigger] result.function_calls@[j] == calls_before[j],
            forall|m: int| 0 <= m < k ==> python_call_built(
                #[trigger] result.function_calls@[calls_before.len() + m], function_scopes@, all_calls@[m]),
            result.snippets@.len() == old_snippets.len(),
            forall|j: int| 0 <= j < old_snippets.len() ==> #[trigger] result.snippets@[j] == (PythonSnippet {
                class_name: python_snippet_class(scopes, old_snippets[j]),
                ..old_snippets[j]
            }),
            result.scopes == old(result).scopes,
            result.imports == old(result).imports,
            result.modules == old(result).modules,
            result.classes == old(result).classes,
        decreases all_calls@.len() - k,
    {
        let call = &all_calls[k];
        let caller_name = match function_at(function_scopes, call.location) {
            Some(n) => n,
            None => String::new(),
        };
        let function_call = PythonFunctionCall {
            caller_name,
            called_name: call.called_name.clone(),
            caller_location: (call.location.row, call.location.column),
            called_location: (0, 0),
            caller_file: String::new(),
            called_file: None,
            is_resolved: false,
            module_name: clone_opt_string(&call.module_name),
            class_name: clone_opt_string(&call.class_name),
            arguments: clone_string_vec(&call.arguments),
            keyword_arguments: clone_pairs(&call.keyword_arguments),
        };
        result.function_calls.push(function_call);
        k = k + 1;
    }
}

/// The functions of a file: one per function definition, in order, each
/// with a fresh id.
pub fn functions_of_file(result: &PythonAnalysisResult, file_path: &String) -> (res: Vec<FunctionInfo>)
    ensures
        res@.len() == python_function_snippets(result.snippets@).len(),
        forall|k: int| 0 <= k < res@.len() ==> python_function_of(
            #[trigger] res@[k], python_function_snippets(result.snippets@)[k], file_path@),
{
    let mut res: Vec<FunctionInfo> = Vec::new();
    let mut i: usize = 0;
    while i < result.snippets.len()
        invariant
            i <= result.snippets@.len(),
            res@.len() == python_function_snippets(result.snippets@.subrange(0, i as int)).len(),
            forall|k: int| 0 <= k < res@.len() ==> python_function_of(
                #[trigger] res@[k], python_function_snippets(result.snippets@.subrange(0, i as int))[k], file_path@),
        decreases result.snippets@.len() - i,
    {
        proof {
            let s = result.snippets@.subrange(0, i + 1);
            assert(s.drop_last() =~= result.snippets@.subrange(0, i as int));
            assert(s.last() == result.snippets@[i as int]);
        }
        let snippet = &result.snippets[i];
        if snippet.snippet_type == PythonSnippetType::Function {
            let f = FunctionInfo {
                id: new_id(),
                name: snippet.name.clone(),
                file_path: file_path.clone(),
                line_start: snippet.start_line,
                line_end: snippet.end_line,
                namespace: string_or_empty(&snippet.module_name),
                language: String::from_str("python"),
                signature: Some(snippet.content.clone()),
                return_type: clone_opt_string(&snippet.return_type),
                parameters: parameters_named(&snippet.parameters),
            };
            res.push(f);
        }
        i = i + 1;
    }
    proof { assert(result.snippets@.subrange(0, result.snippets@.len() as int) =~= result.snippets@); }
    res
}

/// The parameters of a parenthesised Python parameter list.
pub fn parse_python_parameters(params_text: &str) -> (res: Vec<String>)
    ensures
        crate::cha::types::views(res@) == parameter_list(params_text@),
{
    split_parameters(params_text)
}

/// A Python extension (lower-cased).
pub open spec fn python_extension(s: Seq<char>) -> bool {
    ||| s == "py"@ ||| s == "pyw"@ ||| s == "pyi"@ ||| s == "pyx"@ ||| s == "pxd"@
    ||| s == "pyx.in"@ ||| s == "pxd.in"@
}

/// A file name that marks a Python project file.
pub open spec fn python_project_file_name(s: Seq<char>) -> bool {
    ||| s == "setup.py"@ ||| s == "requirements.txt"@ ||| s == "Pipfile"@
    ||| s == "pyproject.toml"@ ||| s == "Makefile"@ ||| s == "Dockerfile"@
}

/// A Python file: by its lower-cased extension, or, without extension, by its name.
pub open spec fn python_file(path: Seq<char>) -> bool {
    match path_extension_of(path) {
        Some(e) => python_extension(lowercase_of(e)),
        None => match path_file_name_of(path) {
            Some(n) => python_project_file_name(n),
            None => false,
        },
    }
}

/// Whether a file is a Python file.
pub fn is_python_file(path: &str) -> (res: bool)
    ensures
        res == python_file(path@),
{
    match path_extension(path) {
        Some(e) => {
            let s = to_lowercase(e.as_str());
            str_eq(&s, "py") || str_eq(&s, "pyw") || str_eq(&s, "pyi") || str_eq(&s, "pyx") || str_eq(&s, "pxd")
                || str_eq(&s, "pyx.in") || str_eq(&s, "pxd.in")
        },
        None => match path_file_name(path) {
            Some(n) => str_eq(&n, "setup.py") || str_eq(&n, "requirements.txt") || str_eq(&n, "Pipfile")
                || str_eq(&n, "pyproject.toml") || str_eq(&n, "Makefile") || str_eq(&n, "Dockerfile"),
            None => false,
        },
    }
}

/// `fs` are the functions of the function definitions among `snippets` of
/// `file_path`, in order.
pub open spec fn python_functions_of(fs: Seq<FunctionInfo>, snippets: Seq<PythonSnippet>, file_path: Seq<char>) -> bool {
    &&& fs.len() == python_function_snippets(snippets).len()
    &&& forall|k: int| 0 <= k < fs.len() ==> python_function_of(#[trigger] fs[k], python_function_snippets(snippets)[k], file_path)
}

/// The class definitions among the snippets, in order.
pub open spec fn python_class_snippets(snippets: Seq<PythonSnippet>) -> Seq<PythonSnippet>
    decreases snippets.len(),
{
    if snippets.len() == 0 {
        Seq::empty()
    } else {
        let rest = python_class_snippets(snippets.drop_last());
        if snippets.last().snippet_type == PythonSnippetType::Class { rest.push(snippets.last()) } else { rest }
    }
}

/// `after` is `before` followed by a copy of each of `added`.
pub open spec fn appended_copies(before: Seq<PythonSnippet>, after: Seq<PythonSnippet>, added: Seq<PythonSnippet>) -> bool {
    &&& after.len() == before.len() + added.len()
    &&& forall|j: int| 0 <= j < before.len() ==> #[trigger] after[j] == before[j]
    &&& forall|k: int| 0 <= k < added.len() ==> same_snippet(#[trigger] added[k], after[before.len() + k])
}

/// What the Python analyzer keeps of the files it analysed: each function
/// under its name, each file's functions, every snippet and every class.
#[derive(Debug)]
pub struct PythonAnalyzer {
    pub functions: FunctionRegistry,
    pub all_snippets: Vec<PythonSnippet>,
    pub all_classes: Vec<PythonSnippet>,
}

/// A report line for a class: `  name (file:start-end)`.
pub open spec fn class_line(c: PythonSnippet) -> Seq<char> {
    "  "@ + c.name@ + " ("@ + c.file_path@ + ":"@ + decimal(c.start_line as nat) + "-"@
        + decimal(c.end_line as nat) + ")\n"@
}

/// The report lines of the classes, one after the other.
pub open spec fn class_lines(cs: Seq<PythonSnippet>) -> Seq<char>
    decreases cs.len(),
{
    if cs.len() == 0 {
        Seq::empty()
    } else {
        class_lines(cs.drop_last()) + class_line(cs.last())
    }
}

/// The Python analysis report: the counts, the functions, the classes, and
/// each file's number of functions.
pub open spec fn python_report(a: PythonAnalyzer) -> Seq<char> {
    "=== Python Code Analysis Report ===\n\n"@
        + "Total Snippets: "@ + decimal(a.all_snippets@.len()) + "\n"@
        + "Total Functions: "@ + decimal(a.functions.by_name@.len()) + "\n"@
        + "Total Files: "@ + decimal(a.functions.by_file@.len()) + "\n"@
        + "\n=== Functions ===\n"@ + function_lines(a.functions.by_name@)
        + "\n=== Classes ===\n"@ + class_lines(a.all_classes@)
        + "\nFunctions by File:\n"@ + file_lines(a.functions.by_file@, "functions"@)
}

impl PythonAnalyzer {
    /// An analyzer that has seen no file.
    pub fn new() -> (res: Result<Self, String>)
        ensures
            res matches Ok(a) && a.functions.by_name@.len() == 0 && a.functions.by_file@.len() == 0
                && a.all_snippets@.len() == 0 && a.all_classes@.len() == 0,
    {
        Ok(PythonAnalyzer { functions: FunctionRegistry::new(), all_snippets: Vec::new(), all_classes: Vec::new() })
    }

    /// Records an analysed file: its snippets, its classes, each function
    /// under its name and the list of its functions under the file.
    pub fn process_analysis_result(&mut self, result: &PythonAnalysisResult, file_path: &String)
        ensures
            appended_copies(old(self).all_snippets@, final(self).all_snippets@, result.snippets@),
            appended_copies(old(self).all_classes@, final(self).all_classes@, python_class_snippets(result.snippets@)),
            lookup(final(self).functions.by_file@, file_path@) matches Some(fs)
                && python_functions_of(fs@, result.snippets@, file_path@)
                && names_recorded(old(self).functions.by_name@, final(self).functions.by_name@, fs@, fs@.len())
                && table_keys(final(self).functions.by_name@) == names_put(table_keys(old(self).functions.by_name@), fs@, fs@.len()),
            table_keys(final(self).functions.by_file@) == keys_put(table_keys(old(self).functions.by_file@), file_path@),
            forall|p: Seq<char>| p != file_path@
                ==> #[trigger] lookup(final(self).functions.by_file@, p) == lookup(old(self).functions.by_file@, p),
    {
        let ghost snippets0 = self.all_snippets@;
        let ghost classes0 = self.all_classes@;
        let mut i: usize = 0;
        while i < result.snippets.len()
            invariant
                i <= result.snippets@.len(),
                self.functions == old(self).functions,
                appended_copies(snippets0, self.all_snippets@, result.snippets@.subrange(0, i as int)),
                appended_copies(classes0, self.all_classes@, python_class_snippets(result.snippets@.subrange(0, i as int))),
            decreases result.snippets@.len() - i,
        {
            proof {
                let s = result.snippets@.subrange(0, i + 1);
                assert(s.drop_last() =~= result.snippets@.subrange(0, i as int));
                assert(s.last() == result.snippets@[i as int]);
            }
            let snippet = result.snippets[i].clone();
            if snippet.snippet_type == PythonSnippetType::Class {
                let c = snippet.clone();
                self.all_classes.push(c);
            }
            self.all_snippets.push(snippet);
            i = i + 1;
        }
        assert(result.snippets@.subrange(0, result.snippets@.len() as int) =~= result.snippets@);
        let fs = functions_of_file(result, file_path);
        let ghost v = fs@;
        self.functions.record_file(file_path.clone(), fs);
        assert(python_functions_of(v, result.snippets@, file_path@));
    }

    /// The functions recorded under their names.
    pub fn get_all_functions(&self) -> (res: Vec<&FunctionInfo>)
        ensures
            res@.len() == self.functions.by_name@.len(),
            forall|k: int| 0 <= k < res@.len() ==> *#[trigger] res@[k] == self.functions.by_name@[k].1,
    {
        self.functions.get_all_functions()
    }

    /// The recorded functions named `name`.
    pub fn find_functions_by_name(&self, name: &str) -> (res: Vec<&FunctionInfo>)
        ensures
            res@.len() == named(self.functions.by_name@, name@).len(),
            forall|k: int| 0 <= k < res@.len() ==> *#[trigger] res@[k] == named(self.functions.by_name@, name@)[k],
    {
        self.functions.find_functions_by_name(name)
    }

    /// The functions recorded for a file, if it was analysed.
    pub fn get_file_functions(&self, file_path: &String) -> (res: Option<&Vec<FunctionInfo>>)
        ensures
            match res {
                Some(v) => lookup(self.functions.by_file@, file_path@) == Some(*v),
                None => lookup(self.functions.by_file@, file_path@) is None,
            },
    {
        self.functions.get_file_functions(file_path)
    }

    /// The analysis report: counts, functions, classes, and functions per file.
    pub fn generate_report(&self) -> (res: String)
        ensures
            res@ == python_report(*self),
    {
        let mut report = String::new();
        string_push_str(&mut report, "=== Python Code Analysis Report ===\n\n");
        string_push_str(&mut report, "Total Snippets: ");
        push_decimal(&mut report, self.all_snippets.len() as u64);
        string_push_str(&mut report, "\n");
        string_push_str(&mut report, "Total Functions: ");
        push_decimal(&mut report, self.functions.by_name.len() as u64);
        string_push_str(&mut report, "\n");
        string_push_str(&mut report, "Total Files: ");
        push_decimal(&mut report, self.functions.by_file.len() as u64);
        string_push_str(&mut report, "\n");
        string_push_str(&mut report, "\n=== Functions ===\n");
        push_function_lines(&mut report, &self.functions.by_name);
        string_push_str(&mut report, "\n=== Classes ===\n");
        let ghost start = report@;
        let mut i: usize = 0;
        while i < self.all_classes.len()
            invariant
                i <= self.all_classes@.len(),
                report@ == start + class_lines(self.all_classes@.subrange(0, i as int)),
            decreases self.all_classes@.len() - i,
        {
            let c = &self.all_classes[i];
            let ghost before = report@;
            string_push_str(&mut report, "  ");
            string_push_str(&mut report, c.name.as_str());
            string_push_str(&mut report, " (");
            string_push_str(&mut report, c.file_path.as_str());
            string_push_str(&mut report, ":");
            push_decimal(&mut report, c.start_line as u64);
            string_push_str(&mut report, "-");
            push_decimal(&mut report, c.end_line as u64);
            string_push_str(&mut report, ")\n");
            proof {
                let sub = self.all_classes@.subrange(0, i + 1);
                assert(sub.drop_last() =~= self.all_classes@.subrange(0, i as int));
                assert(sub.last() == self.all_classes@[i as int]);
                assert(report@ =~= before + class_line(self.all_classes@[i as int]));
            }
            i = i + 1;
        }
        assert(self.all_classes@.subrange(0, self.all_classes@.len() as int) =~= self.all_classes@);
        string_push_str(&mut report, "\nFunctions by File:\n");
        push_file_lines(&mut report, &self.functions.by_file, "functions");
        assert(report@ =~= python_report(*self));
        report
    }
}

/// A match of the function-definition query: its captures in order.
#[derive(Debug)]
pub struct PythonFunctionMatch {
    pub captures: Vec<NamedCapture>,
}

/// The text of the last capture of that name in a match, if any.
pub open spec fn captured_text(m: PythonFunctionMatch, name: Seq<char>) -> Option<Seq<char>> {
    let i = last_capture(m.captures@, name, m.captures@.len());
    if i >= 0 { Some(m.captures@[i].text@) } else { None }
}

/// The name of a matched function: its last `function.name` capture.
pub open spec fn python_function_name(m: PythonFunctionMatch) -> Seq<char> {
    match captured_text(m, "function.name"@) {
        Some(t) => t,
        None => Seq::empty(),
    }
}

/// The parameters of a matched function: from its last `function.params` capture.
pub open spec fn python_function_params(m: PythonFunctionMatch) -> Seq<Seq<char>> {
    match captured_text(m, "function.params"@) {
        Some(t) => parameter_list(t),
        None => Seq::empty(),
    }
}

/// The box of a matched function's body: its last `function.body` capture's,
/// else the origin.
pub open spec fn python_function_body(m: PythonFunctionMatch) -> (Position, Position) {
    let i = last_capture(m.captures@, "function.body"@, m.captures@.len());
    if i >= 0 { (m.captures@[i].start, m.captures@[i].end) } else { (origin(), origin()) }
}

/// The matches that name a function, among the first `k`, in order.
pub open spec fn python_defined_functions(ms: Seq<PythonFunctionMatch>, k: nat) -> Seq<PythonFunctionMatch>
    decreases k,
{
    if k == 0 {
        Seq::empty()
    } else {
        let r = python_defined_functions(ms, (k - 1) as nat);
        if python_function_name(ms[k - 1]).len() > 0 { r.push(ms[k - 1]) } else { r }
    }
}

/// `s` is the function scope of match `m` (its id is fresh).
pub open spec fn python_function_scope_of(s: FunctionScope, m: PythonFunctionMatch) -> bool {
    &&& s.name@ == python_function_name(m)
    &&& views(s.params@) == python_function_params(m)
    &&& (s.body_start, s.body_end) == python_function_body(m)
    &&& s.module_name is None
    &&& s.class_name is None
    &&& s.decorators@.len() == 0
}

/// `s` is the function snippet of match `m`: its name, the text of the
/// match's first capture, the body's box, parameters and return type.
pub open spec fn python_function_snippet_of(s: PythonSnippet, m: PythonFunctionMatch, file_path: Seq<char>) -> bool {
    let (b, e) = python_function_body(m);
    &&& s.snippet_type == PythonSnippetType::Function
    &&& s.name@ == python_function_name(m)
    &&& s.content@ == m.captures@[0].text@
    &&& s.start_line == b.row && s.end_line == e.row
    &&& s.start_column == b.column && s.end_column == e.column
    &&& s.file_path@ == file_path
    &&& s.module_name is None
    &&& s.class_name is None
    &&& views(s.parameters@) == python_function_params(m)
    &&& match s.return_type {
        Some(t) => captured_text(m, "function.return_type"@) == Some(t@),
        None => captured_text(m, "function.return_type"@) is None,
    }
    &&& s.decorators@.len() == 0
}

/// `s` is the scope of the function of match `m`.
pub open spec fn python_function_region_of(s: PythonScope, m: PythonFunctionMatch) -> bool {
    let (b, e) = python_function_body(m);
    &&& s.name@ == python_function_name(m)
    &&& s.scope_type == PythonSnippetType::Function
    &&& s.start_line == b.row && s.end_line == e.row
    &&& s.start_column == b.column && s.end_column == e.column
    &&& s.parent_scope is None
    &&& s.module_name is None
    &&& s.class_name is None
}

/// `after` is `before` with one entry per match appended, each related to
/// its match by `rel`.
pub open spec fn appended_per_match<T>(
    before: Seq<T>,
    after: Seq<T>,
    ms: Seq<PythonFunctionMatch>,
    rel: spec_fn(T, PythonFunctionMatch) -> bool,
) -> bool {
    &&& after.len() == before.len() + ms.len()
    &&& forall|j: int| 0 <= j < before.len() ==> #[trigger] after[j] == before[j]
    &&& forall|k: int| 0 <= k < ms.len() ==> rel(#[trigger] after[before.len() + k], ms[k])
}

/// Collects the function definitions that the function-definition query
/// matched: each match with a non-empty `function.name` capture gives a
/// function scope (returned), a function snippet and a function scope of the
/// result, in match order; a capture of the same name later in the match
/// wins over an earlier one.
pub fn collect_function_definitions(matches: &Vec<PythonFunctionMatch>, file_path: &String, result: &mut PythonAnalysisResult) -> (res: Vec<FunctionScope>)
    ensures
        ({
            let d = python_defined_functions(matches@, matches@.len());
            &&& res@.len() == d.len()
            &&& forall|k: int| 0 <= k < d.len() ==> python_function_scope_of(#[trigger] res@[k], d[k])
            &&& appended_per_match(old(result).snippets@, final(result).snippets@, d,
                |s: PythonSnippet, m: PythonFunctionMatch| python_function_snippet_of(s, m, file_path@))
            &&& appended_per_match(old(result).scopes@, final(result).scopes@, d,
                |s: PythonScope, m: PythonFunctionMatch| python_function_region_of(s, m))
        }),
        final(result).function_calls@ == old(result).function_calls@,
        final(result).imports@ == old(result).imports@,
        final(result).modules@ == old(result).modules@,
        final(result).classes@ == old(result).classes@,
{
    let ghost snippets0 = result.snippets@;
    let ghost scopes0 = result.scopes@;
    let mut res: Vec<FunctionScope> = Vec::new();
    let mut i: usize = 0;
    while i < matches.len()
        invariant
            i <= matches@.len(),
            snippets0 == old(result).snippets@,
            scopes0 == old(result).scopes@,
            res@.len() == python_defined_functions(matches@, i as nat).len(),
            forall|k: int| 0 <= k < res@.len() ==> python_function_scope_of(#[trigger] res@[k], python_defined_functions(matches@, i as nat)[k]),
            appended_per_match(snippets0, result.snippets@, python_defined_functions(matches@, i as nat),
                |s: PythonSnippet, m: PythonFunctionMatch| python_function_snippet_of(s, m, file_path@)),
            appended_per_match(scopes0, result.scopes@, python_defined_functions(matches@, i as nat),
                |s: PythonScope, m: PythonFunctionMatch| python_function_region_of(s, m)),
            result.function_calls@ == old(result).function_calls@,
            result.imports@ == old(result).imports@,
            result.modules@ == old(result).modules@,
            result.classes@ == old(result).classes@,
        decreases matches.len() - i,
    {
        let m = &matches[i];
        let ghost d = python_defined_functions(matches@, i as nat);
        let name = match last_capture_named(&m.captures, "function.name") {
            Some(c) => m.captures[c].text.clone(),
            None => String::new(),
        };
        if name.as_str().unicode_len() > 0 {
            let params = match last_capture_named(&m.captures, "function.params") {
                Some(c) => parse_python_parameters(m.captures[c].text.as_str()),
                None => Vec::new(),
            };
            let (body_start, body_end) = match last_capture_named(&m.captures, "function.body") {
                Some(c) => (m.captures[c].start, m.captures[c].end),
                None => (Position { row: 0, column: 0 }, Position { row: 0, column: 0 }),
            };
            let return_type = match last_capture_named(&m.captures, "function.return_type") {
                Some(c) => Some(m.captures[c].text.clone()),
                None => None,
            };
            proof {
                assert(views(params@) == python_function_params(*m));
                assert((body_start, body_end) == python_function_body(*m));
                assert(name@ == python_function_name(*m));
                assert(python_defined_functions(matches@, (i + 1) as nat) == d.push(*m));
                assert(m.captures@.len() > 0);
            }
            let scope = FunctionScope {
                name: name.clone(),
                params: clone_string_vec(&params),
                body_start,
                body_end,
                module_name: None,
                class_name: None,
                function_id: new_id(),
                decorators: Vec::new(),
            };
            let ghost res_before = res@;
            res.push(scope);
            let snippet = PythonSnippet {
                snippet_type: PythonSnippetType::Function,
                name: name.clone(),
                content: m.captures[0].text.clone(),
                start_line: body_start.row,
                end_line: body_end.row,
                start_column: body_start.column,
                end_column: body_end.column,
                file_path: file_path.clone(),
                module_name: None,
                class_name: None,
                parameters: params,
                return_type,
                decorators: Vec::new(),
            };
            let ghost sn_before = result.snippets@;
            result.snippets.push(snippet);
            let region = PythonScope {
                name,
                scope_type: PythonSnippetType::Function,
                start_line: body_start.row,
                end_line: body_end.row,
                start_column: body_start.column,
                end_column: body_end.column,
                parent_scope: None,
                module_name: None,
                class_name: None,
            };
            let ghost sc_before = result.scopes@;
            result.scopes.push(region);
            proof {
                let d2 = d.push(*m);
                assert forall|k: int| 0 <= k < res@.len() implies python_function_scope_of(#[trigger] res@[k], d2[k]) by {
                    if k < res_before.len() { assert(res@[k] == res_before[k]); assert(d2[k] == d[k]); }
                }
                assert forall|k: int| 0 <= k < d2.len() implies python_function_snippet_of(#[trigger] result.snippets@[snippets0.len() + k], d2[k], file_path@) by {
                    if k < d.len() {
                        assert(result.snippets@[snippets0.len() + k] == sn_before[snippets0.len() + k]);
                        assert(d2[k] == d[k]);
                    }
                }
                assert forall|j: int| 0 <= j < snippets0.len() implies #[trigger] result.snippets@[j] == snippets0[j] by {
                    assert(result.snippets@[j] == sn_before[j]);
                }
                assert forall|k: int| 0 <= k < d2.len() implies python_function_region_of(#[trigger] result.scopes@[scopes0.len() + k], d2[k]) by {
                    if k < d.len() {
                        assert(result.scopes@[scopes0.len() + k] == sc_before[scopes0.len() + k]);
                        assert(d2[k] == d[k]);
                    }
                }
                assert forall|j: int| 0 <= j < scopes0.len() implies #[trigger] result.scopes@[j] == scopes0[j] by {
                    assert(result.scopes@[j] == sc_before[j]);
                }
            }
        } else {
            proof {
                assert(python_defined_functions(matches@, (i + 1) as nat) == d);
            }
        }
        i = i + 1;
    }
    res
}

proof fn lemma_python_caller_from(scopes: Seq<FunctionScope>, loc: Position, i: nat)
    ensures
        python_function_from(scopes, loc, i) matches Some(n) ==> exists|k: int| i <= k < scopes.len() && #[trigger] scopes[k].name == n
            && scopes[k].body_start.row <= loc.row && loc.row <= scopes[k].body_end.row && scopes[k].body_start.column <= loc.column && loc.column <= scopes[k].body_end.column
            && forall|j: int| i <= j < k ==> !(#[trigger] scopes[j].body_start.row <= loc.row && loc.row <= scopes[j].body_end.row && scopes[j].body_start.column <= loc.column && loc.column <= scopes[j].body_end.column),
        python_function_from(scopes, loc, i) is None ==> forall|j: int| i <= j < scopes.len() ==> !(#[trigger] scopes[j].body_start.row <= loc.row && loc.row <= scopes[j].body_end.row && scopes[j].body_start.column <= loc.column && loc.column <= scopes[j].body_end.column),
    decreases scopes.len() - i,
{
    if i < scopes.len() {
        lemma_python_caller_from(scopes, loc, i + 1);
    }
}

/// A call's caller is the function around it: when one is found, it is the
/// first scope whose body box (rows and columns from its body's start to its
/// body's end) holds the call's position; when none is, no body holds it.
pub proof fn law_python_caller_encloses_the_call(scopes: Seq<FunctionScope>, loc: Position)
    ensures
        python_function_from(scopes, loc, 0) matches Some(n) ==> exists|k: int| 0 <= k < scopes.len() && #[trigger] scopes[k].name == n
            && scopes[k].body_start.row <= loc.row && loc.row <= scopes[k].body_end.row && scopes[k].body_start.column <= loc.column && loc.column <= scopes[k].body_end.column
            && forall|j: int| 0 <= j < k ==> !(#[trigger] scopes[j].body_start.row <= loc.row && loc.row <= scopes[j].body_end.row && scopes[j].body_start.column <= loc.column && loc.column <= scopes[j].body_end.column),
        python_function_from(scopes, loc, 0) is None ==> forall|j: int| 0 <= j < scopes.len() ==> !(#[trigger] scopes[j].body_start.row <= loc.row && loc.row <= scopes[j].body_end.row && scopes[j].body_start.column <= loc.column && loc.column <= scopes[j].body_end.column),
{
    lemma_python_caller_from(scopes, loc, 0);
}

proof fn lemma_python_function_snippets_contains(snippets: Seq<PythonSnippet>, x: PythonSnippet)
    ensures
        python_function_snippets(snippets).contains(x) <==> (snippets.contains(x) && x.snippet_type == PythonSnippetType::Function),
    decreases snippets.len(),
{
    if snippets.len() > 0 {
        let init = snippets.drop_last();
        lemma_python_function_snippets_contains(init, x);
        let rest = python_function_snippets(init);
        let r = python_function_snippets(snippets);
        if r.contains(x) {
            let k = choose|k: int| 0 <= k < r.len() && r[k] == x;
            if k < rest.len() {
                assert(rest[k] == x);
                let j = choose|j: int| 0 <= j < init.len() && init[j] == x;
                assert(snippets[j] == x);
            } else {
                assert(snippets[snippets.len() - 1] == x);
            }
        }
        if snippets.contains(x) && x.snippet_type == PythonSnippetType::Function {
            let j = choose|j: int| 0 <= j < snippets.len() && snippets[j] == x;
            if j < snippets.len() - 1 {
                assert(init[j] == x);
                let k = choose|k: int| 0 <= k < rest.len() && rest[k] == x;
                assert(r[k] == x);
            } else {
                assert(r[rest.len() as int] == x);
            }
        }
    }
}

/// The functions a file gives are exactly its snippets of the function kind.
pub proof fn law_python_function_snippets_by_kind(snippets: Seq<PythonSnippet>, x: PythonSnippet)
    ensures
        python_function_snippets(snippets).contains(x) <==> (snippets.contains(x) && x.snippet_type == PythonSnippetType::Function),
{
    lemma_python_function_snippets_contains(snippets, x);
}

proof fn lemma_python_class_snippets_contains(snippets: Seq<PythonSnippet>, x: PythonSnippet)
    ensures
        python_class_snippets(snippets).contains(x) <==> (snippets.contains(x) && x.snippet_type == PythonSnippetType::Class),
    decreases snippets.len(),
{
    if snippets.len() > 0 {
        let init = snippets.drop_last();
        lemma_python_class_snippets_contains(init, x);
        let rest = python_class_snippets(init);
        let r = python_class_snippets(snippets);
        if r.contains(x) {
            let k = choose|k: int| 0 <= k < r.len() && r[k] == x;
            if k < rest.len() {
                assert(rest[k] == x);
                let j = choose|j: int| 0 <= j < init.len() && init[j] == x;
                assert(snippets[j] == x);
            } else {
                assert(snippets[snippets.len() - 1] == x);
            }
        }
        if snippets.contains(x) && x.snippet_type == PythonSnippetType::Class {
            let j = choose|j: int| 0 <= j < snippets.len() && snippets[j] == x;
            if j < snippets.len() - 1 {
                assert(init[j] == x);
                let k = choose|k: int| 0 <= k < rest.len() && rest[k] == x;
                assert(r[k] == x);
            } else {
                assert(r[rest.len() as int] == x);
            }
        }
    }
}

/// The classes recorded of a file are exactly its snippets of the class kind.
pub proof fn law_python_class_snippets_by_kind(snippets: Seq<PythonSnippet>, x: PythonSnippet)
    ensures
        python_class_snippets(snippets).contains(x) <==> (snippets.contains(x) && x.snippet_type == PythonSnippetType::Class),
{
    lemma_python_class_snippets_contains(snippets, x);
}

} // verus!
