//! The Java analyzer's work on what the syntax tree gave: the caller of each
//! method call, the class or interface around each definition, the methods of
//! a file as functions, and parameter lists.

use vstd::prelude::*;
use crate::queries::java::{JavaSnippet, JavaSnippetType, JavaMethodCall, JavaScope, JavaAnalysisResult};
use crate::analyzers::common::{
    Position, within, new_id, split_parameters, parameter_list, text_or_empty, string_or_empty,
    describes_function, parameters_named, SyntaxNode, first_index, last_index, origin,
    first_node_of_kind, last_node_of_kind,
};
use crate::graph_types::FunctionInfo;
use crate::cha::types::clone_opt_string;
use crate::languages::{path_extension, path_extension_of};
use crate::text::{to_lowercase, lowercase_of, str_eq, decimal, push_decimal, string_push_str};
use crate::analyzers::registry::{FunctionRegistry, names_recorded, function_lines, file_lines, push_function_lines, push_file_lines};
use crate::table::{lookup, table_keys, keys_put};
use crate::analyzers::registry::names_put;
use crate::cha::types::views;
use crate::cha::hierarchy::clone_string_vec;

verus! {

/// A method and the box its body spans.
#[derive(Debug)]
pub struct MethodScope {
    pub name: String,
    pub params: Vec<String>,
    pub body_start: Position,
    pub body_end: Position,
    pub package_name: Option<String>,
    pub class_name: Option<String>,
    pub interface_name: Option<String>,
    pub method_id: u128,
    pub modifiers: Vec<String>,
    pub type_parameters: Vec<String>,
    pub return_type: Option<String>,
}

/// A method call and where it stands.
#[derive(Debug)]
pub struct MethodCall {
    pub caller_name: String,
    pub called_name: String,
    pub location: Position,
    pub package_name: Option<String>,
    pub class_name: Option<String>,
    pub interface_name: Option<String>,
    pub arguments: Vec<String>,
    pub type_arguments: Vec<String>,
}

/// The name of the first scope, from `i` on, of kind `kind` whose lines hold `line`.
pub open spec fn java_scope_from(scopes: Seq<JavaScope>, kind: JavaSnippetType, line: nat, i: nat) -> Option<String>
    decreases scopes.len() - i,
{
    if i >= scopes.len() {
        None
    } else if scopes[i as int].scope_type == kind && scopes[i as int].start_line <= line <= scopes[i as int].end_line {
        Some(scopes[i as int].name)
    } else {
        java_scope_from(scopes, kind, line, i + 1)
    }
}

/// The name of the first method scope, from `i` on, whose body holds `loc`.
pub open spec fn java_method_from(scopes: Seq<MethodScope>, loc: Position, i: nat) -> Option<String>
    decreases scopes.len() - i,
{
    if i >= scopes.len() {
        None
    } else if within(loc, scopes[i as int].body_start, scopes[i as int].body_end) {
        Some(scopes[i as int].name)
    } else {
        java_method_from(scopes, loc, i + 1)
    }
}

/// The class of a definition: the first interface scope holding its first
/// line, else the first class scope holding it, else the class it had.
pub open spec fn java_snippet_class(scopes: Seq<JavaScope>, s: JavaSnippet) -> Option<String> {
    match java_scope_from(scopes, JavaSnippetType::Interface, s.start_line as nat, 0) {
        Some(n) => Some(n),
        None => match java_scope_from(scopes, JavaSnippetType::Class, s.start_line as nat, 0) {
            Some(n) => Some(n),
            None => s.class_name,
        },
    }
}

/// `mc` records `call`: its caller is the first method whose body holds the
/// call (none: empty), the call is at the call's position and not resolved.
pub open spec fn java_call_built(mc: JavaMethodCall, scopes: Seq<MethodScope>, call: MethodCall) -> bool {
    &&& mc.caller_name@ == text_or_empty(java_method_from(scopes, call.location, 0))
    &&& mc.called_name == call.called_name
    &&& mc.caller_location == (call.location.row, call.location.column)
    &&& mc.called_location == (0usize, 0usize)
    &&& mc.caller_file@ == Seq::<char>::empty()
    &&& mc.called_file is None
    &&& !mc.is_resolved
    &&& mc.package_name == call.package_name
    &&& mc.class_name == call.class_name
}

/// The method definitions among the snippets, in order.
pub open spec fn java_method_snippets(snippets: Seq<JavaSnippet>) -> Seq<JavaSnippet>
    decreases snippets.len(),
{
    if snippets.len() == 0 {
        Seq::empty()
    } else {
        let rest = java_method_snippets(snippets.drop_last());
        if snippets.last().snippet_type == JavaSnippetType::Method { rest.push(snippets.last()) } else { rest }
    }
}

/// `f` is the function of the Java method `s` of `file_path`: named after
/// it, its package as namespace, its text as signature.
pub open spec fn java_function_of(f: FunctionInfo, s: JavaSnippet, file_path: Seq<char>) -> bool {
    describes_function(
        f, s.name, file_path, s.start_line, s.end_line, text_or_empty(s.package_name), "java"@,
        Some(s.content), s.return_type, s.parameters@,
    )
}

/// The first scope of kind `kind` whose lines hold `line`.
fn scope_name_at(scopes: &Vec<JavaScope>, kind: JavaSnippetType, line: usize) -> (res: Option<String>)
    ensures
        res == java_scope_from(scopes@, kind, line as nat, 0),
{
    let mut i: usize = 0;
    while i < scopes.len()
        invariant
            i <= scopes.len(),
            java_scope_from(scopes@, kind, line as nat, 0) == java_scope_from(scopes@, kind, line as nat, i as nat),
        decreases scopes.len() - i,
    {
        let s = &scopes[i];
        if s.scope_type == kind && s.start_line <= line && line <= s.end_line {
            return Some(s.name.clone());
        }
        i = i + 1;
    }
    None
}

/// The first method scope whose body holds `loc`.
fn method_at(scopes: &Vec<MethodScope>, loc: Position) -> (res: Option<String>)
    ensures
        res == java_method_from(scopes@, loc, 0),
{
    let mut i: usize = 0;
    while i < scopes.len()
        invariant
            i <= scopes.len(),
            java_method_from(scopes@, loc, 0) == java_method_from(scopes@, loc, i as nat),
        decreases scopes.len() - i,
    {
        let s = &scopes[i];
        if s.body_start.row <= loc.row && loc.row <= s.body_end.row && s.body_start.column <= loc.column
            && loc.column <= s.body_end.column {
            return Some(s.name.clone());
        }
        i = i + 1;
    }
    None
}

/// Sets the class of each definition to the interface or class around it,
/// and records each call with the method that makes it.
pub fn establish_call_relationships(
    method_scopes: &Vec<MethodScope>,
    all_calls: &Vec<MethodCall>,
    result: &mut JavaAnalysisResult,
)
    ensures
        final(result).snippets@.len() == old(result).snippets@.len(),
        forall|i: int| 0 <= i < old(result).snippets@.len() ==> #[trigger] final(result).snippets@[i] == (JavaSnippet {
            class_name: java_snippet_class(old(result).scopes@, old(result).snippets@[i]),
            ..old(result).snippets@[i]
        }),
        final(result).method_calls@.len() == old(result).method_calls@.len() + all_calls@.len(),
        forall|j: int| 0 <= j < old(result).method_calls@.len() ==> #[trigger] final(result).method_calls@[j] == old(result).method_calls@[j],
        forall|k: int| 0 <= k < all_calls@.len() ==> java_call_built(
            #[trigger] final(result).method_calls@[old(result).method_calls@.len() + k], method_scopes@, all_calls@[k]),
        final(result).scopes == old(result).scopes,
        final(result).imports == old(result).imports,
        final(result).packages == old(result).packages,
        final(result).classes == old(result).classes,
        final(result).interfaces == old(result).interfaces,
{
    let ghost old_snippets = result.snippets@;
    let ghost scopes = result.scopes@;
    let mut i: usize = 0;
    while i < result.snippets.len()
        invariant
            i <= result.snippets@.len(),
            result.snippets@.len() == old_snippets.len(),
            result.scopes@ == scopes,
            result.scopes == old(result).scopes,
            result.imports == old(result).imports,
            result.packages == old(result).packages,
            result.classes == old(result).classes,
            result.interfaces == old(result).interfaces,
            result.method_calls == old(result).method_calls,
            forall|j: int| 0 <= j < i ==> #[trigger] result.snippets@[j] == (JavaSnippet {
                class_name: java_snippet_class(scopes, old_snippets[j]),
                ..old_snippets[j]
            }),
            forall|j: int| i <= j < old_snippets.len() ==> #[trigger] result.snippets@[j] == old_snippets[j],
        decreases old_snippets.len() - i,
    {
        let line = result.snippets[i].start_line;
        let iface = scope_name_at(&result.scopes, JavaSnippetType::Interface, line);
        let class = scope_name_at(&result.scopes, JavaSnippetType::Class, line);
        match iface {
            Some(n) => {
                result.snippets[i].class_name = Some(n);
            },
            None => match class {
                Some(n) => {
                    result.snippets[i].class_name = Some(n);
                },
                None => {},
            },
        }
        i = i + 1;
    }
    let ghost calls_before = result.method_calls@;
    let mut k: usize = 0;
    while k < all_calls.len()
        invariant
            k <= all_calls@.len(),
            calls_before == old(result).method_calls@,
            result.method_calls@.len() == calls_before.len() + k,
            forall|j: int| 0 <= j < calls_before.len() ==> #[trigger] result.method_calls@[j] == calls_before[j],
            forall|m: int| 0 <= m < k ==> java_call_built(
                #[trigger] result.method_calls@[calls_before.len() + m], method_scopes@, all_calls@[m]),
            result.snippets@.len() == old_snippets.len(),
            forall|j: int| 0 <= j < old_snippets.len() ==> #[trigger] result.snippets@[j] == (JavaSnippet {
                class_name: java_snippet_class(scopes, old_snippets[j]),
                ..old_snippets[j]
            }),
            result.scopes == old(result).scopes,
            result.imports == old(result).imports,
            result.packages == old(result).packages,
            result.classes == old(result).classes,
            result.interfaces == old(result).interfaces,
        decreases all_calls@.len() - k,
    {
        let call = &all_calls[k];
        let caller_name = match method_at(method_scopes, call.location) {
            Some(n) => n,
            None => String::new(),
        };
        let method_call = JavaMethodCall {
            caller_name,
            called_name: call.called_name.clone(),
            caller_location: (call.location.row, call.location.column),
            called_location: (0, 0),
            caller_file: String::new(),
            called_file: None,
            is_resolved: false,
            package_name: clone_opt_string(&call.package_name),
            class_name: clone_opt_string(&call.class_name),
        };
        result.method_calls.push(method_call);
        k = k + 1;
    }
}

/// The functions of a file: one per method definition, in order, each with
/// a fresh id.
pub fn methods_of_file(result: &JavaAnalysisResult, file_path: &String) -> (res: Vec<FunctionInfo>)
    ensures
        res@.len() == java_method_snippets(result.snippets@).len(),
        forall|k: int| 0 <= k < res@.len() ==> java_function_of(
            #[trigger] res@[k], java_method_snippets(result.snippets@)[k], file_path@),
{
    let mut res: Vec<FunctionInfo> = Vec::new();
    let mut i: usize = 0;
    while i < result.snippets.len()
        invariant
            i <= result.snippets@.len(),
            res@.len() == java_method_snippets(result.snippets@.subrange(0, i as int)).len(),
            forall|k: int| 0 <= k < res@.len() ==> java_function_of(
                #[trigger] res@[k], java_method_snippets(result.snippets@.subrange(0, i as int))[k], file_path@),
        decreases result.snippets@.len() - i,
    {
        proof {
            let s = result.snippets@.subrange(0, i + 1);
            assert(s.drop_last() =~= result.snippets@.subrange(0, i as int));
            assert(s.last() == result.snippets@[i as int]);
        }
        let snippet = &result.snippets[i];
        if snippet.snippet_type == JavaSnippetType::Method {
            let f = FunctionInfo {
                id: new_id(),
                name: snippet.name.clone(),
                file_path: file_path.clone(),
                line_start: snippet.start_line,
                line_end: snippet.end_line,
                namespace: string_or_empty(&snippet.package_name),
                language: String::from_str("java"),
                signature: Some(snippet.content.clone()),
                return_type: clone_opt_string(&snippet.return_type),
                parameters: parameters_named(&snippet.parameters),
            };
            res.push(f);
        }
        i = i + 1;
    }
    proof { assert(result.snippets@.subrange(0, result.snippets@.len() as int) =~= result.snippets@); }
    res
}

/// The parameters of a parenthesised Java parameter list.
pub fn parse_java_parameters(params_text: &str) -> (res: Vec<String>)
    ensures
        crate::cha::types::views(res@) == parameter_list(params_text@),
{
    split_parameters(params_text)
}

/// A Java source file: its extension, lower-cased, is `java`.
pub open spec fn java_file(path: Seq<char>) -> bool {
    match path_extension_of(path) {
        Some(e) => lowercase_of(e) == "java"@,
        None => false,
    }
}

/// Whether a file is a Java source file.
pub fn is_java_file(path: &str) -> (res: bool)
    ensures
        res == java_file(path@),
{
    match path_extension(path) {
        Some(e) => str_eq(&to_lowercase(e.as_str()), "java"),
        None => false,
    }
}

/// `fs` are the functions of the methods among `snippets` of `file_path`, in order.
pub open spec fn java_methods_of(fs: Seq<FunctionInfo>, snippets: Seq<JavaSnippet>, file_path: Seq<char>) -> bool {
    &&& fs.len() == java_method_snippets(snippets).len()
    &&& forall|k: int| 0 <= k < fs.len() ==> java_function_of(#[trigger] fs[k], java_method_snippets(snippets)[k], file_path)
}

/// What the Java analyzer keeps of the files it analysed: each method under
/// its name, and each file's methods.
#[derive(Debug)]
pub struct JavaAnalyzer {
    pub methods: FunctionRegistry,
}

/// The Java analysis report: the counts, each file's number of methods,
/// and each method with its file and lines.
pub open spec fn java_report(a: JavaAnalyzer) -> Seq<char> {
    "=== Java Code Analysis Report ===\n\n"@
        + "Total Methods: "@ + decimal(a.methods.by_name@.len()) + "\n"@
        + "Total Files: "@ + decimal(a.methods.by_file@.len()) + "\n"@
        + "\nMethods by File:\n"@ + file_lines(a.methods.by_file@, "methods"@)
        + "\nMethod List:\n"@ + function_lines(a.methods.by_name@)
}

impl JavaAnalyzer {
    /// An analyzer that has seen no file.
    pub fn new() -> (res: Result<Self, String>)
        ensures
            res matches Ok(a) && a.methods.by_name@.len() == 0 && a.methods.by_file@.len() == 0,
    {
        Ok(JavaAnalyzer { methods: FunctionRegistry::new() })
    }

    /// Records the methods of an analysed file: each under its name and the
    /// list under the file.
    pub fn process_analysis_result(&mut self, result: &JavaAnalysisResult, file_path: &String)
        ensures
            lookup(final(self).methods.by_file@, file_path@) matches Some(fs)
                && java_methods_of(fs@, result.snippets@, file_path@)
                && names_recorded(old(self).methods.by_name@, final(self).methods.by_name@, fs@, fs@.len())
                && table_keys(final(self).methods.by_name@) == names_put(table_keys(old(self).methods.by_name@), fs@, fs@.len()),
            table_keys(final(self).methods.by_file@) == keys_put(table_keys(old(self).methods.by_file@), file_path@),
            forall|p: Seq<char>| p != file_path@
                ==> #[trigger] lookup(final(self).methods.by_file@, p) == lookup(old(self).methods.by_file@, p),
    {
        let fs = methods_of_file(result, file_path);
        let ghost v = fs@;
        self.methods.record_file(file_path.clone(), fs);
        assert(java_methods_of(v, result.snippets@, file_path@));
    }

    /// The methods recorded under their names.
    pub fn get_all_methods(&self) -> (res: Vec<&FunctionInfo>)
        ensures
            res@.len() == self.methods.by_name@.len(),
            forall|k: int| 0 <= k < res@.len() ==> *#[trigger] res@[k] == self.methods.by_name@[k].1,
    {
        self.methods.get_all_functions()
    }

    /// The recorded methods named `name`.
    pub fn find_methods_by_name(&self, name: &str) -> (res: Vec<&FunctionInfo>)
        ensures
            res@.len() == crate::analyzers::registry::named(self.methods.by_name@, name@).len(),
            forall|k: int| 0 <= k < res@.len()
                ==> *#[trigger] res@[k] == crate::analyzers::registry::named(self.methods.by_name@, name@)[k],
    {
        self.methods.find_functions_by_name(name)
    }

    /// The methods recorded for a file, if it was analysed.
    pub fn get_file_methods(&self, file_path: &String) -> (res: Option<&Vec<FunctionInfo>>)
        ensures
            match res {
                Some(v) => lookup(self.methods.by_file@, file_path@) == Some(*v),
                None => lookup(self.methods.by_file@, file_path@) is None,
            },
    {
        self.methods.get_file_functions(file_path)
    }

    /// The analysis report: counts, methods per file, and the method list.
    pub fn generate_report(&self) -> (res: String)
        ensures
            res@ == java_report(*self),
    {
        let mut report = String::new();
        string_push_str(&mut report, "=== Java Code Analysis Report ===\n\n");
        string_push_str(&mut report, "Total Methods: ");
        push_decimal(&mut report, self.methods.by_name.len() as u64);
        string_push_str(&mut report, "\n");
        string_push_str(&mut report, "Total Files: ");
        push_decimal(&mut report, self.methods.by_file.len() as u64);
        string_push_str(&mut report, "\n");
        string_push_str(&mut report, "\nMethods by File:\n");
        push_file_lines(&mut report, &self.methods.by_file, "methods");
        string_push_str(&mut report, "\nMethod List:\n");
        push_function_lines(&mut report, &self.methods.by_name);
        assert(report@ =~= java_report(*self));
        report
    }
}

/// A match of the method-definition query: the node it caught first, and
/// that node's children in order.
#[derive(Debug)]
pub struct MethodNode {
    pub kind: String,
    pub text: String,
    pub children: Vec<SyntaxNode>,
}

/// The name of a method declaration: the text of its first `identifier` child.
pub open spec fn java_method_name(n: MethodNode) -> Seq<char> {
    let i = first_index(n.children@, "identifier"@, 0);
    if i >= 0 { n.children@[i].text@ } else { Seq::empty() }
}

/// A method is taken up when its node is a method declaration with a name.
pub open spec fn java_method_defined(n: MethodNode) -> bool {
    n.kind@ == "method_declaration"@ && java_method_name(n).len() > 0
}

/// The box of a method's body: that of its last `block` child, else the origin.
pub open spec fn java_method_body(n: MethodNode) -> (Position, Position) {
    let i = last_index(n.children@, "block"@, n.children@.len());
    if i >= 0 { (n.children@[i].start, n.children@[i].end) } else { (origin(), origin()) }
}

/// The parameters of a method: those of its last `formal_parameters` child.
pub open spec fn java_method_params(n: MethodNode) -> Seq<Seq<char>> {
    let i = last_index(n.children@, "formal_parameters"@, n.children@.len());
    if i >= 0 { parameter_list(n.children@[i].text@) } else { Seq::empty() }
}

/// The methods taken up among the first `k` matches, in order.
pub open spec fn java_defined_methods(nodes: Seq<MethodNode>, k: nat) -> Seq<MethodNode>
    decreases k,
{
    if k == 0 {
        Seq::empty()
    } else {
        let r = java_defined_methods(nodes, (k - 1) as nat);
        if java_method_defined(nodes[k - 1]) { r.push(nodes[k - 1]) } else { r }
    }
}

/// The package the methods of a result belong to: the first one recorded.
pub open spec fn first_package(packages: Seq<(String, Vec<String>)>) -> Option<Seq<char>> {
    if packages.len() > 0 { Some(packages[0].0@) } else { None }
}

/// The text of an optional string.
pub open spec fn opt_text(s: Option<String>) -> Option<Seq<char>> {
    match s {
        Some(x) => Some(x@),
        None => None,
    }
}

/// `s` is the method scope of `n` in package `package` (its id is fresh).
pub open spec fn java_method_scope_of(s: MethodScope, n: MethodNode, package: Option<Seq<char>>) -> bool {
    &&& s.name@ == java_method_name(n)
    &&& views(s.params@) == java_method_params(n)
    &&& (s.body_start, s.body_end) == java_method_body(n)
    &&& opt_text(s.package_name) == package
    &&& s.class_name is None
    &&& s.interface_name is None
    &&& s.modifiers@.len() == 0
    &&& s.type_parameters@.len() == 0
    &&& s.return_type is None
}

/// `s` is the method snippet of `n`: its name, the node's text, the body's
/// box, its parameters, the file and the package.
pub open spec fn java_method_snippet_of(s: JavaSnippet, n: MethodNode, package: Option<Seq<char>>, file_path: Seq<char>) -> bool {
    let (b, e) = java_method_body(n);
    &&& s.snippet_type == JavaSnippetType::Method
    &&& s.name@ == java_method_name(n)
    &&& s.content@ == n.text@
    &&& s.start_line == b.row && s.end_line == e.row
    &&& s.start_column == b.column && s.end_column == e.column
    &&& s.file_path@ == file_path
    &&& opt_text(s.package_name) == package
    &&& s.class_name is None
    &&& views(s.parameters@) == java_method_params(n)
    &&& s.return_type is None
}

/// `s` is the scope of method `n`: its name and the body's box.
pub open spec fn java_method_region_of(s: JavaScope, n: MethodNode, package: Option<Seq<char>>) -> bool {
    let (b, e) = java_method_body(n);
    &&& s.name@ == java_method_name(n)
    &&& s.scope_type == JavaSnippetType::Method
    &&& s.start_line == b.row && s.end_line == e.row
    &&& s.start_column == b.column && s.end_column == e.column
    &&& s.parent_scope is None
    &&& opt_text(s.package_name) == package
    &&& s.class_name is None
}

/// `after` is `before` with one entry per method appended, each related to
/// its method by `rel`.
pub open spec fn appended_per_method<T>(
    before: Seq<T>,
    after: Seq<T>,
    methods: Seq<MethodNode>,
    rel: spec_fn(T, MethodNode) -> bool,
) -> bool {
    &&& after.len() == before.len() + methods.len()
    &&& forall|j: int| 0 <= j < before.len() ==> #[trigger] after[j] == before[j]
    &&& forall|k: int| 0 <= k < methods.len() ==> rel(#[trigger] after[before.len() + k], methods[k])
}

/// Collects the method definitions that the method-definition query matched:
/// each match whose node is a method declaration with an `identifier` child
/// gives a method scope (returned), a method snippet and a method scope of
/// the result, in match order; the others are skipped.
pub fn collect_method_definitions(nodes: &Vec<MethodNode>, file_path: &String, result: &mut JavaAnalysisResult) -> (res: Vec<MethodScope>)
    ensures
        ({
            let d = java_defined_methods(nodes@, nodes@.len());
            let pkg = first_package(old(result).packages@);
            &&& res@.len() == d.len()
            &&& forall|k: int| 0 <= k < d.len() ==> java_method_scope_of(#[trigger] res@[k], d[k], pkg)
            &&& appended_per_method(old(result).snippets@, final(result).snippets@, d,
                |s: JavaSnippet, n: MethodNode| java_method_snippet_of(s, n, pkg, file_path@))
            &&& appended_per_method(old(result).scopes@, final(result).scopes@, d,
                |s: JavaScope, n: MethodNode| java_method_region_of(s, n, pkg))
        }),
        final(result).method_calls@ == old(result).method_calls@,
        final(result).imports@ == old(result).imports@,
        final(result).packages@ == old(result).packages@,
        final(result).classes@ == old(result).classes@,
        final(result).interfaces@ == old(result).interfaces@,
{
    let ghost pkg = first_package(result.packages@);
    let ghost snippets0 = result.snippets@;
    let ghost scopes0 = result.scopes@;
    let package: Option<String> = if result.packages.len() > 0 { Some(result.packages[0].0.clone()) } else { None };
    let mut res: Vec<MethodScope> = Vec::new();
    let mut i: usize = 0;
    while i < nodes.len()
        invariant
            i <= nodes@.len(),
            opt_text(package) == pkg,
            pkg == first_package(old(result).packages@),
            snippets0 == old(result).snippets@,
            scopes0 == old(result).scopes@,
            res@.len() == java_defined_methods(nodes@, i as nat).len(),
            forall|k: int| 0 <= k < res@.len() ==> java_method_scope_of(#[trigger] res@[k], java_defined_methods(nodes@, i as nat)[k], pkg),
            appended_per_method(snippets0, result.snippets@, java_defined_methods(nodes@, i as nat),
                |s: JavaSnippet, n: MethodNode| java_method_snippet_of(s, n, pkg, file_path@)),
            appended_per_method(scopes0, result.scopes@, java_defined_methods(nodes@, i as nat),
                |s: JavaScope, n: MethodNode| java_method_region_of(s, n, pkg)),
            result.method_calls@ == old(result).method_calls@,
            result.imports@ == old(result).imports@,
            result.packages@ == old(result).packages@,
            result.classes@ == old(result).classes@,
            result.interfaces@ == old(result).interfaces@,
        decreases nodes.len() - i,
    {
        let n = &nodes[i];
        let ghost d = java_defined_methods(nodes@, i as nat);
        let name = match first_node_of_kind(&n.children, "identifier") {
            Some(c) => n.children[c].text.clone(),
            None => String::new(),
        };
        if str_eq(&n.kind, "method_declaration") && name.as_str().unicode_len() > 0 {
            let params = match last_node_of_kind(&n.children, "formal_parameters") {
                Some(c) => parse_java_parameters(n.children[c].text.as_str()),
                None => Vec::new(),
            };
            let (body_start, body_end) = match last_node_of_kind(&n.children, "block") {
                Some(c) => (n.children[c].start, n.children[c].end),
                None => (Position { row: 0, column: 0 }, Position { row: 0, column: 0 }),
            };
            proof {
                assert(views(params@) == java_method_params(*n));
                assert((body_start, body_end) == java_method_body(*n));
                assert(name@ == java_method_name(*n));
                assert(java_defined_methods(nodes@, (i + 1) as nat) == d.push(*n));
            }
            let scope = MethodScope {
                name: name.clone(),
                params: clone_string_vec(&params),
                body_start,
                body_end,
                package_name: clone_opt_string(&package),
                class_name: None,
                interface_name: None,
                method_id: new_id(),
                modifiers: Vec::new(),
                type_parameters: Vec::new(),
                return_type: None,
            };
            let ghost res_before = res@;
            res.push(scope);
            let snippet = JavaSnippet {
                snippet_type: JavaSnippetType::Method,
                name: name.clone(),
                content: n.text.clone(),
                start_line: body_start.row,
                end_line: body_end.row,
                start_column: body_start.column,
                end_column: body_end.column,
                file_path: file_path.clone(),
                package_name: clone_opt_string(&package),
                class_name: None,
                parameters: params,
                return_type: None,
            };
            let ghost sn_before = result.snippets@;
            result.snippets.push(snippet);
            let region = JavaScope {
                name,
                scope_type: JavaSnippetType::Method,
                start_line: body_start.row,
                end_line: body_end.row,
                start_column: body_start.column,
                end_column: body_end.column,
                parent_scope: None,
                package_name: clone_opt_string(&package),
                class_name: None,
            };
            let ghost sc_before = result.scopes@;
            result.scopes.push(region);
            proof {
                let d2 = d.push(*n);
                assert forall|k: int| 0 <= k < res@.len() implies java_method_scope_of(#[trigger] res@[k], d2[k], pkg) by {
                    if k < res_before.len() { assert(res@[k] == res_before[k]); assert(d2[k] == d[k]); }
                }
                assert forall|k: int| 0 <= k < d2.len() implies java_method_snippet_of(#[trigger] result.snippets@[snippets0.len() + k], d2[k], pkg, file_path@) by {
                    if k < d.len() {
                        assert(result.snippets@[snippets0.len() + k] == sn_before[snippets0.len() + k]);
                        assert(d2[k] == d[k]);
                    }
                }
                assert forall|j: int| 0 <= j < snippets0.len() implies #[trigger] result.snippets@[j] == snippets0[j] by {
                    assert(result.snippets@[j] == sn_before[j]);
                }
                assert forall|k: int| 0 <= k < d2.len() implies java_method_region_of(#[trigger] result.scopes@[scopes0.len() + k], d2[k], pkg) by {
                    if k < d.len() {
                        assert(result.scopes@[scopes0.len() + k] == sc_before[scopes0.len() + k]);
                        assert(d2[k] == d[k]);
                    }
                }
                assert forall|j: int| 0 <= j < scopes0.len() implies #[trigger] result.scopes@[j] == scopes0[j] by {
                    assert(result.scopes@[j] == sc_before[j]);
                }
            }
        } else {
            proof {
                assert(java_defined_methods(nodes@, (i + 1) as nat) == d);
            }
        }
        i = i + 1;
    }
    res
}

proof fn lemma_java_caller_from(scopes: Seq<MethodScope>, loc: Position, i: nat)
    ensures
        java_method_from(scopes, loc, i) matches Some(n) ==> exists|k: int| i <= k < scopes.len() && #[trigger] scopes[k].name == n
            && scopes[k].body_start.row <= loc.row && loc.row <= scopes[k].body_end.row && scopes[k].body_start.column <= loc.column && loc.column <= scopes[k].body_end.column
            && forall|j: int| i <= j < k ==> !(#[trigger] scopes[j].body_start.row <= loc.row && loc.row <= scopes[j].body_end.row && scopes[j].body_start.column <= loc.column && loc.column <= scopes[j].body_end.column),
        java_method_from(scopes, loc, i) is None ==> forall|j: int| i <= j < scopes.len() ==> !(#[trigger] scopes[j].body_start.row <= loc.row && loc.row <= scopes[j].body_end.row && scopes[j].body_start.column <= loc.column && loc.column <= scopes[j].body_end.column),
    decreases scopes.len() - i,
{
    if i < scopes.len() {
        lemma_java_caller_from(scopes, loc, i + 1);
    }
}

/// A call's caller is the function around it: when one is found, it is the
/// first scope whose body box (rows and columns from its body's start to its
/// body's end) holds the call's position; when none is, no body holds it.
pub proof fn law_java_caller_encloses_the_call(scopes: Seq<MethodScope>, loc: Position)
    ensures
        java_method_from(scopes, loc, 0) matches Some(n) ==> exists|k: int| 0 <= k < scopes.len() && #[trigger] scopes[k].name == n
            && scopes[k].body_start.row <= loc.row && loc.row <= scopes[k].body_end.row && scopes[k].body_start.column <= loc.column && loc.column <= scopes[k].body_end.column
            && forall|j: int| 0 <= j < k ==> !(#[trigger] scopes[j].body_start.row <= loc.row && loc.row <= scopes[j].body_end.row && scopes[j].body_start.column <= loc.column && loc.column <= scopes[j].body_end.column),
        java_method_from(scopes, loc, 0) is None ==> forall|j: int| 0 <= j < scopes.len() ==> !(#[trigger] scopes[j].body_start.row <= loc.row && loc.row <= scopes[j].body_end.row && scopes[j].body_start.column <= loc.column && loc.column <= scopes[j].body_end.column),
{
    lemma_java_caller_from(scopes, loc, 0);
}

proof fn lemma_java_method_snippets_contains(snippets: Seq<JavaSnippet>, x: JavaSnippet)
    ensures
        java_method_snippets(snippets).contains(x) <==> (snippets.contains(x) && x.snippet_type == JavaSnippetType::Method),
    decreases snippets.len(),
{
    if snippets.len() > 0 {
        let init = snippets.drop_last();
        lemma_java_method_snippets_contains(init, x);
        let rest = java_method_snippets(init);
        let r = java_method_snippets(snippets);
        if r.contains(x) {
            let k = choose|k: int| 0 <= k < r.len() && r[k] == x;
            if k < rest.len() {
                assert(rest[k] == x);
                let j = choose|j: int| 0 <= j < init.len() && init[j] == x;
                assert(snippets[j] == x);
            } else {
                assert(snippets[snippets.len() - 1] == x);
            }
        }
        if snippets.contains(x) && x.snippet_type == JavaSnippetType::Method {
            let j = choose|j: int| 0 <= j < snippets.len() && snippets[j] == x;
            if j < snippets.len() - 1 {
                assert(init[j] == x);
                let k = choose|k: int| 0 <= k < rest.len() && rest[k] == x;
                assert(r[k] == x);
            } else {
                assert(r[rest.len() as int] == x);
            }
        }
    }
}

/// The methods a file gives are exactly its snippets of the method kind.
pub proof fn law_java_method_snippets_by_kind(snippets: Seq<JavaSnippet>, x: JavaSnippet)
    ensures
        java_method_snippets(snippets).contains(x) <==> (snippets.contains(x) && x.snippet_type == JavaSnippetType::Method),
{
    lemma_java_method_snippets_contains(snippets, x);
}

} // verus!
