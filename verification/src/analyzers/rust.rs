//! The Rust analyzer's work on what the syntax tree gave: the caller of each
//! call and the functions of a file.

use vstd::prelude::*;
use crate::queries::rust::{RustSnippet, RustSnippetType, RustMethodCall, RustAnalysisResult};
use crate::analyzers::common::{Position, new_id, text_or_empty, string_or_empty, describes_function, parameters_named, NamedCapture};
use crate::table::table_insert;
use crate::cha::types::views;
use crate::graph_types::{FunctionInfo, same_function};
use crate::analyzers::registry::{FunctionRegistry, names_recorded};
use crate::table::{lookup, table_keys, keys_put};
use crate::analyzers::registry::names_put;
use crate::cha::types::clone_opt_string;
use crate::cha::hierarchy::clone_string_vec;
use crate::languages::{path_extension, path_extension_of};
use crate::text::{to_lowercase, lowercase_of, str_eq};

verus! {

/// A function and the box its body spans.
#[derive(Debug)]
pub struct FunctionScope {
    pub name: String,
    pub params: Vec<String>,
    pub body_start: Position,
    pub body_end: Position,
    pub module_name: Option<String>,
    pub struct_name: Option<String>,
    pub trait_name: Option<String>,
    pub function_id: u128,
    pub modifiers: Vec<String>,
    pub type_parameters: Vec<String>,
    pub return_type: Option<String>,
}

/// A call and where it stands.
#[derive(Debug)]
pub struct FunctionCall {
    pub caller_name: String,
    pub called_name: String,
    pub location: Position,
    pub module_name: Option<String>,
    pub struct_name: Option<String>,
    pub trait_name: Option<String>,
    pub arguments: Vec<String>,
    pub type_arguments: Vec<String>,
}

/// The position of the first scope, from `i` on, whose body rows hold `row`;
/// -1 when there is none.
pub open spec fn rust_scope_from(scopes: Seq<FunctionScope>, row: usize, i: nat) -> int
    decreases scopes.len() - i,
{
    if i >= scopes.len() {
        -1
    } else if scopes[i as int].body_start.row <= row <= scopes[i as int].body_end.row {
        i as int
    } else {
        rust_scope_from(scopes, row, i + 1)
    }
}

proof fn lemma_rust_scope_from(scopes: Seq<FunctionScope>, row: usize, i: nat)
    ensures
        rust_scope_from(scopes, row, i) == -1 || (i <= rust_scope_from(scopes, row, i) < scopes.len()),
    decreases scopes.len() - i,
{
    if i < scopes.len() && !(scopes[i as int].body_start.row <= row <= scopes[i as int].body_end.row) {
        lemma_rust_scope_from(scopes, row, i + 1);
    }
}

/// The name of the function whose body rows hold the call, empty when none does.
pub open spec fn rust_caller_name(scopes: Seq<FunctionScope>, call: FunctionCall) -> Seq<char> {
    let p = rust_scope_from(scopes, call.location.row, 0);
    if p >= 0 { scopes[p].name@ } else { Seq::empty() }
}

/// `mc` records `call` with its caller, at the call's position, with no file.
pub open spec fn rust_call_built(mc: RustMethodCall, scopes: Seq<FunctionScope>, call: FunctionCall) -> bool {
    &&& mc.caller_name@ == rust_caller_name(scopes, call)
    &&& mc.called_name == call.called_name
    &&& mc.location == (call.location.row, call.location.column)
    &&& mc.file_path@ == Seq::<char>::empty()
    &&& mc.arguments@ == call.arguments@
    &&& mc.type_arguments@ == call.type_arguments@
}

/// The function definitions among the snippets, in order.
pub open spec fn rust_function_snippets(snippets: Seq<RustSnippet>) -> Seq<RustSnippet>
    decreases snippets.len(),
{
    if snippets.len() == 0 {
        Seq::empty()
    } else {
        let rest = rust_function_snippets(snippets.drop_last());
        if snippets.last().snippet_type == RustSnippetType::Function { rest.push(snippets.last()) } else { rest }
    }
}

/// `f` is the function of the Rust function `s` of `file_path`: named after
/// it, its scope as namespace, without signature.
pub open spec fn rust_function_of(f: FunctionInfo, s: RustSnippet, file_path: Seq<char>) -> bool {
    describes_function(
        f, s.name, file_path, s.start_line, s.end_line, text_or_empty(s.scope), "rust"@, None,
        s.return_type, s.parameters@,
    )
}

/// The scope that makes a call: the first whose body rows hold the call's row.
pub fn find_caller_scope<'a>(call: &FunctionCall, function_scopes: &'a Vec<FunctionScope>) -> (res: Option<&'a FunctionScope>)
    ensures
        match res {
            Some(s) => {
                let p = rust_scope_from(function_scopes@, call.location.row, 0);
                p >= 0 && *s == function_scopes@[p]
            },
            None => rust_scope_from(function_scopes@, call.location.row, 0) == -1,
        },
{
    proof { lemma_rust_scope_from(function_scopes@, call.location.row, 0); }
    let mut i: usize = 0;
    while i < function_scopes.len()
        invariant
            i <= function_scopes.len(),
            rust_scope_from(function_scopes@, call.location.row, 0) == rust_scope_from(function_scopes@, call.location.row, i as nat),
        decreases function_scopes.len() - i,
    {
        let s = &function_scopes[i];
        if call.location.row >= s.body_start.row && call.location.row <= s.body_end.row {
            return Some(s);
        }
        i = i + 1;
    }
    None
}

/// Records each call with the function that makes it.
pub fn establish_call_relationships(function_scopes: &Vec<FunctionScope>, all_calls: &Vec<FunctionCall>, result: &mut RustAnalysisResult)
    ensures
        final(result).method_calls@.len() == old(result).method_calls@.len() + all_calls@.len(),
        forall|j: int| 0 <= j < old(result).method_calls@.len() ==> #[trigger] final(result).method_calls@[j] == old(result).method_calls@[j],
        forall|k: int| 0 <= k < all_calls@.len() ==> rust_call_built(
            #[trigger] final(result).method_calls@[old(result).method_calls@.len() + k], function_scopes@, all_calls@[k]),
        final(result).snippets == old(result).snippets,
        final(result).scopes == old(result).scopes,
        final(result).imports == old(result).imports,
        final(result).modules == old(result).modules,
        final(result).structs == old(result).structs,
        final(result).enums == old(result).enums,
        final(result).traits == old(result).traits,
        final(result).macros == old(result).macros,
        final(result).types == old(result).types,
{
    let ghost calls_before = result.method_calls@;
    let mut k: usize = 0;
    while k < all_calls.len()
        invariant
            k <= all_calls@.len(),
            calls_before == old(result).method_calls@,
            result.method_calls@.len() == calls_before.len() + k,
            forall|j: int| 0 <= j < calls_before.len() ==> #[trigger] result.method_calls@[j] == calls_before[j],
            forall|m: int| 0 <= m < k ==> rust_call_built(
                #[trigger] result.method_calls@[calls_before.len() + m], function_scopes@, all_calls@[m]),
            result.snippets == old(result).snippets,
            result.scopes == old(result).scopes,
            result.imports == old(result).imports,
            result.modules == old(result).modules,
            result.structs == old(result).structs,
            result.enums == old(result).enums,
            result.traits == old(result).traits,
            result.macros == old(result).macros,
            result.types == old(result).types,
        decreases all_calls@.len() - k,
    {
        let call = &all_calls[k];
        proof { lemma_rust_scope_from(function_scopes@, call.location.row, 0); }
        let caller_name = match find_caller_scope(call, function_scopes) {
            Some(s) => s.name.clone(),
            None => String::new(),
        };
        let method_call = RustMethodCall {
            caller_name,
            called_name: call.called_name.clone(),
            location: (call.location.row, call.location.column),
            file_path: String::new(),
            arguments: clone_string_vec(&call.arguments),
            type_arguments: clone_string_vec(&call.type_arguments),
        };
        result.method_calls.push(method_call);
        k = k + 1;
    }
}

/// The functions of a file: one per function definition, in order, each with
/// a fresh id.
pub fn functions_of_file(result: &RustAnalysisResult, file_path: &String) -> (res: Vec<FunctionInfo>)
    ensures
        res@.len() == rust_function_snippets(result.snippets@).len(),
        forall|k: int| 0 <= k < res@.len() ==> rust_function_of(
            #[trigger] res@[k], rust_function_snippets(result.snippets@)[k], file_path@),
{
    let mut res: Vec<FunctionInfo> = Vec::new();
    let mut i: usize = 0;
    while i < result.snippets.len()
        invariant
            i <= result.snippets@.len(),
            res@.len() == rust_function_snippets(result.snippets@.subrange(0, i as int)).len(),
            forall|k: int| 0 <= k < res@.len() ==> rust_function_of(
                #[trigger] res@[k], rust_function_snippets(result.snippets@.subrange(0, i as int))[k], file_path@),
        decreases result.snippets@.len() - i,
    {
        proof {
            let s = result.snippets@.subrange(0, i + 1);
            assert(s.drop_last() =~= result.snippets@.subrange(0, i as int));
            assert(s.last() == result.snippets@[i as int]);
        }
        let snippet = &result.snippets[i];
        if snippet.snippet_type == RustSnippetType::Function {
            let f = FunctionInfo {
                id: new_id(),
                name: snippet.name.clone(),
                file_path: file_path.clone(),
                line_start: snippet.start_line,
                line_end: snippet.end_line,
                namespace: string_or_empty(&snippet.scope),
                language: String::from_str("rust"),
                signature: None,
                return_type: clone_opt_string(&snippet.return_type),
                parameters: parameters_named(&snippet.parameters),
            };
            res.push(f);
        }
        i = i + 1;
    }
    proof { assert(result.snippets@.subrange(0, result.snippets@.len() as int) =~= result.snippets@); }
    res
}

/// A Rust source file: its extension, lower-cased, is `rs`.
pub open spec fn rust_file(path: Seq<char>) -> bool {
    match path_extension_of(path) {
        Some(e) => lowercase_of(e) == "rs"@,
        None => false,
    }
}

/// Whether a file is a Rust source file.
pub fn is_rust_file(path: &str) -> (res: bool)
    ensures
        res == rust_file(path@),
{
    match path_extension(path) {
        Some(e) => str_eq(&to_lowercase(e.as_str()), "rs"),
        None => false,
    }
}

/// `fs` are the functions of the function definitions among `snippets` of
/// `file_path`, in order.
pub open spec fn rust_functions_of(fs: Seq<FunctionInfo>, snippets: Seq<RustSnippet>, file_path: Seq<char>) -> bool {
    &&& fs.len() == rust_function_snippets(snippets).len()
    &&& forall|k: int| 0 <= k < fs.len() ==> rust_function_of(#[trigger] fs[k], rust_function_snippets(snippets)[k], file_path)
}

/// What the Rust analyzer keeps of the files it analysed: each function
/// under its name, and each file's functions.
#[derive(Debug)]
pub struct RustAnalyzer {
    pub functions: FunctionRegistry,
}

/// `b` is a copy of `a`, function by function.
pub open spec fn copied_functions(a: Seq<FunctionInfo>, b: Seq<FunctionInfo>) -> bool {
    &&& a.len() == b.len()
    &&& forall|k: int| 0 <= k < a.len() ==> same_function(#[trigger] a[k], b[k])
}

impl RustAnalyzer {
    /// An analyzer that has seen no file.
    pub fn new() -> (res: Result<Self, String>)
        ensures
            res matches Ok(a) && a.functions.by_name@.len() == 0 && a.functions.by_file@.len() == 0,
    {
        Ok(RustAnalyzer { functions: FunctionRegistry::new() })
    }

    /// Records the functions of an analysed file: each under its name and
    /// the list under the file.
    pub fn process_analysis_result(&mut self, result: &RustAnalysisResult, file_path: &String)
        ensures
            lookup(final(self).functions.by_file@, file_path@) matches Some(fs)
                && rust_functions_of(fs@, result.snippets@, file_path@)
                && names_recorded(old(self).functions.by_name@, final(self).functions.by_name@, fs@, fs@.len())
                && table_keys(final(self).functions.by_name@) == names_put(table_keys(old(self).functions.by_name@), fs@, fs@.len()),
            table_keys(final(self).functions.by_file@) == keys_put(table_keys(old(self).functions.by_file@), file_path@),
            forall|p: Seq<char>| p != file_path@
                ==> #[trigger] lookup(final(self).functions.by_file@, p) == lookup(old(self).functions.by_file@, p),
    {
        let fs = functions_of_file(result, file_path);
        let ghost v = fs@;
        self.functions.record_file(file_path.clone(), fs);
        assert(rust_functions_of(v, result.snippets@, file_path@));
    }

    /// The functions found in a file: a copy of those recorded for it, none
    /// when it was not analysed.
    pub fn extract_functions(&self, path: &String) -> (res: Result<Vec<FunctionInfo>, String>)
        ensures
            res matches Ok(v) && match lookup(self.functions.by_file@, path@) {
                Some(fs) => copied_functions(fs@, v@),
                None => v@.len() == 0,
            },
    {
        let mut res: Vec<FunctionInfo> = Vec::new();
        match self.functions.get_file_functions(path) {
            Some(fs) => {
                let mut i: usize = 0;
                while i < fs.len()
                    invariant
                        i <= fs@.len(),
                        res@.len() == i,
                        forall|k: int| 0 <= k < i ==> same_function(#[trigger] fs@[k], res@[k]),
                    decreases fs@.len() - i,
                {
                    res.push(fs[i].clone());
                    i = i + 1;
                }
            },
            None => {},
        }
        Ok(res)
    }
}

/// The capture that names a definition of the given kind.
pub open spec fn definition_label(kind: RustSnippetType) -> Seq<char> {
    match kind {
        RustSnippetType::Struct => "struct.name"@,
        RustSnippetType::Enum => "enum.name"@,
        _ => "trait.name"@,
    }
}

/// The captures among the first `k` that carry the given name, in order.
pub open spec fn captures_named(caps: Seq<NamedCapture>, name: Seq<char>, k: nat) -> Seq<NamedCapture>
    decreases k,
{
    if k == 0 {
        Seq::empty()
    } else {
        let r = captures_named(caps, name, (k - 1) as nat);
        if caps[k - 1].capture_name@ == name { r.push(caps[k - 1]) } else { r }
    }
}

/// Some capture of `cs` has the text `name`.
pub open spec fn names_captured(cs: Seq<NamedCapture>, name: Seq<char>) -> bool {
    exists|i: int| 0 <= i < cs.len() && (#[trigger] cs[i]).text@ == name
}

/// The keys of a table after putting the text of each capture, in order.
pub open spec fn keys_after_puts(keys: Seq<Seq<char>>, cs: Seq<NamedCapture>) -> Seq<Seq<char>>
    decreases cs.len(),
{
    if cs.len() == 0 { keys } else { keys_put(keys_after_puts(keys, cs.drop_last()), cs.last().text@) }
}

/// `s` is the snippet of a definition of kind `kind` whose name `c` caught.
pub open spec fn rust_definition_snippet_of(s: RustSnippet, c: NamedCapture, kind: RustSnippetType, file_path: Seq<char>) -> bool {
    &&& s.snippet_type == kind
    &&& s.name@ == c.text@
    &&& s.start_line == c.start.row
    &&& s.end_line == c.end.row
    &&& s.file_path@ == file_path
    &&& s.content@ == c.text@
    &&& s.scope is None
    &&& s.modifiers@.len() == 0
    &&& s.generics@.len() == 0
    &&& s.parameters@.len() == 0
    &&& s.return_type is None
}

/// What recording the definitions `d` of kind `kind` did to a table and to
/// the snippets: each name is put in the table with the file alone, and one
/// snippet per definition is appended, in order.
pub open spec fn definitions_recorded(
    table0: Seq<(String, Vec<String>)>,
    table: Seq<(String, Vec<String>)>,
    snippets0: Seq<RustSnippet>,
    snippets: Seq<RustSnippet>,
    d: Seq<NamedCapture>,
    kind: RustSnippetType,
    file_path: Seq<char>,
) -> bool {
    &&& table_keys(table) == keys_after_puts(table_keys(table0), d)
    &&& forall|k: Seq<char>| #![trigger lookup(table, k)] names_captured(d, k) ==> (lookup(table, k) matches Some(v) && views(v@) == seq![file_path])
    &&& forall|k: Seq<char>| #![trigger lookup(table, k)] !names_captured(d, k) ==> lookup(table, k) == lookup(table0, k)
    &&& snippets.len() == snippets0.len() + d.len()
    &&& forall|j: int| 0 <= j < snippets0.len() ==> #[trigger] snippets[j] == snippets0[j]
    &&& forall|k: int| 0 <= k < d.len() ==> rust_definition_snippet_of(#[trigger] snippets[snippets0.len() + k], d[k], kind, file_path)
}

/// Records the definitions of one kind whose names the captures caught: for
/// each capture named `<kind>.name`, in order, the name goes into `table`
/// with the file alone, and a snippet of that kind into `snippets`.
pub fn collect_named_definitions(
    caps: &Vec<NamedCapture>,
    kind: RustSnippetType,
    file_path: &String,
    table: &mut Vec<(String, Vec<String>)>,
    snippets: &mut Vec<RustSnippet>,
)
    requires
        kind == RustSnippetType::Struct || kind == RustSnippetType::Enum || kind == RustSnippetType::Trait,
    ensures
        definitions_recorded(old(table)@, final(table)@, old(snippets)@, final(snippets)@,
            captures_named(caps@, definition_label(kind), caps@.len()), kind, file_path@),
{
    let label = match kind {
        RustSnippetType::Struct => "struct.name",
        RustSnippetType::Enum => "enum.name",
        _ => "trait.name",
    };
    let ghost t0 = table@;
    let ghost s0 = snippets@;
    let mut i: usize = 0;
    while i < caps.len()
        invariant
            i <= caps@.len(),
            label@ == definition_label(kind),
            t0 == old(table)@,
            s0 == old(snippets)@,
            definitions_recorded(t0, table@, s0, snippets@, captures_named(caps@, label@, i as nat), kind, file_path@),
        decreases caps.len() - i,
    {
        let c = &caps[i];
        let ghost d = captures_named(caps@, label@, i as nat);
        if str_eq(&c.capture_name, label) {
            let name = c.text.clone();
            let mut files: Vec<String> = Vec::new();
            files.push(file_path.clone());
            let ghost t1 = table@;
            table_insert(table, name, files);
            let snippet = RustSnippet {
                snippet_type: kind,
                name: c.text.clone(),
                start_line: c.start.row,
                end_line: c.end.row,
                file_path: file_path.clone(),
                content: c.text.clone(),
                scope: None,
                modifiers: Vec::new(),
                generics: Vec::new(),
                parameters: Vec::new(),
                return_type: None,
            };
            let ghost sn_before = snippets@;
            snippets.push(snippet);
            proof {
                let d2 = d.push(*c);
                assert(captures_named(caps@, label@, (i + 1) as nat) == d2);
                assert(d2.drop_last() == d);
                assert(views(files@) =~= seq![file_path@]);
                assert forall|k: Seq<char>| #![trigger lookup(table@, k)] names_captured(d2, k)
                    implies (lookup(table@, k) matches Some(v) && views(v@) == seq![file_path@]) by {
                    if k != c.text@ {
                        let j = choose|j: int| 0 <= j < d2.len() && (#[trigger] d2[j]).text@ == k;
                        assert(d[j] == d2[j]);
                        assert(names_captured(d, k));
                    }
                }
                assert forall|k: Seq<char>| #![trigger lookup(table@, k)] !names_captured(d2, k)
                    implies lookup(table@, k) == lookup(t0, k) by {
                    assert(d2[d.len() as int] == *c);
                    if names_captured(d, k) {
                        let j = choose|j: int| 0 <= j < d.len() && (#[trigger] d[j]).text@ == k;
                        assert(d2[j] == d[j]);
                    }
                }
                assert forall|k: int| 0 <= k < d2.len() implies rust_definition_snippet_of(#[trigger] snippets@[s0.len() + k], d2[k], kind, file_path@) by {
                    if k < d.len() {
                        assert(snippets@[s0.len() + k] == sn_before[s0.len() + k]);
                        assert(d2[k] == d[k]);
                    }
                }
                assert forall|j: int| 0 <= j < s0.len() implies #[trigger] snippets@[j] == s0[j] by {
                    assert(snippets@[j] == sn_before[j]);
                }
            }
        } else {
            proof {
                assert(captures_named(caps@, label@, (i + 1) as nat) == d);
            }
        }
        i = i + 1;
    }
}

/// Records the struct, enum and trait definitions whose names the three
/// queries caught, in that order (see `collect_named_definitions`).
pub fn collect_struct_enum_trait_definitions(
    structs: &Vec<NamedCapture>,
    enums: &Vec<NamedCapture>,
    traits: &Vec<NamedCapture>,
    file_path: &String,
    result: &mut RustAnalysisResult,
)
    ensures
        ({
            let ds = captures_named(structs@, "struct.name"@, structs@.len());
            let de = captures_named(enums@, "enum.name"@, enums@.len());
            let dt = captures_named(traits@, "trait.name"@, traits@.len());
            let n0 = old(result).snippets@.len();
            let after_structs = final(result).snippets@.subrange(0, (n0 + ds.len()) as int);
            let after_enums = final(result).snippets@.subrange(0, (n0 + ds.len() + de.len()) as int);
            &&& final(result).snippets@.len() == n0 + ds.len() + de.len() + dt.len()
            &&& definitions_recorded(old(result).structs@, final(result).structs@, old(result).snippets@, after_structs,
                ds, RustSnippetType::Struct, file_path@)
            &&& definitions_recorded(old(result).enums@, final(result).enums@, after_structs, after_enums,
                de, RustSnippetType::Enum, file_path@)
            &&& definitions_recorded(old(result).traits@, final(result).traits@, after_enums, final(result).snippets@,
                dt, RustSnippetType::Trait, file_path@)
        }),
        final(result).method_calls@ == old(result).method_calls@,
        final(result).scopes@ == old(result).scopes@,
        final(result).imports@ == old(result).imports@,
        final(result).modules@ == old(result).modules@,
        final(result).macros@ == old(result).macros@,
        final(result).types@ == old(result).types@,
{
    let ghost s0 = result.snippets@;
    collect_named_definitions(structs, RustSnippetType::Struct, file_path, &mut result.structs, &mut result.snippets);
    let ghost s1 = result.snippets@;
    collect_named_definitions(enums, RustSnippetType::Enum, file_path, &mut result.enums, &mut result.snippets);
    let ghost s2 = result.snippets@;
    collect_named_definitions(traits, RustSnippetType::Trait, file_path, &mut result.traits, &mut result.snippets);
    proof {
        reveal_strlit("struct.name");
        reveal_strlit("enum.name");
        reveal_strlit("trait.name");
        let s3 = result.snippets@;
        assert(s3.subrange(0, s1.len() as int) =~= s1) by {
            assert forall|j: int| 0 <= j < s1.len() implies s3[j] == s1[j] by {
                assert(s2[j] == s1[j]);
            }
        }
        assert(s3.subrange(0, s2.len() as int) =~= s2);
    }
}

proof fn lemma_rust_scope_first(scopes: Seq<FunctionScope>, row: usize, i: nat)
    ensures
        rust_scope_from(scopes, row, i) >= 0 ==> ({
            let k = rust_scope_from(scopes, row, i);
            &&& i <= k < scopes.len()
            &&& scopes[k].body_start.row <= row && row <= scopes[k].body_end.row
            &&& forall|j: int| i <= j < k ==> !(#[trigger] scopes[j].body_start.row <= row && row <= scopes[j].body_end.row)
        }),
        rust_scope_from(scopes, row, i) < 0 ==> forall|j: int| i <= j < scopes.len()
            ==> !(#[trigger] scopes[j].body_start.row <= row && row <= scopes[j].body_end.row),
    decreases scopes.len() - i,
{
    if i < scopes.len() {
        lemma_rust_scope_first(scopes, row, i + 1);
    }
}

/// A call's caller is the function around it: the name of the first scope
/// whose body rows hold the call's row, or empty when no body holds it.
pub proof fn law_rust_caller_encloses_the_call(scopes: Seq<FunctionScope>, call: FunctionCall)
    ensures
        (exists|k: int| 0 <= k < scopes.len() && rust_caller_name(scopes, call) == #[trigger] scopes[k].name@
            && scopes[k].body_start.row <= call.location.row && call.location.row <= scopes[k].body_end.row
            && forall|j: int| 0 <= j < k ==> !(#[trigger] scopes[j].body_start.row <= call.location.row
                && call.location.row <= scopes[j].body_end.row))
        || (rust_caller_name(scopes, call) == Seq::<char>::empty() && forall|j: int| 0 <= j < scopes.len()
            ==> !(#[trigger] scopes[j].body_start.row <= call.location.row && call.location.row <= scopes[j].body_end.row)),
{
    lemma_rust_scope_first(scopes, call.location.row, 0);
    let k = rust_scope_from(scopes, call.location.row, 0);
    if k >= 0 {
        assert(rust_caller_name(scopes, call) == scopes[k].name@);
    }
}

proof fn lemma_rust_function_snippets_contains(snippets: Seq<RustSnippet>, x: RustSnippet)
    ensures
        rust_function_snippets(snippets).contains(x) <==> (snippets.contains(x) && x.snippet_type == RustSnippetType::Function),
    decreases snippets.len(),
{
    if snippets.len() > 0 {
        let init = snippets.drop_last();
        lemma_rust_function_snippets_contains(init, x);
        let rest = rust_function_snippets(init);
        let r = rust_function_snippets(snippets);
        if r.contains(x) {
            let k = choose|k: int| 0 <= k < r.len() && r[k] == x;
            if k < rest.len() {
                assert(rest[k] == x);
                let j = choose|j: int| 0 <= j < init.len() && init[j] == x;
                assert(snippets[j] == x);
            } else {
                assert(snippets[snippets.len() - 1] == x);
            }
        }
        if snippets.contains(x) && x.snippet_type == RustSnippetType::Function {
            let j = choose|j: int| 0 <= j < snippets.len() && snippets[j] == x;
            if j < snippets.len() - 1 {
                assert(init[j] == x);
                let k = choose|k: int| 0 <= k < rest.len() && rest[k] == x;
                assert(r[k] == x);
            } else {
                assert(r[rest.len() as int] == x);
            }
        }
    }
}

/// The functions a file gives are exactly its snippets of the function kind.
pub proof fn law_rust_function_snippets_by_kind(snippets: Seq<RustSnippet>, x: RustSnippet)
    ensures
        rust_function_snippets(snippets).contains(x) <==> (snippets.contains(x) && x.snippet_type == RustSnippetType::Function),
{
    lemma_rust_function_snippets_contains(snippets, x);
}

} // verus!
