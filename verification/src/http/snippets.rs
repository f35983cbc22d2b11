//! The computations behind the HTTP handlers: a project's identifier, the
//! lines of a function with their context, and a file's language.

use vstd::prelude::*;
use vstd::utf8::encode_utf8;
use crate::cha::types::views;
use crate::text::{joined, join_range, string_push, str_eq, to_lowercase, lowercase_of};
use crate::languages::{path_extension, path_extension_of};
use crate::http::call_graph::{CallGraphView, GraphEntry, GraphFunction};
use crate::http::models::{QueryCodeSnippetRequest, CodeSnippetResponse, CodeSkeletonResponse};
use crate::languages::{LanguageId, language_name};
use crate::http::tree::{name_pos, opt_text};

verus! {

/// The MD5 digest (RFC 1321) of a byte string.
pub uninterp spec fn md5_digest(data: Seq<u8>) -> Seq<u8>;

/// `md5::compute`: the digest of the bytes, as its 16 bytes.
#[verifier::external_body]
fn md5_compute(data: &[u8]) -> (res: Vec<u8>)
    ensures
        res@ == md5_digest(data@),
        res@.len() == 16,
{
    md5::compute(data).0.to_vec()
}

/// The lower-case hexadecimal digit of `d` (`d < 16`).
pub open spec fn hex_digit(d: nat) -> char {
    if d < 10 {
        crate::text::digit_char(d)
    } else if d == 10 { 'a' }
    else if d == 11 { 'b' }
    else if d == 12 { 'c' }
    else if d == 13 { 'd' }
    else if d == 14 { 'e' }
    else { 'f' }
}

/// Each byte as two lower-case hexadecimal digits, high digit first.
pub open spec fn hex_lower(bytes: Seq<u8>) -> Seq<char>
    decreases bytes.len(),
{
    if bytes.len() == 0 {
        Seq::empty()
    } else {
        let b = bytes.last();
        hex_lower(bytes.drop_last()).push(hex_digit((b / 16) as nat)).push(hex_digit((b % 16) as nat))
    }
}

fn hex_digit_of(d: u8) -> (c: char)
    requires
        d < 16,
    ensures
        c == hex_digit(d as nat),
{
    if d == 0 { '0' }
    else if d == 1 { '1' }
    else if d == 2 { '2' }
    else if d == 3 { '3' }
    else if d == 4 { '4' }
    else if d == 5 { '5' }
    else if d == 6 { '6' }
    else if d == 7 { '7' }
    else if d == 8 { '8' }
    else if d == 9 { '9' }
    else if d == 10 { 'a' }
    else if d == 11 { 'b' }
    else if d == 12 { 'c' }
    else if d == 13 { 'd' }
    else if d == 14 { 'e' }
    else { 'f' }
}

/// The bytes in lower-case hexadecimal, two digits each.
pub fn to_hex_lower(bytes: &Vec<u8>) -> (res: String)
    ensures
        res@ == hex_lower(bytes@),
        res@.len() == 2 * bytes@.len(),
{
    let mut res = String::new();
    let mut i: usize = 0;
    while i < bytes.len()
        invariant
            i <= bytes.len(),
            res@ == hex_lower(bytes@.subrange(0, i as int)),
            res@.len() == 2 * i,
        decreases bytes.len() - i,
    {
        let b = bytes[i];
        string_push(&mut res, hex_digit_of(b / 16));
        string_push(&mut res, hex_digit_of(b % 16));
        proof {
            let s = bytes@.subrange(0, i + 1);
            assert(s.drop_last() =~= bytes@.subrange(0, i as int));
            assert(s.last() == b);
        }
        i = i + 1;
    }
    proof { assert(bytes@.subrange(0, bytes.len() as int) =~= bytes@); }
    res
}

/// The identifier of a project: the MD5 digest of its directory path (as
/// UTF-8), in lower-case hexadecimal.
pub open spec fn project_id_of(project_dir: Seq<char>) -> Seq<char> {
    hex_lower(md5_digest(encode_utf8(project_dir)))
}

/// The identifier of a project directory: 32 lower-case hexadecimal digits.
pub fn project_id(project_dir: &str) -> (res: String)
    ensures
        res@ == project_id_of(project_dir@),
        res@.len() == 32,
{
    let bytes = project_dir.as_bytes_vec();
    let digest = md5_compute(bytes.as_slice());
    to_hex_lower(&digest)
}

/// The lines to show for a function at `line_start..line_end` of a text of
/// `n_lines` lines: with `context_lines` more on each side (kept within the
/// text), or just the function's.
pub open spec fn snippet_range(line_start: nat, line_end: nat, n_lines: nat, include_context: bool, context_lines: nat) -> (nat, nat) {
    if include_context {
        let start = if line_start >= context_lines { (line_start - context_lines) as nat } else { 0nat };
        let end = if line_end + context_lines <= n_lines { line_end + context_lines } else { n_lines };
        (start, end)
    } else {
        (line_start, line_end)
    }
}

/// The text shown for a function at `line_start..line_end` (line indices)
/// of `lines`: the lines of its range with context, joined with line feeds;
/// where that range is empty or leaves the text, the function's own lines;
/// where those leave the text too, a note that the function was not found.
pub open spec fn snippet_text(lines: Seq<Seq<char>>, line_start: nat, line_end: nat, include_context: bool, context_lines: nat) -> Seq<char> {
    let (s, e) = snippet_range(line_start, line_end, lines.len(), include_context, context_lines);
    if s < lines.len() && e <= lines.len() && s < e {
        joined(lines.subrange(s as int, e as int), "\n"@)
    } else if line_start < lines.len() && line_end <= lines.len() {
        joined(lines.subrange(line_start as int, line_end as int), "\n"@)
    } else {
        "// Function not found in file"@
    }
}

/// The inputs on which the snippet can be cut: the context end does not
/// overflow, and where the function's own lines are used, their range is not
/// reversed.
pub open spec fn snippet_defined(n_lines: nat, line_start: nat, line_end: nat, include_context: bool, context_lines: nat) -> bool {
    let (s, e) = snippet_range(line_start, line_end, n_lines, include_context, context_lines);
    &&& (include_context ==> line_end + context_lines <= usize::MAX)
    &&& ((s < n_lines && e <= n_lines && s < e) || !(line_start < n_lines && line_end <= n_lines) || line_start <= line_end)
}

/// The code shown for a function: its lines `line_start..line_end` of the
/// file's `lines`, with `context_lines` (3 by default) on each side when
/// `include_context` (the default), joined with line feeds.
pub fn code_snippet(
    lines: &Vec<String>,
    line_start: usize,
    line_end: usize,
    include_context: Option<bool>,
    context_lines: Option<usize>,
) -> (res: String)
    requires
        snippet_defined(
            lines@.len(),
            line_start as nat,
            line_end as nat,
            match include_context { Some(b) => b, None => true },
            match context_lines { Some(c) => c as nat, None => 3 },
        ),
    ensures
        res@ == snippet_text(
            views(lines@),
            line_start as nat,
            line_end as nat,
            match include_context { Some(b) => b, None => true },
            match context_lines { Some(c) => c as nat, None => 3 },
        ),
{
    let context_lines: usize = match context_lines { Some(c) => c, None => 3 };
    let include_context: bool = match include_context { Some(b) => b, None => true };
    let n = lines.len();
    let (s, e) = if include_context {
        let start = if line_start >= context_lines { line_start - context_lines } else { 0 };
        let end = if line_end + context_lines <= n { line_end + context_lines } else { n };
        (start, end)
    } else {
        (line_start, line_end)
    };
    if s < n && e <= n && s < e {
        join_range(lines, s, e, "\n")
    } else if line_start < n && line_end <= n {
        join_range(lines, line_start, line_end, "\n")
    } else {
        String::from_str("// Function not found in file")
    }
}

/// The language reported for a (lower-cased) file extension.
pub open spec fn snippet_language_of_suffix(s: Seq<char>) -> Seq<char> {
    if s == "rs"@ { "rust"@ }
    else if s == "py"@ { "python"@ }
    else if s == "js"@ { "javascript"@ }
    else if s == "ts"@ { "typescript"@ }
    else if s == "java"@ { "java"@ }
    else if s == "cpp"@ || s == "cc"@ || s == "cxx"@ { "cpp"@ }
    else if s == "c"@ { "c"@ }
    else if s == "go"@ { "go"@ }
    else if s == "php"@ { "php"@ }
    else if s == "rb"@ { "ruby"@ }
    else if s == "swift"@ { "swift"@ }
    else if s == "kt"@ { "kotlin"@ }
    else if s == "scala"@ { "scala"@ }
    else if s == "cs"@ { "csharp"@ }
    else { "unknown"@ }
}

/// The language reported for a (lower-cased) file extension.
pub fn snippet_language_for_suffix(suffix: &str) -> (res: String)
    ensures
        res@ == snippet_language_of_suffix(suffix@),
{
    let s = String::from_str(suffix);
    if str_eq(&s, "rs") { String::from_str("rust") }
    else if str_eq(&s, "py") { String::from_str("python") }
    else if str_eq(&s, "js") { String::from_str("javascript") }
    else if str_eq(&s, "ts") { String::from_str("typescript") }
    else if str_eq(&s, "java") { String::from_str("java") }
    else if str_eq(&s, "cpp") || str_eq(&s, "cc") || str_eq(&s, "cxx") { String::from_str("cpp") }
    else if str_eq(&s, "c") { String::from_str("c") }
    else if str_eq(&s, "go") { String::from_str("go") }
    else if str_eq(&s, "php") { String::from_str("php") }
    else if str_eq(&s, "rb") { String::from_str("ruby") }
    else if str_eq(&s, "swift") { String::from_str("swift") }
    else if str_eq(&s, "kt") { String::from_str("kotlin") }
    else if str_eq(&s, "scala") { String::from_str("scala") }
    else if str_eq(&s, "cs") { String::from_str("csharp") }
    else { String::from_str("unknown") }
}

/// The language reported for a file: by its lower-cased extension,
/// `unknown` when it has none.
pub open spec fn snippet_language_of_file(path: Seq<char>) -> Seq<char> {
    match path_extension_of(path) {
        Some(e) => snippet_language_of_suffix(lowercase_of(e)),
        None => "unknown"@,
    }
}

/// The language reported for a file.
pub fn snippet_language(file_path: &str) -> (res: String)
    ensures
        res@ == snippet_language_of_file(file_path@),
{
    match path_extension(file_path) {
        Some(e) => {
            let suffix = to_lowercase(e.as_str());
            snippet_language_for_suffix(suffix.as_str())
        },
        None => String::from_str("unknown"),
    }
}

/// The position of the graph's first function in the file `path`, or -1.
pub open spec fn file_pos(es: Seq<GraphEntry>, path: Seq<char>) -> int
    decreases es.len(),
{
    if es.len() == 0 {
        -1
    } else if es[0].function.file_path@ == path {
        0
    } else {
        let r = file_pos(es.drop_first(), path);
        if r < 0 { -1 } else { r + 1 }
    }
}

proof fn lemma_file_pos(es: Seq<GraphEntry>, path: Seq<char>)
    ensures
        -1 <= file_pos(es, path) < es.len(),
        file_pos(es, path) >= 0 ==> es[file_pos(es, path)].function.file_path@ == path,
        forall|j: int| 0 <= j < es.len() && (file_pos(es, path) < 0 || j < file_pos(es, path))
            ==> #[trigger] es[j].function.file_path@ != path,
    decreases es.len(),
{
    if es.len() > 0 {
        lemma_file_pos(es.drop_first(), path);
        assert forall|j: int| 0 <= j < es.len() && (file_pos(es, path) < 0 || j < file_pos(es, path))
            implies #[trigger] es[j].function.file_path@ != path by {
            if j > 0 {
                assert(es[j] == es.drop_first()[j - 1]);
            }
        }
    }
}

/// The position of the function whose code is asked for: the graph's first
/// function of the given name, or without a name the first of the file; -1
/// when there is none.
pub open spec fn snippet_target_pos(es: Seq<GraphEntry>, filepath: Seq<char>, function_name: Option<Seq<char>>) -> int {
    match function_name {
        Some(n) => name_pos(es, n),
        None => file_pos(es, filepath),
    }
}

/// The function whose code is asked for; none when the graph has no such
/// function.
pub fn snippet_target<'a>(graph: &'a CallGraphView, request: &QueryCodeSnippetRequest) -> (res: Option<&'a GraphFunction>)
    ensures
        match res {
            Some(f) => {
                let p = snippet_target_pos(graph.entries@, request.filepath@,
                    opt_text(request.function_name));
                p >= 0 && *f == graph.entries@[p].function
            },
            None => snippet_target_pos(graph.entries@, request.filepath@,
                opt_text(request.function_name)) < 0,
        },
{
    let ghost es = graph.entries@;
    let ghost name = opt_text(request.function_name);
    proof {
        crate::http::tree::lemma_name_pos(es, match name { Some(n) => n, None => Seq::empty() });
        lemma_file_pos(es, request.filepath@);
    }
    let mut i: usize = 0;
    while i < graph.entries.len()
        invariant
            i <= es.len(),
            es == graph.entries@,
            name == opt_text(request.function_name),
            forall|j: int| 0 <= j < i ==> match name {
                Some(n) => (#[trigger] es[j]).function.name@ != n,
                None => es[j].function.file_path@ != request.filepath@,
            },
            -1 <= snippet_target_pos(es, request.filepath@, name) < es.len(),
            snippet_target_pos(es, request.filepath@, name) >= 0 ==> match name {
                Some(n) => es[snippet_target_pos(es, request.filepath@, name)].function.name@ == n,
                None => es[snippet_target_pos(es, request.filepath@, name)].function.file_path@ == request.filepath@,
            },
            forall|j: int| 0 <= j < es.len() && (snippet_target_pos(es, request.filepath@, name) < 0
                || j < snippet_target_pos(es, request.filepath@, name)) ==> match name {
                Some(n) => (#[trigger] es[j]).function.name@ != n,
                None => es[j].function.file_path@ != request.filepath@,
            },
        decreases es.len() - i,
    {
        let f = &graph.entries[i].function;
        let found = match &request.function_name {
            Some(n) => f.name == *n,
            None => f.file_path == request.filepath,
        };
        if found {
            assert(snippet_target_pos(es, request.filepath@, name) == i as int) by {
                let p = snippet_target_pos(es, request.filepath@, name);
                if p < 0 || p > i as int {
                    assert(match name {
                        Some(n) => es[i as int].function.name@ != n,
                        None => es[i as int].function.file_path@ != request.filepath@,
                    });
                } else if p < i as int {
                    assert(match name {
                        Some(n) => es[p].function.name@ != n,
                        None => es[p].function.file_path@ != request.filepath@,
                    });
                }
            }
            return Some(f);
        }
        i = i + 1;
    }
    None
}

/// Answers a request for a function's code from the function found for it
/// and the lines of its file: the code with context (see `snippet_text`),
/// the function's name, file and lines, and the file's language.
pub fn query_code_snippet(target: &GraphFunction, lines: &Vec<String>, request: &QueryCodeSnippetRequest)
    -> (res: CodeSnippetResponse)
    requires
        snippet_defined(
            lines@.len(),
            target.line_start as nat,
            target.line_end as nat,
            match request.include_context { Some(b) => b, None => true },
            match request.context_lines { Some(c) => c as nat, None => 3 },
        ),
    ensures
        res.filepath@ == target.file_path@,
        res.function_name matches Some(n) && n@ == target.name@,
        res.code_snippet@ == snippet_text(
            views(lines@),
            target.line_start as nat,
            target.line_end as nat,
            match request.include_context { Some(b) => b, None => true },
            match request.context_lines { Some(c) => c as nat, None => 3 },
        ),
        res.line_start == target.line_start,
        res.line_end == target.line_end,
        res.language@ == snippet_language_of_file(target.file_path@),
{
    CodeSnippetResponse {
        filepath: target.file_path.clone(),
        function_name: Some(target.name.clone()),
        code_snippet: code_snippet(lines, target.line_start, target.line_end, request.include_context, request.context_lines),
        line_start: target.line_start,
        line_end: target.line_end,
        language: snippet_language(target.file_path.as_str()),
    }
}

/// The outline of a file from the outlines of its top-level structs and
/// functions: them, a blank line between each two, and the file's language.
pub fn code_skeleton(filepath: String, language: LanguageId, skeleton_lines: &Vec<String>) -> (res: CodeSkeletonResponse)
    ensures
        res.filepath == filepath,
        res.language@ == language_name(language),
        res.skeleton_text@ == joined(views(skeleton_lines@), "\n\n"@),
{
    let n = skeleton_lines.len();
    let skeleton_text = join_range(skeleton_lines, 0, n, "\n\n");
    assert(views(skeleton_lines@).subrange(0, n as int) =~= views(skeleton_lines@));
    CodeSkeletonResponse { filepath, language: language.name(), skeleton_text }
}

} // verus!
