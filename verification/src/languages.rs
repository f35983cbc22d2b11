//! Which language a source file is written in, decided by its extension, and
//! which analyzer handles it.

use vstd::prelude::*;
use crate::text::{str_eq, to_lowercase, lowercase_of, string_push_str};

verus! {

/// The languages the analyzers know.
#[derive(Debug, Clone, Copy, PartialEq, Eq, Structural)]
pub enum LanguageId {
    Cpp,
    Go,
    Java,
    JavaScript,
    Python,
    Rust,
    TypeScript,
    TypeScriptReact,
}

/// A parser or analyzer could not be had for a file.
#[derive(Debug, Clone)]
pub struct ParserError {
    pub message: String,
}

/// A language analyzer: analyses one file or a whole directory. What an
/// analysis of a path comes to is the analyzer's own business. An analyzer
/// that states it names it with `file_outcome` and `dir_outcome` and sets
/// `states_outcomes`; by default nothing is stated of the results.
pub trait CodeAnalyzer {
    /// Whether `file_outcome` and `dir_outcome` say what the analyses give.
    open spec fn states_outcomes(&self) -> bool {
        false
    }

    /// What analysing the file at `path` gives: success, or the error's text.
    open spec fn file_outcome(&self, path: Seq<char>) -> Result<(), Seq<char>> {
        Ok(())
    }

    /// What analysing the directory at `path` gives: success, or the error's text.
    open spec fn dir_outcome(&self, path: Seq<char>) -> Result<(), Seq<char>> {
        Ok(())
    }

    fn analyze_file(&mut self, path: &String) -> (res: Result<(), String>)
        ensures
            old(self).states_outcomes() ==> match (res, old(self).file_outcome(path@)) {
                (Ok(()), Ok(())) => true,
                (Err(e), Err(m)) => e@ == m,
                _ => false,
            };

    fn analyze_directory(&mut self, dir: &String) -> (res: Result<(), String>)
        ensures
            old(self).states_outcomes() ==> match (res, old(self).dir_outcome(dir@)) {
                (Ok(()), Ok(())) => true,
                (Err(e), Err(m)) => e@ == m,
                _ => false,
            };
}

/// What `Path::extension` gives for a path: the part of the file name after
/// its last dot, if it has one that does not begin the name.
pub uninterp spec fn path_extension_of(path: Seq<char>) -> Option<Seq<char>>;

/// `Path::extension` on the path, as a string.
#[verifier::external_body]
pub(crate) fn path_extension(path: &str) -> (res: Option<String>)
    ensures
        match res {
            Some(e) => path_extension_of(path@) == Some(e@),
            None => path_extension_of(path@) is None,
        },
{
    match std::path::Path::new(path).extension() {
        Some(e) => match e.to_str() {
            Some(s) => Some(s.to_string()),
            None => None,
        },
        None => None,
    }
}

/// What `Path::file_name` gives for a path: its last component, unless that
/// is `..`.
pub uninterp spec fn path_file_name_of(path: Seq<char>) -> Option<Seq<char>>;

/// `Path::file_name` on the path, as a string.
#[verifier::external_body]
pub(crate) fn path_file_name(path: &str) -> (res: Option<String>)
    ensures
        match res {
            Some(n) => path_file_name_of(path@) == Some(n@),
            None => path_file_name_of(path@) is None,
        },
{
    match std::path::Path::new(path).file_name() {
        Some(n) => match n.to_str() {
            Some(s) => Some(s.to_string()),
            None => None,
        },
        None => None,
    }
}

/// The lower-cased extension of a file name, empty when it has none.
pub open spec fn file_suffix(filename: Seq<char>) -> Seq<char> {
    match path_extension_of(filename) {
        Some(e) => lowercase_of(e),
        None => Seq::empty(),
    }
}

/// The lower-cased extension of a file name, empty when it has none.
pub fn suffix_of(filename: &str) -> (res: String)
    ensures
        res@ == file_suffix(filename@),
{
    match path_extension(filename) {
        Some(e) => to_lowercase(e.as_str()),
        None => String::new(),
    }
}

/// A C or C++ source or header suffix.
pub open spec fn is_cpp_suffix(s: Seq<char>) -> bool {
    ||| s == "cpp"@ ||| s == "cc"@ ||| s == "cxx"@ ||| s == "c++"@ ||| s == "c"@
    ||| s == "h"@ ||| s == "hpp"@ ||| s == "hxx"@ ||| s == "hh"@
}

/// A C++ template or inline-include suffix.
pub open spec fn is_cpp_include_suffix(s: Seq<char>) -> bool {
    ||| s == "inl"@ ||| s == "inc"@ ||| s == "tpp"@ ||| s == "tpl"@
}

/// A Python suffix.
pub open spec fn is_python_suffix(s: Seq<char>) -> bool {
    s == "py"@ || s == "py3"@ || s == "pyx"@
}

/// A JavaScript suffix.
pub open spec fn is_javascript_suffix(s: Seq<char>) -> bool {
    s == "js"@ || s == "jsx"@
}

/// A TypeScript suffix.
pub open spec fn is_typescript_suffix(s: Seq<char>) -> bool {
    s == "ts"@ || s == "tsx"@
}

/// The language of a (lower-cased) suffix.
pub open spec fn language_id_of_suffix(s: Seq<char>) -> Option<LanguageId> {
    if is_cpp_suffix(s) || is_cpp_include_suffix(s) {
        Some(LanguageId::Cpp)
    } else if is_python_suffix(s) {
        Some(LanguageId::Python)
    } else if s == "java"@ {
        Some(LanguageId::Java)
    } else if is_javascript_suffix(s) {
        Some(LanguageId::JavaScript)
    } else if s == "rs"@ {
        Some(LanguageId::Rust)
    } else if is_typescript_suffix(s) {
        Some(LanguageId::TypeScript)
    } else if s == "go"@ {
        Some(LanguageId::Go)
    } else {
        None
    }
}

/// The suffix table: each listed extension names its language (C and C++
/// sources and headers, their include and template files, Python, Java,
/// JavaScript, Rust, TypeScript and Go), and no other extension names any.
pub proof fn law_suffix_table(s: Seq<char>)
    ensures
        (s == "cpp"@ || s == "cc"@ || s == "cxx"@ || s == "c++"@ || s == "c"@ || s == "h"@ || s == "hpp"@ || s == "hxx"@ || s == "hh"@ || s == "inl"@ || s == "inc"@ || s == "tpp"@ || s == "tpl"@) ==> language_id_of_suffix(s) == Some(LanguageId::Cpp),
        (s == "py"@ || s == "py3"@ || s == "pyx"@) ==> language_id_of_suffix(s) == Some(LanguageId::Python),
        s == "java"@ ==> language_id_of_suffix(s) == Some(LanguageId::Java),
        (s == "js"@ || s == "jsx"@) ==> language_id_of_suffix(s) == Some(LanguageId::JavaScript),
        s == "rs"@ ==> language_id_of_suffix(s) == Some(LanguageId::Rust),
        (s == "ts"@ || s == "tsx"@) ==> language_id_of_suffix(s) == Some(LanguageId::TypeScript),
        s == "go"@ ==> language_id_of_suffix(s) == Some(LanguageId::Go),
        language_id_of_suffix(s) is Some ==> (s == "cpp"@ || s == "cc"@ || s == "cxx"@ || s == "c++"@ || s == "c"@ || s == "h"@ || s == "hpp"@ || s == "hxx"@ || s == "hh"@ || s == "inl"@ || s == "inc"@ || s == "tpp"@ || s == "tpl"@ || s == "py"@ || s == "py3"@ || s == "pyx"@ || s == "java"@ || s == "js"@ || s == "jsx"@ || s == "rs"@ || s == "ts"@ || s == "tsx"@ || s == "go"@),
{
    reveal_strlit("cpp");
    assert("cpp"@ =~= seq!['c', 'p', 'p']);
    reveal_strlit("cc");
    assert("cc"@ =~= seq!['c', 'c']);
    reveal_strlit("cxx");
    assert("cxx"@ =~= seq!['c', 'x', 'x']);
    reveal_strlit("c++");
    assert("c++"@ =~= seq!['c', '+', '+']);
    reveal_strlit("c");
    assert("c"@ =~= seq!['c']);
    reveal_strlit("h");
    assert("h"@ =~= seq!['h']);
    reveal_strlit("hpp");
    assert("hpp"@ =~= seq!['h', 'p', 'p']);
    reveal_strlit("hxx");
    assert("hxx"@ =~= seq!['h', 'x', 'x']);
    reveal_strlit("hh");
    assert("hh"@ =~= seq!['h', 'h']);
    reveal_strlit("inl");
    assert("inl"@ =~= seq!['i', 'n', 'l']);
    reveal_strlit("inc");
    assert("inc"@ =~= seq!['i', 'n', 'c']);
    reveal_strlit("tpp");
    assert("tpp"@ =~= seq!['t', 'p', 'p']);
    reveal_strlit("tpl");
    assert("tpl"@ =~= seq!['t', 'p', 'l']);
    reveal_strlit("py");
    assert("py"@ =~= seq!['p', 'y']);
    reveal_strlit("py3");
    assert("py3"@ =~= seq!['p', 'y', '3']);
    reveal_strlit("pyx");
    assert("pyx"@ =~= seq!['p', 'y', 'x']);
    reveal_strlit("java");
    assert("java"@ =~= seq!['j', 'a', 'v', 'a']);
    reveal_strlit("js");
    assert("js"@ =~= seq!['j', 's']);
    reveal_strlit("jsx");
    assert("jsx"@ =~= seq!['j', 's', 'x']);
    reveal_strlit("rs");
    assert("rs"@ =~= seq!['r', 's']);
    reveal_strlit("ts");
    assert("ts"@ =~= seq!['t', 's']);
    reveal_strlit("tsx");
    assert("tsx"@ =~= seq!['t', 's', 'x']);
    reveal_strlit("go");
    assert("go"@ =~= seq!['g', 'o']);
}

/// The language key of a (lower-cased) suffix: C++ includes and templates
/// (`inl`, `inc`, `tpp`, `tpl`) have none.
pub open spec fn language_key_of_suffix(s: Seq<char>) -> Seq<char> {
    if s == "rs"@ {
        "rust"@
    } else if is_python_suffix(s) {
        "python"@
    } else if is_javascript_suffix(s) {
        "javascript"@
    } else if is_typescript_suffix(s) {
        "typescript"@
    } else if s == "java"@ {
        "java"@
    } else if is_cpp_suffix(s) {
        "cpp"@
    } else {
        "unknown"@
    }
}

/// The language keys: each listed extension gives its language's key, and
/// every other extension (C++ include and template files among them) gives
/// `unknown`.
pub proof fn law_language_key_table(s: Seq<char>)
    ensures
        (s == "cpp"@ || s == "cc"@ || s == "cxx"@ || s == "c++"@ || s == "c"@ || s == "h"@ || s == "hpp"@ || s == "hxx"@ || s == "hh"@) ==> language_key_of_suffix(s) == "cpp"@,
        (s == "py"@ || s == "py3"@ || s == "pyx"@) ==> language_key_of_suffix(s) == "python"@,
        s == "java"@ ==> language_key_of_suffix(s) == "java"@,
        (s == "js"@ || s == "jsx"@) ==> language_key_of_suffix(s) == "javascript"@,
        s == "rs"@ ==> language_key_of_suffix(s) == "rust"@,
        (s == "ts"@ || s == "tsx"@) ==> language_key_of_suffix(s) == "typescript"@,
        !(s == "cpp"@ || s == "cc"@ || s == "cxx"@ || s == "c++"@ || s == "c"@ || s == "h"@ || s == "hpp"@ || s == "hxx"@ || s == "hh"@ || s == "py"@ || s == "py3"@ || s == "pyx"@ || s == "java"@ || s == "js"@ || s == "jsx"@ || s == "rs"@ || s == "ts"@ || s == "tsx"@) ==> language_key_of_suffix(s) == "unknown"@,
{
    reveal_strlit("cpp");
    assert("cpp"@ =~= seq!['c', 'p', 'p']);
    reveal_strlit("cc");
    assert("cc"@ =~= seq!['c', 'c']);
    reveal_strlit("cxx");
    assert("cxx"@ =~= seq!['c', 'x', 'x']);
    reveal_strlit("c++");
    assert("c++"@ =~= seq!['c', '+', '+']);
    reveal_strlit("c");
    assert("c"@ =~= seq!['c']);
    reveal_strlit("h");
    assert("h"@ =~= seq!['h']);
    reveal_strlit("hpp");
    assert("hpp"@ =~= seq!['h', 'p', 'p']);
    reveal_strlit("hxx");
    assert("hxx"@ =~= seq!['h', 'x', 'x']);
    reveal_strlit("hh");
    assert("hh"@ =~= seq!['h', 'h']);
    reveal_strlit("py");
    assert("py"@ =~= seq!['p', 'y']);
    reveal_strlit("py3");
    assert("py3"@ =~= seq!['p', 'y', '3']);
    reveal_strlit("pyx");
    assert("pyx"@ =~= seq!['p', 'y', 'x']);
    reveal_strlit("java");
    assert("java"@ =~= seq!['j', 'a', 'v', 'a']);
    reveal_strlit("js");
    assert("js"@ =~= seq!['j', 's']);
    reveal_strlit("jsx");
    assert("jsx"@ =~= seq!['j', 's', 'x']);
    reveal_strlit("rs");
    assert("rs"@ =~= seq!['r', 's']);
    reveal_strlit("ts");
    assert("ts"@ =~= seq!['t', 's']);
    reveal_strlit("tsx");
    assert("tsx"@ =~= seq!['t', 's', 'x']);
    reveal_strlit("rust");
    assert("rust"@ =~= seq!['r', 'u', 's', 't']);
    reveal_strlit("python");
    assert("python"@ =~= seq!['p', 'y', 't', 'h', 'o', 'n']);
    reveal_strlit("javascript");
    assert("javascript"@ =~= seq!['j', 'a', 'v', 'a', 's', 'c', 'r', 'i', 'p', 't']);
    reveal_strlit("typescript");
    assert("typescript"@ =~= seq!['t', 'y', 'p', 'e', 's', 'c', 'r', 'i', 'p', 't']);
    reveal_strlit("unknown");
    assert("unknown"@ =~= seq!['u', 'n', 'k', 'n', 'o', 'w', 'n']);
}

fn is_cpp_suffix_exec(s: &String) -> (res: bool)
    ensures
        res == is_cpp_suffix(s@),
{
    str_eq(s, "cpp") || str_eq(s, "cc") || str_eq(s, "cxx") || str_eq(s, "c++") || str_eq(s, "c")
        || str_eq(s, "h") || str_eq(s, "hpp") || str_eq(s, "hxx") || str_eq(s, "hh")
}

fn is_cpp_include_suffix_exec(s: &String) -> (res: bool)
    ensures
        res == is_cpp_include_suffix(s@),
{
    str_eq(s, "inl") || str_eq(s, "inc") || str_eq(s, "tpp") || str_eq(s, "tpl")
}

fn is_python_suffix_exec(s: &String) -> (res: bool)
    ensures
        res == is_python_suffix(s@),
{
    str_eq(s, "py") || str_eq(s, "py3") || str_eq(s, "pyx")
}

fn is_javascript_suffix_exec(s: &String) -> (res: bool)
    ensures
        res == is_javascript_suffix(s@),
{
    str_eq(s, "js") || str_eq(s, "jsx")
}

fn is_typescript_suffix_exec(s: &String) -> (res: bool)
    ensures
        res == is_typescript_suffix(s@),
{
    str_eq(s, "ts") || str_eq(s, "tsx")
}

/// The language of a (lower-cased) file suffix.
pub fn language_id_for_suffix(suffix: &str) -> (res: Option<LanguageId>)
    ensures
        res == language_id_of_suffix(suffix@),
{
    let s = String::from_str(suffix);
    if is_cpp_suffix_exec(&s) || is_cpp_include_suffix_exec(&s) {
        Some(LanguageId::Cpp)
    } else if is_python_suffix_exec(&s) {
        Some(LanguageId::Python)
    } else if str_eq(&s, "java") {
        Some(LanguageId::Java)
    } else if is_javascript_suffix_exec(&s) {
        Some(LanguageId::JavaScript)
    } else if str_eq(&s, "rs") {
        Some(LanguageId::Rust)
    } else if is_typescript_suffix_exec(&s) {
        Some(LanguageId::TypeScript)
    } else if str_eq(&s, "go") {
        Some(LanguageId::Go)
    } else {
        None
    }
}

/// The language key of a (lower-cased) file suffix.
pub fn language_key_for_suffix(suffix: &str) -> (res: String)
    ensures
        res@ == language_key_of_suffix(suffix@),
{
    let s = String::from_str(suffix);
    if str_eq(&s, "rs") {
        String::from_str("rust")
    } else if is_python_suffix_exec(&s) {
        String::from_str("python")
    } else if is_javascript_suffix_exec(&s) {
        String::from_str("javascript")
    } else if is_typescript_suffix_exec(&s) {
        String::from_str("typescript")
    } else if str_eq(&s, "java") {
        String::from_str("java")
    } else if is_cpp_suffix_exec(&s) {
        String::from_str("cpp")
    } else {
        String::from_str("unknown")
    }
}

/// The language of a file, by the lower-cased extension of its name.
pub fn get_language_id_by_filename(filename: &str) -> (res: Option<LanguageId>)
    ensures
        res == language_id_of_suffix(file_suffix(filename@)),
{
    let suffix = suffix_of(filename);
    language_id_for_suffix(suffix.as_str())
}

/// The name of a language, as the analyzers print it.
pub open spec fn language_name(id: LanguageId) -> Seq<char> {
    match id {
        LanguageId::Cpp => "cpp"@,
        LanguageId::Go => "go"@,
        LanguageId::Java => "java"@,
        LanguageId::JavaScript => "javascript"@,
        LanguageId::Python => "python"@,
        LanguageId::Rust => "rust"@,
        LanguageId::TypeScript => "typescript"@,
        LanguageId::TypeScriptReact => "typescriptreact"@,
    }
}

impl LanguageId {
    /// The name of the language.
    pub fn name(&self) -> (res: String)
        ensures
            res@ == language_name(*self),
    {
        match self {
            LanguageId::Cpp => String::from_str("cpp"),
            LanguageId::Go => String::from_str("go"),
            LanguageId::Java => String::from_str("java"),
            LanguageId::JavaScript => String::from_str("javascript"),
            LanguageId::Python => String::from_str("python"),
            LanguageId::Rust => String::from_str("rust"),
            LanguageId::TypeScript => String::from_str("typescript"),
            LanguageId::TypeScriptReact => String::from_str("typescriptreact"),
        }
    }
}

/// The analyzer that handles a language.
#[derive(Debug, Clone, Copy, PartialEq, Eq, Structural)]
pub enum AnalyzerKind {
    Rust,
    Python,
    Java,
    Cpp,
    TypeScript,
    JavaScript,
}

/// Which analyzer serves a language: Rust has none yet, Go is not supported,
/// and TypeScript-React is served by the TypeScript analyzer.
pub open spec fn analyzer_choice(id: LanguageId) -> Result<AnalyzerKind, Seq<char>> {
    match id {
        LanguageId::Rust => Err("Rust analyzer not yet implemented"@),
        LanguageId::Python => Ok(AnalyzerKind::Python),
        LanguageId::Java => Ok(AnalyzerKind::Java),
        LanguageId::Cpp => Ok(AnalyzerKind::Cpp),
        LanguageId::TypeScript => Ok(AnalyzerKind::TypeScript),
        LanguageId::JavaScript => Ok(AnalyzerKind::JavaScript),
        LanguageId::TypeScriptReact => Ok(AnalyzerKind::TypeScript),
        LanguageId::Go => Err("Unsupported language id: "@ + language_name(id)),
    }
}

/// Chooses the analyzer for a language, or the error that says why there is none.
pub fn get_code_analyzer(language_id: LanguageId) -> (res: Result<AnalyzerKind, ParserError>)
    ensures
        match (res, analyzer_choice(language_id)) {
            (Ok(k), Ok(c)) => k == c,
            (Err(e), Err(m)) => e.message@ == m,
            _ => false,
        },
{
    match language_id {
        LanguageId::Rust => Err(ParserError { message: String::from_str("Rust analyzer not yet implemented") }),
        LanguageId::Python => Ok(AnalyzerKind::Python),
        LanguageId::Java => Ok(AnalyzerKind::Java),
        LanguageId::Cpp => Ok(AnalyzerKind::Cpp),
        LanguageId::TypeScript => Ok(AnalyzerKind::TypeScript),
        LanguageId::JavaScript => Ok(AnalyzerKind::JavaScript),
        LanguageId::TypeScriptReact => Ok(AnalyzerKind::TypeScript),
        LanguageId::Go => {
            let mut message = String::from_str("Unsupported language id: ");
            let name = language_id.name();
            string_push_str(&mut message, name.as_str());
            Err(ParserError { message })
        },
    }
}

/// The analyzer for a file and its language, by the file's extension; or why
/// there is none: an extension no language has (`not supported <suffix>`), or
/// a language without analyzer.
pub open spec fn parser_choice(filename: Seq<char>) -> Result<(AnalyzerKind, LanguageId), Seq<char>> {
    let suffix = file_suffix(filename);
    match language_id_of_suffix(suffix) {
        None => Err("not supported "@ + suffix),
        Some(id) => match analyzer_choice(id) {
            Ok(k) => Ok((k, id)),
            Err(m) => Err(m),
        },
    }
}

/// The analyzer to use for a file, and the file's language.
pub fn get_ast_parser_by_filename(filename: &str) -> (res: Result<(AnalyzerKind, LanguageId), ParserError>)
    ensures
        match (res, parser_choice(filename@)) {
            (Ok(p), Ok(c)) => p == c,
            (Err(e), Err(m)) => e.message@ == m,
            _ => false,
        },
{
    let suffix = suffix_of(filename);
    match language_id_for_suffix(suffix.as_str()) {
        Some(language_id) => {
            match get_code_analyzer(language_id) {
                Ok(kind) => Ok((kind, language_id)),
                Err(e) => Err(e),
            }
        },
        None => {
            let mut message = String::from_str("not supported ");
            string_push_str(&mut message, suffix.as_str());
            Err(ParserError { message })
        },
    }
}


/// Parses and analyses source files with the analyzer of their language.
#[derive(Debug, Clone, Copy)]
pub struct TreeSitterParser;

/// The message of an analyzer failure on a path: `<what> <path>: <error>`.
pub open spec fn failure_message(what: Seq<char>, path: Seq<char>, error: Seq<char>) -> Seq<char> {
    what + path + ": "@ + error
}

impl TreeSitterParser {
    /// A parser.
    pub fn new() -> (res: Self) {
        TreeSitterParser
    }

    /// Analyses a file with `analyzer`, once an analyzer is found for the
    /// file's language; fails with the reason when none is, and with the
    /// analyzer's error, prefixed by the file, when it fails.
    pub fn analyze_file<A: CodeAnalyzer>(&self, file_path: &String, analyzer: &mut A) -> (res: Result<(), ParserError>)
        ensures
            parser_choice(file_path@) matches Err(m) ==> (res matches Err(e) && e.message@ == m),
            parser_choice(file_path@) is Ok && old(analyzer).states_outcomes() ==> match old(analyzer).file_outcome(file_path@) {
                Ok(()) => res is Ok,
                Err(m) => res matches Err(e) && e.message@ == failure_message("Failed to analyze file "@, file_path@, m),
            },
    {
        match get_ast_parser_by_filename(file_path.as_str()) {
            Err(e) => Err(e),
            Ok(_) => match analyzer.analyze_file(file_path) {
                Ok(()) => Ok(()),
                Err(e) => {
                    let mut message = String::from_str("Failed to analyze file ");
                    string_push_str(&mut message, file_path.as_str());
                    string_push_str(&mut message, ": ");
                    string_push_str(&mut message, e.as_str());
                    proof {
                        assert(message@ == failure_message("Failed to analyze file "@, file_path@, e@));
                    }
                    Err(ParserError { message })
                },
            },
        }
    }

    /// Analyses a directory with `analyzer`, once an analyzer is found for
    /// the path's language; fails with the reason when none is, and with the
    /// analyzer's error, prefixed by the directory, when it fails.
    pub fn analyze_directory<A: CodeAnalyzer>(&self, dir_path: &String, analyzer: &mut A) -> (res: Result<(), ParserError>)
        ensures
            parser_choice(dir_path@) matches Err(m) ==> (res matches Err(e) && e.message@ == m),
            parser_choice(dir_path@) is Ok && old(analyzer).states_outcomes() ==> match old(analyzer).dir_outcome(dir_path@) {
                Ok(()) => res is Ok,
                Err(m) => res matches Err(e) && e.message@ == failure_message("Failed to analyze directory "@, dir_path@, m),
            },
    {
        match get_ast_parser_by_filename(dir_path.as_str()) {
            Err(e) => Err(e),
            Ok(_) => match analyzer.analyze_directory(dir_path) {
                Ok(()) => Ok(()),
                Err(e) => {
                    let mut message = String::from_str("Failed to analyze directory ");
                    string_push_str(&mut message, dir_path.as_str());
                    string_push_str(&mut message, ": ");
                    string_push_str(&mut message, e.as_str());
                    proof {
                        assert(message@ == failure_message("Failed to analyze directory "@, dir_path@, e@));
                    }
                    Err(ParserError { message })
                },
            },
        }
    }
}

} // verus!
