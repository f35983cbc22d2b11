//! The code parser's bookkeeping: which files it handles, the language key of
//! each, the analysis results it keeps per file, and the source text of a
//! function's lines.

use vstd::prelude::*;
use crate::graph_types::{FunctionInfo, ClassInfo, CallRelation};
use crate::languages::{
    path_extension_of, language_id_of_suffix, language_key_of_suffix, language_id_for_suffix,
    language_key_for_suffix, LanguageId,
};
use crate::text::{lowercase_of, to_lowercase, joined, join_range, str_eq};
use crate::table::{lookup, entry_index, table_insert, table_keys, keys_put};
use crate::cha::types::views;

verus! {

/// What the analysis of one file found.
#[derive(Debug, Clone)]
pub struct AnalysisResult {
    pub functions: Vec<FunctionInfo>,
    pub classes: Vec<ClassInfo>,
    pub call_relations: Vec<CallRelation>,
}

impl Default for AnalysisResult {
    fn default() -> (res: Self)
        ensures
            res.functions@.len() == 0,
            res.classes@.len() == 0,
            res.call_relations@.len() == 0,
    {
        AnalysisResult { functions: Vec::new(), classes: Vec::new(), call_relations: Vec::new() }
    }
}

/// A file the parser handles: its extension, lower-cased, names a language
/// other than Go, which the parser leaves to the tree-sitter layer.
pub open spec fn supported_file(path: Seq<char>) -> bool {
    match path_extension_of(path) {
        Some(e) => language_id_of_suffix(lowercase_of(e)) matches Some(l) && l != LanguageId::Go,
        None => false,
    }
}

/// The language key of a file: by its lower-cased extension, `unknown` when
/// it has none or no language has it.
pub open spec fn language_key_of_file(path: Seq<char>) -> Seq<char> {
    match path_extension_of(path) {
        Some(e) => language_key_of_suffix(lowercase_of(e)),
        None => "unknown"@,
    }
}

/// A directory the scan skips: hidden, or a build or dependency directory.
pub open spec fn skipped_directory(name: Seq<char>) -> bool {
    ||| (name.len() > 0 && name[0] == '.')
    ||| name == "target"@
    ||| name == "node_modules"@
    ||| name == "__pycache__"@
}

/// The lines `start_line..=end_line` (counted from 1) of a text split in lines,
/// kept within the text, joined with line feeds; empty when no line remains.
pub open spec fn snippet_lines(lines: Seq<Seq<char>>, start_line: nat, end_line: nat) -> Seq<char> {
    let start = if start_line >= 1 { start_line } else { 1 };
    let end = if end_line >= start { end_line } else { start };
    let start_idx = if start - 1 <= lines.len() { (start - 1) as nat } else { lines.len() };
    let end_idx = if end <= lines.len() { end } else { lines.len() };
    if start_idx >= end_idx {
        Seq::empty()
    } else {
        joined(lines.subrange(start_idx as int, end_idx as int), "\n"@)
    }
}

/// Parses source files with the language analyzers and keeps their results,
/// one per file path.
pub struct CodeParser {
    /// File path and the analysis result for that file.
    pub analysis_cache: Vec<(String, AnalysisResult)>,
}

impl CodeParser {
    /// A parser with nothing analysed.
    pub fn new() -> (res: Self)
        ensures
            res.analysis_cache@.len() == 0,
    {
        CodeParser { analysis_cache: Vec::new() }
    }

    /// Whether the file is one the parser handles: its extension, lower-cased,
    /// names a language other than Go.
    pub fn is_supported_file(&self, path: &str) -> (res: bool)
        ensures
            res == supported_file(path@),
    {
        match crate::languages::path_extension(path) {
            Some(e) => {
                let suffix = to_lowercase(e.as_str());
                match language_id_for_suffix(suffix.as_str()) {
                    Some(LanguageId::Go) => false,
                    Some(_) => true,
                    None => false,
                }
            },
            None => false,
        }
    }

    /// The language key of a file: `rust`, `python`, `javascript`,
    /// `typescript`, `java`, `cpp`, or `unknown`.
    pub fn _detect_language_key(&self, file_path: &str) -> (res: String)
        ensures
            res@ == language_key_of_file(file_path@),
    {
        match crate::languages::path_extension(file_path) {
            Some(e) => {
                let suffix = to_lowercase(e.as_str());
                language_key_for_suffix(suffix.as_str())
            },
            None => String::from_str("unknown"),
        }
    }

    /// The lines `start_line..=end_line` (counted from 1) of `lines`, joined
    /// with line feeds; clipped to the text, empty when nothing remains.
    pub fn _extract_code_snippet(&self, lines: &Vec<String>, start_line: usize, end_line: usize) -> (res: String)
        ensures
            res@ == snippet_lines(views(lines@), start_line as nat, end_line as nat),
    {
        let start = if start_line >= 1 { start_line } else { 1 };
        let end = if end_line >= start { end_line } else { start };
        let start_idx = if start - 1 <= lines.len() { start - 1 } else { lines.len() };
        let end_idx = if end <= lines.len() { end } else { lines.len() };
        if start_idx >= end_idx {
            return String::new();
        }
        join_range(lines, start_idx, end_idx, "\n")
    }

    /// The analysis result kept for a file.
    pub fn get_file_analysis(&self, file_path: &str) -> (res: Option<&AnalysisResult>)
        ensures
            match res {
                Some(r) => lookup(self.analysis_cache@, file_path@) == Some(*r),
                None => lookup(self.analysis_cache@, file_path@) is None,
            },
    {
        let key = String::from_str(file_path);
        match entry_index(&self.analysis_cache, &key) {
            Some(i) => Some(&self.analysis_cache[i].1),
            None => None,
        }
    }

    /// Keeps the analysis result of a file, in place of any kept before.
    pub fn cache_analysis(&mut self, file_path: String, result: AnalysisResult)
        ensures
            lookup(final(self).analysis_cache@, file_path@) == Some(result),
            table_keys(final(self).analysis_cache@) == keys_put(table_keys(old(self).analysis_cache@), file_path@),
            forall|k: Seq<char>| k != file_path@
                ==> #[trigger] lookup(final(self).analysis_cache@, k) == lookup(old(self).analysis_cache@, k),
    {
        table_insert(&mut self.analysis_cache, file_path, result);
    }

    /// All analysis results kept.
    pub fn get_all_analysis_results(&self) -> (res: &Vec<(String, AnalysisResult)>)
        ensures
            res@ == self.analysis_cache@,
    {
        &self.analysis_cache
    }

    /// The function with the id `function_id` among the kept analysis
    /// results: the first in the first result that has one.
    pub fn _get_function_by_id(&self, function_id: u128) -> (res: Option<&FunctionInfo>)
        ensures
            match res {
                Some(f) => cached_function(self.analysis_cache@, function_id) == Some(*f),
                None => cached_function(self.analysis_cache@, function_id) is None,
            },
    {
        let ghost cache = self.analysis_cache@;
        assert(cache.subrange(0, cache.len() as int) =~= cache);
        let mut i: usize = 0;
        while i < self.analysis_cache.len()
            invariant
                i <= cache.len(),
                cache == self.analysis_cache@,
                cached_function(cache, function_id) == cached_function(cache.subrange(i as int, cache.len() as int), function_id),
            decreases cache.len() - i,
        {
            let functions = &self.analysis_cache[i].1.functions;
            let ghost rest = cache.subrange(i as int, cache.len() as int);
            assert(rest[0] == cache[i as int]);
            assert(rest.drop_first() =~= cache.subrange(i + 1, cache.len() as int));
            match crate::graph_types::function_position(functions, function_id) {
                Some(p) => {
                    return Some(&functions[p]);
                },
                None => {},
            }
            i = i + 1;
        }
        None
    }

    /// Forgets all analysis results.
    pub fn clear_cache(&mut self)
        ensures
            final(self).analysis_cache@.len() == 0,
    {
        self.analysis_cache.clear();
    }
}

/// The function with the id `id` among analysis results: the first in the
/// first result that has one.
pub open spec fn cached_function(cache: Seq<(String, AnalysisResult)>, id: u128) -> Option<FunctionInfo>
    decreases cache.len(),
{
    if cache.len() == 0 {
        None
    } else {
        let fs = cache[0].1.functions@;
        let p = crate::cha_simple::analysis::function_pos(fs, id);
        if p >= 0 { Some(fs[p]) } else { cached_function(cache.drop_first(), id) }
    }
}

impl Default for CodeParser {
    fn default() -> (res: Self)
        ensures
            res.analysis_cache@.len() == 0,
    {
        CodeParser::new()
    }
}

/// Whether a directory scan skips a directory of that name.
pub fn skips_directory(name: &str) -> (res: bool)
    ensures
        res == skipped_directory(name@),
{
    let n = String::from_str(name);
    let hidden = if name.unicode_len() > 0 { name.get_char(0) == '.' } else { false };
    hidden || str_eq(&n, "target") || str_eq(&n, "node_modules") || str_eq(&n, "__pycache__")
}

/// A file is supported exactly when a language other than Go is found for it
/// by name.
pub proof fn law_supported_iff_language(path: Seq<char>)
    ensures
        supported_file(path) <==> (crate::languages::language_id_of_suffix(crate::languages::file_suffix(path))
            matches Some(l) && l != LanguageId::Go),
{
    if path_extension_of(path) is None {
        let e = Seq::<char>::empty();
        reveal_strlit("cpp");
        assert(e != "cpp"@) by { assert("cpp"@.len() > 0); }
        reveal_strlit("cc");
        assert(e != "cc"@) by { assert("cc"@.len() > 0); }
        reveal_strlit("cxx");
        assert(e != "cxx"@) by { assert("cxx"@.len() > 0); }
        reveal_strlit("c++");
        assert(e != "c++"@) by { assert("c++"@.len() > 0); }
        reveal_strlit("c");
        assert(e != "c"@) by { assert("c"@.len() > 0); }
        reveal_strlit("h");
        assert(e != "h"@) by { assert("h"@.len() > 0); }
        reveal_strlit("hpp");
        assert(e != "hpp"@) by { assert("hpp"@.len() > 0); }
        reveal_strlit("hxx");
        assert(e != "hxx"@) by { assert("hxx"@.len() > 0); }
        reveal_strlit("hh");
        assert(e != "hh"@) by { assert("hh"@.len() > 0); }
        reveal_strlit("inl");
        assert(e != "inl"@) by { assert("inl"@.len() > 0); }
        reveal_strlit("inc");
        assert(e != "inc"@) by { assert("inc"@.len() > 0); }
        reveal_strlit("tpp");
        assert(e != "tpp"@) by { assert("tpp"@.len() > 0); }
        reveal_strlit("tpl");
        assert(e != "tpl"@) by { assert("tpl"@.len() > 0); }
        reveal_strlit("py");
        assert(e != "py"@) by { assert("py"@.len() > 0); }
        reveal_strlit("py3");
        assert(e != "py3"@) by { assert("py3"@.len() > 0); }
        reveal_strlit("pyx");
        assert(e != "pyx"@) by { assert("pyx"@.len() > 0); }
        reveal_strlit("java");
        assert(e != "java"@) by { assert("java"@.len() > 0); }
        reveal_strlit("js");
        assert(e != "js"@) by { assert("js"@.len() > 0); }
        reveal_strlit("jsx");
        assert(e != "jsx"@) by { assert("jsx"@.len() > 0); }
        reveal_strlit("rs");
        assert(e != "rs"@) by { assert("rs"@.len() > 0); }
        reveal_strlit("ts");
        assert(e != "ts"@) by { assert("ts"@.len() > 0); }
        reveal_strlit("tsx");
        assert(e != "tsx"@) by { assert("tsx"@.len() > 0); }
        reveal_strlit("go");
        assert(e != "go"@) by { assert("go"@.len() > 0); }
        assert(crate::languages::language_id_of_suffix(e) is None);
    }
}

} // verus!
