//! What the language analyzers do with what they found in a syntax tree:
//! the caller of each call, the class or namespace around each definition,
//! the functions of a file, and parameter lists.

pub mod common;
pub mod java;
pub mod python;
pub mod cpp;
pub mod rust;
pub mod javascript;
pub mod registry;

use vstd::prelude::*;
use crate::graph_types::{FunctionInfo, ClassInfo, CallRelation};
use crate::parser::AnalysisResult;
use crate::languages::{AnalyzerKind, LanguageId, ParserError, language_name, file_suffix, language_id_of_suffix, suffix_of, language_id_for_suffix};
use crate::text::string_push_str;

verus! {

/// The analysis result of a file from what its three extractions gave: the
/// first error among them, else their lists.
pub fn analysis_result_of(
    functions: Result<Vec<FunctionInfo>, String>,
    classes: Result<Vec<ClassInfo>, String>,
    call_relations: Result<Vec<CallRelation>, String>,
) -> (res: Result<AnalysisResult, String>)
    ensures
        match (functions, classes, call_relations) {
            (Ok(f), Ok(c), Ok(r)) => res == Ok::<AnalysisResult, String>(
                AnalysisResult { functions: f, classes: c, call_relations: r }),
            (Err(e), _, _) => res == Err::<AnalysisResult, String>(e),
            (Ok(_), Err(e), _) => res == Err::<AnalysisResult, String>(e),
            (Ok(_), Ok(_), Err(e)) => res == Err::<AnalysisResult, String>(e),
        },
{
    let functions = functions?;
    let classes = classes?;
    let call_relations = call_relations?;
    Ok(AnalysisResult { functions, classes, call_relations })
}

/// Which of the analyzers of this module serves a language: each language
/// with an analyzer here has its own, TypeScript-React is served by the
/// TypeScript analyzer, and Go has none.
pub open spec fn code_analyzer_choice(id: LanguageId) -> Result<AnalyzerKind, Seq<char>> {
    match id {
        LanguageId::Rust => Ok(AnalyzerKind::Rust),
        LanguageId::Python => Ok(AnalyzerKind::Python),
        LanguageId::Java => Ok(AnalyzerKind::Java),
        LanguageId::Cpp => Ok(AnalyzerKind::Cpp),
        LanguageId::TypeScript => Ok(AnalyzerKind::TypeScript),
        LanguageId::JavaScript => Ok(AnalyzerKind::JavaScript),
        LanguageId::TypeScriptReact => Ok(AnalyzerKind::TypeScript),
        LanguageId::Go => Err("Unsupported language id: "@ + language_name(id)),
    }
}

/// Chooses the analyzer of this module for a language (the analyzers'
/// constructors here cannot fail), or the error for a language without one.
pub fn get_code_analyzer(language_id: LanguageId) -> (res: Result<AnalyzerKind, ParserError>)
    ensures
        match (res, code_analyzer_choice(language_id)) {
            (Ok(k), Ok(c)) => k == c,
            (Err(e), Err(m)) => e.message@ == m,
            _ => false,
        },
{
    match language_id {
        LanguageId::Rust => Ok(AnalyzerKind::Rust),
        LanguageId::Python => Ok(AnalyzerKind::Python),
        LanguageId::Java => Ok(AnalyzerKind::Java),
        LanguageId::Cpp => Ok(AnalyzerKind::Cpp),
        LanguageId::TypeScript => Ok(AnalyzerKind::TypeScript),
        LanguageId::JavaScript => Ok(AnalyzerKind::JavaScript),
        LanguageId::TypeScriptReact => Ok(AnalyzerKind::TypeScript),
        LanguageId::Go => {
            let mut message = String::from_str("Unsupported language id: ");
            let name = language_id.name();
            string_push_str(&mut message, name.as_str());
            Err(ParserError { message })
        },
    }
}

/// The analyzer of this module for a file and the file's language, by the
/// file's extension; or why there is none: an extension no language has
/// (`not supported <suffix>`), or a language without analyzer here.
pub open spec fn code_parser_choice(filename: Seq<char>) -> Result<(AnalyzerKind, LanguageId), Seq<char>> {
    let suffix = file_suffix(filename);
    match language_id_of_suffix(suffix) {
        None => Err("not supported "@ + suffix),
        Some(id) => match code_analyzer_choice(id) {
            Ok(k) => Ok((k, id)),
            Err(m) => Err(m),
        },
    }
}

/// The analyzer of this module to use for a file, and the file's language.
pub fn get_ast_parser_by_filename(filename: &str) -> (res: Result<(AnalyzerKind, LanguageId), ParserError>)
    ensures
        match (res, code_parser_choice(filename@)) {
            (Ok(p), Ok(c)) => p == c,
            (Err(e), Err(m)) => e.message@ == m,
            _ => false,
        },
{
    let suffix = suffix_of(filename);
    match language_id_for_suffix(suffix.as_str()) {
        Some(language_id) => {
            match get_code_analyzer(language_id) {
                Ok(kind) => Ok((kind, language_id)),
                Err(e) => Err(e),
            }
        },
        None => {
            let mut message = String::from_str("not supported ");
            string_push_str(&mut message, suffix.as_str());
            Err(ParserError { message })
        },
    }
}

/// A language analyzer that can also give what it found in a file.
pub trait CodeAnalyzer {
    fn analyze_file(&mut self, path: &String) -> Result<(), String>;

    fn analyze_directory(&mut self, dir: &String) -> Result<(), String>;

    /// The functions, classes and calls found in a file.
    fn get_analysis_result(&self, path: &String) -> Result<AnalysisResult, String> {
        analysis_result_of(self.extract_functions(path), self.extract_classes(path), self.extract_call_relations(path))
    }

    /// The functions found in a file: none unless the analyzer says otherwise.
    fn extract_functions(&self, _path: &String) -> (res: Result<Vec<FunctionInfo>, String>)
        default_ensures
            res matches Ok(v) && v@.len() == 0,
    {
        Ok(Vec::new())
    }

    /// The classes found in a file: none unless the analyzer says otherwise.
    fn extract_classes(&self, _path: &String) -> (res: Result<Vec<ClassInfo>, String>)
        default_ensures
            res matches Ok(v) && v@.len() == 0,
    {
        Ok(Vec::new())
    }

    /// The calls found in a file: none unless the analyzer says otherwise.
    fn extract_call_relations(&self, _path: &String) -> (res: Result<Vec<CallRelation>, String>)
        default_ensures
            res matches Ok(v) && v@.len() == 0,
    {
        Ok(Vec::new())
    }
}

} // verus!
