//! The per-language parsers and analyzer adapters, and the options of a
//! directory analysis.

use vstd::prelude::*;
use crate::languages::{LanguageId, ParserError, get_language_id_by_filename, language_id_of_suffix, file_suffix};
use crate::text::{find_from, find_first, joined, join_range, split_parts, string_push_str};
use crate::analyzers::common::{trimmed_nonempty, trimmed_parts};
use crate::cha::types::views;

verus! {

/// The Rust parser (the Rust analyzer does the work).
pub struct RustParser;

impl RustParser {
    /// A parser; always succeeds.
    pub fn new() -> (res: Result<Self, ParserError>)
        ensures
            res is Ok,
    {
        Ok(RustParser)
    }
}

/// The JavaScript parser of the analyzers.
pub struct JavaScriptParser;

impl JavaScriptParser {
    /// A parser; always succeeds.
    pub fn new() -> (res: Result<Self, ParserError>)
        ensures
            res is Ok,
    {
        Ok(JavaScriptParser)
    }
}

/// The JavaScript parser of the syntax-tree parsers.
pub struct JSParser;

impl JSParser {
    /// A parser; always succeeds.
    pub fn new() -> (res: Result<Self, ParserError>)
        ensures
            res is Ok,
    {
        Ok(JSParser)
    }
}

/// The Python parser of the syntax-tree parsers.
pub struct PythonParser;

impl PythonParser {
    /// A parser; always succeeds.
    pub fn new() -> (res: Result<Self, ParserError>)
        ensures
            res is Ok,
    {
        Ok(PythonParser)
    }
}

/// Writes the outline of Python declarations.
pub struct PythonSkeletonFormatter;

impl PythonSkeletonFormatter {
    /// A formatter.
    pub fn new() -> (res: Self) {
        PythonSkeletonFormatter
    }
}

/// Writes the outline of Go declarations.
pub struct GoSkeletonFormatter;

/// The kinds of declaration an outline distinguishes.
#[derive(Debug, Clone, Copy, PartialEq, Eq, Structural)]
pub enum DeclarationKind {
    Struct,
    Function,
    Other,
}

/// Each line indented by two spaces.
pub open spec fn indented(lines: Seq<Seq<char>>) -> Seq<Seq<char>> {
    lines.map_values(|l: Seq<char>| "  "@ + l)
}

/// The outline lines of a struct's members: for each field declaration
/// (the members flagged `true`), its non-empty lines, trimmed and indented.
pub open spec fn member_lines(members: Seq<(bool, String)>) -> Seq<Seq<char>>
    decreases members.len(),
{
    if members.len() == 0 {
        Seq::empty()
    } else {
        let rest = member_lines(members.drop_last());
        let m = members.last();
        if m.0 { rest + indented(trimmed_nonempty(split_parts(m.1@, "\n"@))) } else { rest }
    }
}

/// The outline of a Go declaration: for a struct, `type <name> struct {`,
/// its fields' lines and `}`, one per line; nothing for anything else.
pub open spec fn go_skeleton(kind: DeclarationKind, name: Seq<char>, members: Seq<(bool, String)>) -> Seq<char> {
    if kind == DeclarationKind::Struct {
        joined(seq!["type "@ + name + " struct {"@] + member_lines(members) + seq!["}"@], "\n"@)
    } else {
        Seq::empty()
    }
}

impl GoSkeletonFormatter {
    /// The outline of a declaration of kind `kind` named `name`, whose
    /// members are given as (is a field declaration, declaration text).
    pub fn make_skeleton(&self, kind: DeclarationKind, name: &str, members: &Vec<(bool, String)>) -> (res: String)
        ensures
            res@ == go_skeleton(kind, name@, members@),
    {
        if kind != DeclarationKind::Struct {
            return String::new();
        }
        let mut first = String::from_str("type ");
        string_push_str(&mut first, name);
        string_push_str(&mut first, " struct {");
        let mut lines: Vec<String> = Vec::new();
        lines.push(first);
        let ghost head = views(lines@);
        let mut i: usize = 0;
        while i < members.len()
            invariant
                i <= members@.len(),
                views(lines@) == head + member_lines(members@.subrange(0, i as int)),
            decreases members@.len() - i,
        {
            proof {
                let sub = members@.subrange(0, i + 1);
                assert(sub.drop_last() =~= members@.subrange(0, i as int));
                assert(sub.last() == members@[i as int]);
            }
            if members[i].0 {
                proof { reveal_strlit("\n"); }
                let parts = trimmed_parts(members[i].1.as_str(), "\n");
                let ghost before = views(lines@);
                let mut k: usize = 0;
                while k < parts.len()
                    invariant
                        k <= parts@.len(),
                        views(lines@) == before + indented(views(parts@).subrange(0, k as int)),
                    decreases parts@.len() - k,
                {
                    let mut l = String::from_str("  ");
                    string_push_str(&mut l, parts[k].as_str());
                    let ghost prev = lines@;
                    lines.push(l);
                    proof {
                        assert(views(lines@) =~= views(prev).push(l@));
                        assert(views(parts@).subrange(0, k + 1) =~= views(parts@).subrange(0, k as int).push(parts@[k as int]@));
                        assert(indented(views(parts@).subrange(0, k + 1)) =~= indented(views(parts@).subrange(0, k as int)).push("  "@ + parts@[k as int]@));
                    }
                    k = k + 1;
                }
                proof {
                    assert(views(parts@).subrange(0, parts@.len() as int) =~= views(parts@));
                    assert(views(lines@) =~= head + member_lines(members@.subrange(0, i + 1)));
                }
            }
            i = i + 1;
        }
        assert(members@.subrange(0, members@.len() as int) =~= members@);
        let ghost body = views(lines@);
        lines.push(String::from_str("}"));
        assert(views(lines@) =~= body.push("}"@));
        let n = lines.len();
        let res = join_range(&lines, 0, n, "\n");
        proof {
            assert(views(lines@).subrange(0, n as int) =~= views(lines@));
            assert(views(lines@) =~= seq!["type "@ + name@ + " struct {"@] + member_lines(members@) + seq!["}"@]);
        }
        res
    }

    /// A declaration with its comments, as this outline gives it: no text,
    /// and the rows it spans: a function's rows, else its first row alone.
    pub fn get_declaration_with_comments(&self, kind: DeclarationKind, start_row: usize, end_row: usize)
        -> (res: (String, (usize, usize)))
        ensures
            res.0@.len() == 0,
            res.1 == (start_row, if kind == DeclarationKind::Function { end_row } else { start_row }),
    {
        match kind {
            DeclarationKind::Function => (String::new(), (start_row, end_row)),
            _ => (String::new(), (start_row, start_row)),
        }
    }
}

/// A source file read for analysis.
#[derive(Debug, Clone)]
pub struct ParsedUnit {
    pub file_path: String,
    pub language: LanguageId,
    pub content: String,
}

/// The options of a directory analysis.
#[derive(Debug, Clone)]
pub struct AnalyzeOptions {
    /// The languages to analyse; all supported ones when absent.
    pub languages: Option<Vec<LanguageId>>,
    pub max_workers: usize,
    pub include_tests: bool,
    pub follow_symlinks: bool,
    pub output_dir: String,
}

/// The Rust analyzer adapter.
pub struct RustLanguageAnalyzer;

impl RustLanguageAnalyzer {
    /// An adapter; always succeeds.
    pub fn new() -> (res: Result<Self, String>)
        ensures
            res is Ok,
    {
        Ok(RustLanguageAnalyzer)
    }

    /// The language it analyses.
    pub fn language(&self) -> (res: LanguageId)
        ensures
            res == LanguageId::Rust,
    {
        LanguageId::Rust
    }
}

/// The Java analyzer adapter.
pub struct JavaLanguageAnalyzer;

impl JavaLanguageAnalyzer {
    /// An adapter; always succeeds.
    pub fn new() -> (res: Result<Self, String>)
        ensures
            res is Ok,
    {
        Ok(JavaLanguageAnalyzer)
    }

    /// The language it analyses.
    pub fn language(&self) -> (res: LanguageId)
        ensures
            res == LanguageId::Java,
    {
        LanguageId::Java
    }
}

/// The Python analyzer adapter.
pub struct PythonLanguageAnalyzer;

impl PythonLanguageAnalyzer {
    /// An adapter; always succeeds.
    pub fn new() -> (res: Result<Self, String>)
        ensures
            res is Ok,
    {
        Ok(PythonLanguageAnalyzer)
    }

    /// The language it analyses.
    pub fn language(&self) -> (res: LanguageId)
        ensures
            res == LanguageId::Python,
    {
        LanguageId::Python
    }
}

/// The C++ analyzer adapter.
pub struct CppLanguageAnalyzer;

impl CppLanguageAnalyzer {
    /// An adapter; always succeeds.
    pub fn new() -> (res: Result<Self, String>)
        ensures
            res is Ok,
    {
        Ok(CppLanguageAnalyzer)
    }

    /// The language it analyses.
    pub fn language(&self) -> (res: LanguageId)
        ensures
            res == LanguageId::Cpp,
    {
        LanguageId::Cpp
    }
}

/// The TypeScript analyzer adapter.
pub struct TypeScriptLanguageAnalyzer;

impl TypeScriptLanguageAnalyzer {
    /// An adapter; always succeeds.
    pub fn new() -> (res: Result<Self, String>)
        ensures
            res is Ok,
    {
        Ok(TypeScriptLanguageAnalyzer)
    }

    /// The language it analyses.
    pub fn language(&self) -> (res: LanguageId)
        ensures
            res == LanguageId::TypeScript,
    {
        LanguageId::TypeScript
    }
}

/// The JavaScript analyzer adapter.
pub struct JavaScriptLanguageAnalyzer;

impl JavaScriptLanguageAnalyzer {
    /// An adapter; always succeeds.
    pub fn new() -> (res: Result<Self, String>)
        ensures
            res is Ok,
    {
        Ok(JavaScriptLanguageAnalyzer)
    }

    /// The language it analyses.
    pub fn language(&self) -> (res: LanguageId)
        ensures
            res == LanguageId::JavaScript,
    {
        LanguageId::JavaScript
    }
}

/// One of the language analyzer adapters.
pub enum LanguageAnalyzer {
    Rust(RustLanguageAnalyzer),
    Java(JavaLanguageAnalyzer),
    Python(PythonLanguageAnalyzer),
    Cpp(CppLanguageAnalyzer),
    TypeScript(TypeScriptLanguageAnalyzer),
    JavaScript(JavaScriptLanguageAnalyzer),
}

/// The language an analyzer adapter analyses.
pub open spec fn analyzer_language(a: LanguageAnalyzer) -> LanguageId {
    match a {
        LanguageAnalyzer::Rust(_) => LanguageId::Rust,
        LanguageAnalyzer::Java(_) => LanguageId::Java,
        LanguageAnalyzer::Python(_) => LanguageId::Python,
        LanguageAnalyzer::Cpp(_) => LanguageId::Cpp,
        LanguageAnalyzer::TypeScript(_) => LanguageId::TypeScript,
        LanguageAnalyzer::JavaScript(_) => LanguageId::JavaScript,
    }
}

impl LanguageAnalyzer {
    /// The language it analyses.
    pub fn language(&self) -> (res: LanguageId)
        ensures
            res == analyzer_language(*self),
    {
        match self {
            LanguageAnalyzer::Rust(a) => a.language(),
            LanguageAnalyzer::Java(a) => a.language(),
            LanguageAnalyzer::Python(a) => a.language(),
            LanguageAnalyzer::Cpp(a) => a.language(),
            LanguageAnalyzer::TypeScript(a) => a.language(),
            LanguageAnalyzer::JavaScript(a) => a.language(),
        }
    }
}

/// The analyzer adapters by language: at most one per language, in the
/// order the languages were first registered.
pub struct AnalyzerRegistry {
    pub analyzers: Vec<(LanguageId, LanguageAnalyzer)>,
}

/// The position of the entry of `language`, or -1.
pub open spec fn registry_pos(entries: Seq<(LanguageId, LanguageAnalyzer)>, language: LanguageId) -> int
    decreases entries.len(),
{
    if entries.len() == 0 {
        -1
    } else if entries[0].0 == language {
        0
    } else {
        let r = registry_pos(entries.drop_first(), language);
        if r < 0 { -1 } else { r + 1 }
    }
}

proof fn lemma_registry_pos(entries: Seq<(LanguageId, LanguageAnalyzer)>, language: LanguageId)
    ensures
        -1 <= registry_pos(entries, language) < entries.len(),
        registry_pos(entries, language) >= 0 ==> entries[registry_pos(entries, language)].0 == language,
        forall|j: int| 0 <= j < entries.len() && (registry_pos(entries, language) < 0 || j < registry_pos(entries, language))
            ==> #[trigger] entries[j].0 != language,
    decreases entries.len(),
{
    if entries.len() > 0 {
        lemma_registry_pos(entries.drop_first(), language);
        assert forall|j: int| 0 <= j < entries.len() && (registry_pos(entries, language) < 0 || j < registry_pos(entries, language))
            implies #[trigger] entries[j].0 != language by {
            if j > 0 {
                assert(entries[j] == entries.drop_first()[j - 1]);
            }
        }
    }
}

/// The entries after registering `analyzer` for `language`: in place of the
/// entry of that language, or at the end.
pub open spec fn registry_put(entries: Seq<(LanguageId, LanguageAnalyzer)>, language: LanguageId, analyzer: LanguageAnalyzer)
    -> Seq<(LanguageId, LanguageAnalyzer)>
{
    let p = registry_pos(entries, language);
    if p >= 0 { entries.update(p, (language, analyzer)) } else { entries.push((language, analyzer)) }
}

/// The languages of the entries, in order.
pub open spec fn registry_languages(entries: Seq<(LanguageId, LanguageAnalyzer)>) -> Seq<LanguageId> {
    entries.map_values(|e: (LanguageId, LanguageAnalyzer)| e.0)
}

/// The languages a new registry has an analyzer for, in order: the
/// TypeScript adapter serves TSX files too.
pub open spec fn default_languages() -> Seq<LanguageId> {
    seq![
        LanguageId::Rust, LanguageId::Java, LanguageId::Python, LanguageId::Cpp,
        LanguageId::TypeScript, LanguageId::TypeScriptReact, LanguageId::JavaScript,
    ]
}

impl AnalyzerRegistry {
    /// A registry with an adapter for each language but Go.
    pub fn new() -> (res: Self)
        ensures
            registry_languages(res.analyzers@) == default_languages(),
            forall|k: int| 0 <= k < res.analyzers@.len() ==> {
                let e = #[trigger] res.analyzers@[k];
                analyzer_language(e.1) == (if e.0 == LanguageId::TypeScriptReact { LanguageId::TypeScript } else { e.0 })
            },
    {
        let registry = AnalyzerRegistry {
            analyzers: vec![
                (LanguageId::Rust, LanguageAnalyzer::Rust(RustLanguageAnalyzer)),
                (LanguageId::Java, LanguageAnalyzer::Java(JavaLanguageAnalyzer)),
                (LanguageId::Python, LanguageAnalyzer::Python(PythonLanguageAnalyzer)),
                (LanguageId::Cpp, LanguageAnalyzer::Cpp(CppLanguageAnalyzer)),
                (LanguageId::TypeScript, LanguageAnalyzer::TypeScript(TypeScriptLanguageAnalyzer)),
                (LanguageId::TypeScriptReact, LanguageAnalyzer::TypeScript(TypeScriptLanguageAnalyzer)),
                (LanguageId::JavaScript, LanguageAnalyzer::JavaScript(JavaScriptLanguageAnalyzer)),
            ],
        };
        assert(registry_languages(registry.analyzers@) =~= default_languages());
        registry
    }

    /// Registers `analyzer` for `language`, replacing the one it had.
    pub fn register(&mut self, language: LanguageId, analyzer: LanguageAnalyzer)
        ensures
            final(self).analyzers@ == registry_put(old(self).analyzers@, language, analyzer),
    {
        proof { lemma_registry_pos(self.analyzers@, language); }
        let mut i: usize = 0;
        while i < self.analyzers.len()
            invariant
                i <= self.analyzers@.len(),
                self.analyzers@ == old(self).analyzers@,
                forall|j: int| 0 <= j < i ==> #[trigger] self.analyzers@[j].0 != language,
                -1 <= registry_pos(self.analyzers@, language) < self.analyzers@.len(),
                registry_pos(self.analyzers@, language) >= 0
                    ==> self.analyzers@[registry_pos(self.analyzers@, language)].0 == language,
                forall|j: int| 0 <= j < self.analyzers@.len()
                    && (registry_pos(self.analyzers@, language) < 0 || j < registry_pos(self.analyzers@, language))
                    ==> #[trigger] self.analyzers@[j].0 != language,
            decreases self.analyzers@.len() - i,
        {
            if self.analyzers[i].0 == language {
                assert(registry_pos(self.analyzers@, language) == i as int) by {
                    let p = registry_pos(self.analyzers@, language);
                    if p < 0 || p > i as int {
                        assert(self.analyzers@[i as int].0 != language);
                    } else if p < i as int {
                        assert(self.analyzers@[p].0 != language);
                    }
                }
                self.analyzers.set(i, (language, analyzer));
                return;
            }
            i = i + 1;
        }
        self.analyzers.push((language, analyzer));
    }

    /// The adapter registered for `lang`, if any.
    pub fn by_language(&self, lang: LanguageId) -> (res: Option<&LanguageAnalyzer>)
        ensures
            match res {
                Some(a) => registry_pos(self.analyzers@, lang) >= 0
                    && *a == self.analyzers@[registry_pos(self.analyzers@, lang)].1,
                None => registry_pos(self.analyzers@, lang) < 0,
            },
    {
        proof { lemma_registry_pos(self.analyzers@, lang); }
        let mut i: usize = 0;
        while i < self.analyzers.len()
            invariant
                i <= self.analyzers@.len(),
                forall|j: int| 0 <= j < i ==> #[trigger] self.analyzers@[j].0 != lang,
                -1 <= registry_pos(self.analyzers@, lang) < self.analyzers@.len(),
                registry_pos(self.analyzers@, lang) >= 0
                    ==> self.analyzers@[registry_pos(self.analyzers@, lang)].0 == lang,
                forall|j: int| 0 <= j < self.analyzers@.len()
                    && (registry_pos(self.analyzers@, lang) < 0 || j < registry_pos(self.analyzers@, lang))
                    ==> #[trigger] self.analyzers@[j].0 != lang,
            decreases self.analyzers@.len() - i,
        {
            if self.analyzers[i].0 == lang {
                assert(registry_pos(self.analyzers@, lang) == i as int) by {
                    let p = registry_pos(self.analyzers@, lang);
                    if p < 0 || p > i as int {
                        assert(self.analyzers@[i as int].0 != lang);
                    } else if p < i as int {
                        assert(self.analyzers@[p].0 != lang);
                    }
                }
                return Some(&self.analyzers[i].1);
            }
            i = i + 1;
        }
        None
    }

    /// The languages with an adapter, in registration order.
    pub fn supported_languages(&self) -> (res: Vec<LanguageId>)
        ensures
            res@ == registry_languages(self.analyzers@),
    {
        let mut res: Vec<LanguageId> = Vec::new();
        let mut i: usize = 0;
        while i < self.analyzers.len()
            invariant
                i <= self.analyzers@.len(),
                res@ == registry_languages(self.analyzers@.subrange(0, i as int)),
            decreases self.analyzers@.len() - i,
        {
            res.push(self.analyzers[i].0);
            proof {
                assert(registry_languages(self.analyzers@.subrange(0, i + 1))
                    =~= registry_languages(self.analyzers@.subrange(0, i as int)).push(self.analyzers@[i as int].0));
            }
            i = i + 1;
        }
        assert(self.analyzers@.subrange(0, self.analyzers@.len() as int) =~= self.analyzers@);
        res
    }
}

/// A new registry has an analyzer for exactly the registered languages:
/// every language but Go.
pub proof fn law_new_registry_covers_registered_languages(l: LanguageId)
    ensures
        default_languages().contains(l) <==> registered_language(l),
{
    if registered_language(l) {
        let k: int = match l {
            LanguageId::Rust => 0,
            LanguageId::Java => 1,
            LanguageId::Python => 2,
            LanguageId::Cpp => 3,
            LanguageId::TypeScript => 4,
            LanguageId::TypeScriptReact => 5,
            LanguageId::JavaScript => 6,
            LanguageId::Go => 0,
        };
        assert(default_languages()[k] == l);
    }
}

/// A language the analyzer registry has an analyzer for: all but Go.
pub open spec fn registered_language(id: LanguageId) -> bool {
    id != LanguageId::Go
}

/// A path that names a test: it holds `test`, `spec` or `__tests__`.
pub open spec fn test_path(path: Seq<char>) -> bool {
    ||| find_from(path, "test"@, 0) >= 0
    ||| find_from(path, "spec"@, 0) >= 0
    ||| find_from(path, "__tests__"@, 0) >= 0
}

/// The language under which a directory analysis takes up a file, if it
/// does: test files are left out unless asked for, and the language found
/// by name must be one of those asked for (all registered ones by default).
pub open spec fn discovered_language(path: Seq<char>, options: AnalyzeOptions) -> Option<LanguageId> {
    if !options.include_tests && test_path(path) {
        None
    } else {
        match language_id_of_suffix(file_suffix(path)) {
            Some(l) => {
                let wanted = match options.languages {
                    Some(ls) => ls@.contains(l),
                    None => registered_language(l),
                };
                if wanted { Some(l) } else { None }
            },
            None => None,
        }
    }
}

/// Whether the list holds the language.
fn holds_language(ls: &Vec<LanguageId>, l: LanguageId) -> (res: bool)
    ensures
        res == ls@.contains(l),
{
    let mut i: usize = 0;
    while i < ls.len()
        invariant
            i <= ls.len(),
            forall|j: int| 0 <= j < i ==> ls@[j] != l,
        decreases ls.len() - i,
    {
        if ls[i] == l {
            return true;
        }
        i = i + 1;
    }
    false
}

/// The language under which a directory analysis takes up a file, if it does.
pub fn discover_language(path: &str, options: &AnalyzeOptions) -> (res: Option<LanguageId>)
    ensures
        res == discovered_language(path@, *options),
{
    if !options.include_tests {
        if find_first(path, "test").is_some() || find_first(path, "spec").is_some()
            || find_first(path, "__tests__").is_some() {
            return None;
        }
    }
    match get_language_id_by_filename(path) {
        Some(l) => {
            let wanted = match &options.languages {
                Some(ls) => holds_language(ls, l),
                None => l != LanguageId::Go,
            };
            if wanted { Some(l) } else { None }
        },
        None => None,
    }
}

/// A directory analysis takes a file up under the language its extension
/// names, and only under a language it is asked for: one of the listed
/// languages when a list is given, else one a new analyzer registry has an
/// analyzer for (so never Go); test files are left out unless asked for.
/// Conversely, with no list, a file outside the tests whose extension names
/// a language of the new registry is taken up under it.
pub proof fn law_discovery_follows_the_registry(path: Seq<char>, options: AnalyzeOptions, l: LanguageId)
    ensures
        discovered_language(path, options) == Some(l) ==> {
            &&& language_id_of_suffix(file_suffix(path)) == Some(l)
            &&& (options.include_tests || !test_path(path))
            &&& match options.languages {
                Some(ls) => ls@.contains(l),
                None => default_languages().contains(l),
            }
        },
        (options.languages is None && (options.include_tests || !test_path(path))
            && language_id_of_suffix(file_suffix(path)) == Some(l) && default_languages().contains(l))
            ==> discovered_language(path, options) == Some(l),
{
    law_new_registry_covers_registered_languages(l);
}

/// `sep` occurs in `s` at or after `i`.
pub open spec fn occurs_from(s: Seq<char>, sep: Seq<char>, i: nat) -> bool {
    exists|j: int| i <= j && j + sep.len() <= s.len() && #[trigger] s.subrange(j, j + sep.len()) == sep
}

proof fn lemma_find_from_occurs(s: Seq<char>, sep: Seq<char>, i: nat)
    requires
        i <= s.len(),
    ensures
        find_from(s, sep, i) >= 0 <==> occurs_from(s, sep, i),
    decreases s.len() - i,
{
    if i + sep.len() > s.len() {
        if occurs_from(s, sep, i) {
            let j = choose|j: int| i <= j && j + sep.len() <= s.len() && #[trigger] s.subrange(j, j + sep.len()) == sep;
        }
    } else if s.subrange(i as int, (i + sep.len()) as int) == sep {
    } else if i >= s.len() {
        if occurs_from(s, sep, i) {
            let j = choose|j: int| i <= j && j + sep.len() <= s.len() && #[trigger] s.subrange(j, j + sep.len()) == sep;
            assert(j == i);
        }
    } else {
        lemma_find_from_occurs(s, sep, i + 1);
        if occurs_from(s, sep, i) {
            let j = choose|j: int| i <= j && j + sep.len() <= s.len() && #[trigger] s.subrange(j, j + sep.len()) == sep;
            if j == i {
            } else {
                assert(occurs_from(s, sep, i + 1));
            }
        }
        if occurs_from(s, sep, i + 1) {
            let j = choose|j: int| i + 1 <= j && j + sep.len() <= s.len() && #[trigger] s.subrange(j, j + sep.len()) == sep;
            assert(occurs_from(s, sep, i));
        }
    }
}

/// Test files are left out unless asked for: a path in which `test`, `spec`
/// or `__tests__` occurs is taken up only when tests are included.
pub proof fn law_discovery_leaves_out_tests(path: Seq<char>, options: AnalyzeOptions)
    ensures
        (!options.include_tests && (occurs_from(path, "test"@, 0) || occurs_from(path, "spec"@, 0)
            || occurs_from(path, "__tests__"@, 0))) ==> discovered_language(path, options) is None,
        (!options.include_tests && discovered_language(path, options) is Some) ==> !occurs_from(path, "test"@, 0)
            && !occurs_from(path, "spec"@, 0) && !occurs_from(path, "__tests__"@, 0),
{
    lemma_find_from_occurs(path, "test"@, 0);
    lemma_find_from_occurs(path, "spec"@, 0);
    lemma_find_from_occurs(path, "__tests__"@, 0);
}

} // verus!
