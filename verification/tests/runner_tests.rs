use codegraph::cli::{effective_storage_mode, server_address, StorageMode};
use codegraph::languages::{CodeAnalyzer, LanguageId, TreeSitterParser};
use codegraph::parsers::{
    discover_language, AnalyzeOptions, AnalyzerRegistry, DeclarationKind, GoSkeletonFormatter, JavaLanguageAnalyzer,
    LanguageAnalyzer, RustLanguageAnalyzer,
};

struct Recorder {
    seen: Vec<String>,
    fail: bool,
}

impl CodeAnalyzer for Recorder {
    fn analyze_file(&mut self, path: &String) -> Result<(), String> {
        self.seen.push(path.clone());
        if self.fail { Err("boom".to_string()) } else { Ok(()) }
    }

    fn analyze_directory(&mut self, dir: &String) -> Result<(), String> {
        self.seen.push(dir.clone());
        if self.fail { Err("bad dir".to_string()) } else { Ok(()) }
    }
}

#[test]
fn tree_sitter_parser_runs_the_analyzer_of_supported_files() {
    let parser = TreeSitterParser::new();
    let mut ok = Recorder { seen: vec![], fail: false };
    assert!(parser.analyze_file(&"m.py".to_string(), &mut ok).is_ok());
    assert_eq!(ok.seen, vec!["m.py".to_string()]);
    let err = parser.analyze_file(&"m.rs".to_string(), &mut ok).unwrap_err();
    assert_eq!(err.message, "Rust analyzer not yet implemented");
    assert_eq!(ok.seen.len(), 1);
    let mut failing = Recorder { seen: vec![], fail: true };
    let err = parser.analyze_file(&"a/b.java".to_string(), &mut failing).unwrap_err();
    assert_eq!(err.message, "Failed to analyze file a/b.java: boom");
    let err = parser.analyze_directory(&"src.cpp".to_string(), &mut failing).unwrap_err();
    assert_eq!(err.message, "Failed to analyze directory src.cpp: bad dir");
    let err = parser.analyze_directory(&"src".to_string(), &mut failing).unwrap_err();
    assert_eq!(err.message, "not supported ");
}

#[test]
fn server_settings() {
    assert_eq!(server_address(&None, None), "127.0.0.1:8080");
    assert_eq!(server_address(&None, Some(3000)), "127.0.0.1:3000");
    assert_eq!(server_address(&Some("0.0.0.0:9".to_string()), Some(3000)), "0.0.0.0:9");
    assert_eq!(effective_storage_mode(None, StorageMode::Both), StorageMode::Both);
    assert_eq!(effective_storage_mode(Some(StorageMode::Binary), StorageMode::Json), StorageMode::Binary);
    assert_eq!(StorageMode::default(), StorageMode::Json);
}

fn options(languages: Option<Vec<LanguageId>>, include_tests: bool) -> AnalyzeOptions {
    AnalyzeOptions { languages, max_workers: 2, include_tests, follow_symlinks: true, output_dir: "out".to_string() }
}

#[test]
fn directory_analysis_takes_up_files_by_language_and_test_setting() {
    assert_eq!(discover_language("src/main.rs", &options(None, false)), Some(LanguageId::Rust));
    assert_eq!(discover_language("src/tests/main.rs", &options(None, false)), None);
    assert_eq!(discover_language("src/tests/main.rs", &options(None, true)), Some(LanguageId::Rust));
    assert_eq!(discover_language("app.spec.ts", &options(None, false)), None);
    assert_eq!(discover_language("a.py", &options(Some(vec![LanguageId::Java]), false)), None);
    assert_eq!(discover_language("a.py", &options(Some(vec![LanguageId::Java, LanguageId::Python]), false)), Some(LanguageId::Python));
    assert_eq!(discover_language("notes.md", &options(None, true)), None);
    assert_eq!(RustLanguageAnalyzer::new().unwrap().language(), LanguageId::Rust);
}

#[test]
fn go_struct_outline_lists_trimmed_field_lines() {
    let f = GoSkeletonFormatter;
    let members = vec![
        (true, "  Width  float64\n\n Height int ".to_string()),
        (false, "func (s Shape) Area() float64 {}".to_string()),
        (true, "Name string".to_string()),
    ];
    assert_eq!(
        f.make_skeleton(DeclarationKind::Struct, "Shape", &members),
        "type Shape struct {\n  Width  float64\n  Height int\n  Name string\n}"
    );
    assert_eq!(f.make_skeleton(DeclarationKind::Struct, "Empty", &vec![]), "type Empty struct {\n}");
    assert_eq!(f.make_skeleton(DeclarationKind::Function, "main", &members), "");
    assert_eq!(f.get_declaration_with_comments(DeclarationKind::Function, 3, 9), (String::new(), (3, 9)));
    assert_eq!(f.get_declaration_with_comments(DeclarationKind::Struct, 3, 9), (String::new(), (3, 3)));
}

#[test]
fn registry_has_an_analyzer_per_language_but_go() {
    let mut registry = AnalyzerRegistry::new();
    assert_eq!(
        registry.supported_languages(),
        vec![
            LanguageId::Rust,
            LanguageId::Java,
            LanguageId::Python,
            LanguageId::Cpp,
            LanguageId::TypeScript,
            LanguageId::TypeScriptReact,
            LanguageId::JavaScript,
        ]
    );
    assert!(registry.by_language(LanguageId::Go).is_none());
    assert_eq!(registry.by_language(LanguageId::TypeScriptReact).unwrap().language(), LanguageId::TypeScript);
    registry.register(LanguageId::Rust, LanguageAnalyzer::Java(JavaLanguageAnalyzer));
    assert_eq!(registry.supported_languages().len(), 7);
    assert!(matches!(registry.by_language(LanguageId::Rust), Some(LanguageAnalyzer::Java(_))));
    registry.register(LanguageId::Go, LanguageAnalyzer::Rust(RustLanguageAnalyzer));
    assert_eq!(registry.supported_languages().last(), Some(&LanguageId::Go));
}
