use codegraph::http::snippets::{code_snippet, project_id, snippet_language, to_hex_lower};
use codegraph::languages::{
    get_ast_parser_by_filename, get_code_analyzer, get_language_id_by_filename, language_id_for_suffix,
    language_key_for_suffix, suffix_of, AnalyzerKind, LanguageId,
};
use codegraph::analyzers::get_code_analyzer as analyzer_for;
use codegraph::analyzers::get_ast_parser_by_filename as parser_for;
use codegraph::parser::{skips_directory, AnalysisResult, CodeParser};
use codegraph::text::{join_range, split_str, text_lines, usize_to_decimal};

#[test]
fn project_id_is_the_md5_of_the_directory_in_hex() {
    assert_eq!(project_id("abc"), "900150983cd24fb0d6963f7d28e17f72");
    assert_eq!(project_id(""), "d41d8cd98f00b204e9800998ecf8427e");
    assert_eq!(project_id("/home/me/project").len(), 32);
}

#[test]
fn hex_has_two_lower_case_digits_per_byte() {
    assert_eq!(to_hex_lower(&vec![0, 15, 16, 171, 255]), "000f10abff");
}

#[test]
fn language_by_extension_ignores_case() {
    assert_eq!(get_language_id_by_filename("MAIN.RS"), Some(LanguageId::Rust));
    assert_eq!(get_language_id_by_filename("src/app.Py"), Some(LanguageId::Python));
    assert_eq!(get_language_id_by_filename("dir.d/x.hpp"), Some(LanguageId::Cpp));
    assert_eq!(get_language_id_by_filename("t.tpl"), Some(LanguageId::Cpp));
    assert_eq!(get_language_id_by_filename("a.tsx"), Some(LanguageId::TypeScript));
    assert_eq!(get_language_id_by_filename("archive.tar.gz"), None);
    assert_eq!(get_language_id_by_filename(".bashrc"), None);
    assert_eq!(get_language_id_by_filename("Makefile"), None);
}

#[test]
fn suffix_is_the_lower_cased_extension() {
    assert_eq!(suffix_of("Main.JAVA"), "java");
    assert_eq!(suffix_of("noext"), "");
    assert_eq!(suffix_of("a.b.C"), "c");
    assert_eq!(language_id_for_suffix("jsx"), Some(LanguageId::JavaScript));
    assert_eq!(language_id_for_suffix("go"), Some(LanguageId::Go));
    assert_eq!(language_id_for_suffix("kt"), None);
    assert_eq!(language_key_for_suffix("inl"), "unknown");
    assert_eq!(language_key_for_suffix("hh"), "cpp");
}

#[test]
fn parser_choice_by_file_name() {
    assert_eq!(get_ast_parser_by_filename("x.rs").unwrap_err().message, "Rust analyzer not yet implemented");
    assert_eq!(get_ast_parser_by_filename("notes.TXT").unwrap_err().message, "not supported txt");
    assert_eq!(get_ast_parser_by_filename("README").unwrap_err().message, "not supported ");
    let (kind, id) = get_ast_parser_by_filename("view.tsx").unwrap();
    assert_eq!(kind, AnalyzerKind::TypeScript);
    assert_eq!(id, LanguageId::TypeScript);
    assert_eq!(get_ast_parser_by_filename("Main.java").unwrap(), (AnalyzerKind::Java, LanguageId::Java));
    assert_eq!(get_code_analyzer(LanguageId::Go).unwrap_err().message, "Unsupported language id: go");
    assert_eq!(get_code_analyzer(LanguageId::TypeScriptReact).unwrap(), AnalyzerKind::TypeScript);
}

#[test]
fn supported_files_are_those_with_a_language() {
    let parser = CodeParser::new();
    for name in ["a.rs", "b.PY", "c.inc", "d.h", "e.ts", "f.jsx", "g.java"] {
        assert!(parser.is_supported_file(name), "{}", name);
        assert!(get_language_id_by_filename(name).is_some());
    }
    for name in ["a.txt", "Makefile", ".hidden"] {
        assert!(!parser.is_supported_file(name), "{}", name);
        assert!(get_language_id_by_filename(name).is_none());
    }
}

#[test]
fn go_files_are_recognised_but_have_no_analyzer() {
    assert_eq!(get_language_id_by_filename("main.go"), Some(LanguageId::Go));
    assert_eq!(get_language_id_by_filename("Main.GO"), Some(LanguageId::Go));
    assert!(!CodeParser::new().is_supported_file("main.go"));
    assert_eq!(get_ast_parser_by_filename("main.go").unwrap_err().message, "Unsupported language id: go");
}

#[test]
fn the_analyzers_module_serves_rust_too() {
    assert_eq!(analyzer_for(LanguageId::Rust).unwrap(), AnalyzerKind::Rust);
    assert_eq!(analyzer_for(LanguageId::Python).unwrap(), AnalyzerKind::Python);
    assert_eq!(analyzer_for(LanguageId::TypeScriptReact).unwrap(), AnalyzerKind::TypeScript);
    assert_eq!(analyzer_for(LanguageId::Go).unwrap_err().message, "Unsupported language id: go");
    assert_eq!(get_code_analyzer(LanguageId::Rust).unwrap_err().message, "Rust analyzer not yet implemented");
    assert_eq!(parser_for("lib.rs").unwrap(), (AnalyzerKind::Rust, LanguageId::Rust));
    assert_eq!(parser_for("main.go").unwrap_err().message, "Unsupported language id: go");
    assert_eq!(parser_for("notes.md").unwrap_err().message, "not supported md");
}

#[test]
fn directory_scan_skips_hidden_and_build_directories() {
    assert!(skips_directory(".git"));
    assert!(skips_directory("target"));
    assert!(skips_directory("node_modules"));
    assert!(skips_directory("__pycache__"));
    assert!(!skips_directory("src"));
    assert!(!skips_directory(""));
}

#[test]
fn text_lines_follow_str_lines() {
    assert_eq!(text_lines("a\r\nb\n"), vec!["a".to_string(), "b".to_string()]);
    assert_eq!(text_lines("x\n\ny"), vec!["x".to_string(), "".to_string(), "y".to_string()]);
    assert!(text_lines("").is_empty());
    assert_eq!(text_lines("c\r"), vec!["c\r".to_string()]);
    assert_eq!(text_lines("\r\n"), vec!["".to_string()]);
    assert_eq!(text_lines("p\rq\r\n"), vec!["p\rq".to_string()]);
}

#[test]
fn split_keeps_empty_parts() {
    assert_eq!(split_str("a::b::", "::"), vec!["a".to_string(), "b".to_string(), "".to_string()]);
    assert_eq!(split_str("abc", ","), vec!["abc".to_string()]);
    assert_eq!(usize_to_decimal(4096), "4096");
}

#[test]
fn joined_lines() {
    let lines = vec!["l1".to_string(), "l2".to_string(), "l3".to_string()];
    assert_eq!(join_range(&lines, 1, 3, "\n"), "l2\nl3");
    assert_eq!(join_range(&lines, 2, 2, "\n"), "");
}

#[test]
fn snippet_lines_are_counted_from_one_and_clipped() {
    let parser = CodeParser::new();
    let lines = vec!["l1".to_string(), "l2".to_string(), "l3".to_string()];
    assert_eq!(parser._extract_code_snippet(&lines, 2, 3), "l2\nl3");
    assert_eq!(parser._extract_code_snippet(&lines, 0, 0), "l1");
    assert_eq!(parser._extract_code_snippet(&lines, 3, 10), "l3");
    assert_eq!(parser._extract_code_snippet(&lines, 5, 9), "");
    assert_eq!(parser._extract_code_snippet(&lines, 3, 1), "l3");
}

#[test]
fn analysis_cache_gives_back_what_was_stored() {
    let mut parser = CodeParser::new();
    assert!(parser.get_file_analysis("a.rs").is_none());
    parser.cache_analysis("a.rs".to_string(), AnalysisResult::default());
    parser.cache_analysis("b.py".to_string(), AnalysisResult::default());
    assert!(parser.get_file_analysis("a.rs").is_some());
    assert_eq!(parser.get_all_analysis_results().len(), 2);
    parser.cache_analysis("a.rs".to_string(), AnalysisResult::default());
    assert_eq!(parser.get_all_analysis_results().len(), 2);
    parser.clear_cache();
    assert!(parser.get_file_analysis("b.py").is_none());
}

#[test]
fn code_snippet_with_and_without_context() {
    let lines: Vec<String> = (0..10).map(|i| format!("line{}", i)).collect();
    assert_eq!(code_snippet(&lines, 4, 6, Some(false), None), "line4\nline5");
    assert_eq!(code_snippet(&lines, 4, 6, None, Some(1)), "line3\nline4\nline5\nline6");
    assert_eq!(code_snippet(&lines, 1, 2, None, None), "line0\nline1\nline2\nline3\nline4");
    assert_eq!(code_snippet(&lines, 8, 9, Some(true), Some(5)), "line3\nline4\nline5\nline6\nline7\nline8\nline9");
    assert_eq!(code_snippet(&lines, 12, 15, None, None), "line9");
    assert_eq!(code_snippet(&lines, 12, 15, Some(false), None), "// Function not found in file");
}

#[test]
fn snippet_language_by_extension() {
    assert_eq!(snippet_language("src/App.KT"), "kotlin");
    assert_eq!(snippet_language("main.cc"), "cpp");
    assert_eq!(snippet_language("x.c"), "c");
    assert_eq!(snippet_language("x.rb"), "ruby");
    assert_eq!(snippet_language("x.h"), "unknown");
    assert_eq!(snippet_language("LICENSE"), "unknown");
}
