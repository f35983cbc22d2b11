use codegraph::parser::{AnalysisResult, CodeParser};
use codegraph::analyzers::analysis_result_of;
use codegraph::analyzers::java::JavaAnalyzer;
use codegraph::analyzers::python::PythonAnalyzer;
use codegraph::analyzers::rust::RustAnalyzer;
use codegraph::graph_types::{CallRelation, ClassInfo, FunctionInfo};
use codegraph::queries::java::{JavaAnalysisResult, JavaSnippet, JavaSnippetType};
use codegraph::queries::python::{PythonAnalysisResult, PythonSnippet, PythonSnippetType};
use codegraph::queries::rust::{RustAnalysisResult, RustSnippet, RustSnippetType};

fn java_method(name: &str, kind: JavaSnippetType, line: usize) -> JavaSnippet {
    JavaSnippet {
        snippet_type: kind,
        name: name.to_string(),
        content: format!("void {}()", name),
        start_line: line,
        end_line: line + 1,
        start_column: 0,
        end_column: 0,
        file_path: String::new(),
        package_name: None,
        class_name: None,
        parameters: vec![],
        return_type: None,
    }
}

fn java_result(snippets: Vec<JavaSnippet>) -> JavaAnalysisResult {
    JavaAnalysisResult {
        snippets,
        method_calls: vec![],
        scopes: vec![],
        imports: vec![],
        packages: vec![],
        classes: vec![],
        interfaces: vec![],
    }
}

#[test]
fn java_registry_keeps_the_last_method_of_a_name() {
    let mut a = JavaAnalyzer::new().unwrap();
    a.process_analysis_result(
        &java_result(vec![
            java_method("run", JavaSnippetType::Method, 1),
            java_method("A", JavaSnippetType::Class, 0),
            java_method("stop", JavaSnippetType::Method, 5),
        ]),
        &"A.java".to_string(),
    );
    a.process_analysis_result(&java_result(vec![java_method("run", JavaSnippetType::Method, 9)]), &"B.java".to_string());
    assert_eq!(a.get_all_methods().len(), 2);
    let runs = a.find_methods_by_name("run");
    assert_eq!(runs.len(), 1);
    assert_eq!(runs[0].file_path, "B.java");
    assert_eq!(runs[0].line_start, 9);
    assert!(a.find_methods_by_name("nope").is_empty());
    assert_eq!(a.get_file_methods(&"A.java".to_string()).unwrap().len(), 2);
    assert!(a.get_file_methods(&"C.java".to_string()).is_none());
    let expected = [
        "=== Java Code Analysis Report ===\n\n",
        "Total Methods: 2\n",
        "Total Files: 2\n",
        "\nMethods by File:\n",
        "  A.java: 2 methods\n",
        "  B.java: 1 methods\n",
        "\nMethod List:\n",
        "  run (B.java:9-10)\n",
        "  stop (A.java:5-6)\n",
    ]
    .concat();
    assert_eq!(a.generate_report(), expected);
}

fn py(name: &str, kind: PythonSnippetType, line: usize) -> PythonSnippet {
    PythonSnippet {
        snippet_type: kind,
        name: name.to_string(),
        content: format!("def {}():", name),
        start_line: line,
        end_line: line + 3,
        start_column: 0,
        end_column: 0,
        file_path: "m.py".to_string(),
        module_name: Some("m".to_string()),
        class_name: None,
        parameters: vec![],
        return_type: None,
        decorators: vec![],
    }
}

#[test]
fn python_registry_and_report() {
    let mut a = PythonAnalyzer::new().unwrap();
    let result = PythonAnalysisResult {
        snippets: vec![py("Shape", PythonSnippetType::Class, 1), py("area", PythonSnippetType::Function, 2), py("os", PythonSnippetType::Import, 0)],
        function_calls: vec![],
        scopes: vec![],
        imports: vec![],
        modules: vec![],
        classes: vec![],
    };
    a.process_analysis_result(&result, &"m.py".to_string());
    assert_eq!(a.all_snippets.len(), 3);
    assert_eq!(a.all_classes.len(), 1);
    assert_eq!(a.get_all_functions().len(), 1);
    assert_eq!(a.find_functions_by_name("area")[0].namespace, "m");
    assert_eq!(a.get_file_functions(&"m.py".to_string()).unwrap()[0].language, "python");
    let expected = [
        "=== Python Code Analysis Report ===\n\n",
        "Total Snippets: 3\n",
        "Total Functions: 1\n",
        "Total Files: 1\n",
        "\n=== Functions ===\n",
        "  area (m.py:2-5)\n",
        "\n=== Classes ===\n",
        "  Shape (m.py:1-4)\n",
        "\nFunctions by File:\n",
        "  m.py: 1 functions\n",
    ]
    .concat();
    assert_eq!(a.generate_report(), expected);
}

#[test]
fn rust_analyzer_extracts_recorded_functions() {
    let mut a = RustAnalyzer::new().unwrap();
    let snippet = RustSnippet {
        snippet_type: RustSnippetType::Function,
        name: "main".to_string(),
        start_line: 1,
        end_line: 3,
        file_path: "main.rs".to_string(),
        content: "fn main() {}".to_string(),
        scope: None,
        modifiers: vec![],
        generics: vec![],
        parameters: vec![],
        return_type: None,
    };
    let result = RustAnalysisResult {
        snippets: vec![snippet],
        method_calls: vec![],
        scopes: vec![],
        imports: vec![],
        modules: vec![],
        structs: vec![],
        enums: vec![],
        traits: vec![],
        macros: vec![],
        types: vec![],
    };
    a.process_analysis_result(&result, &"main.rs".to_string());
    let found = a.extract_functions(&"main.rs".to_string()).unwrap();
    assert_eq!(found.len(), 1);
    assert_eq!(found[0].name, "main");
    assert_eq!(found[0].id, a.functions.by_file[0].1[0].id);
    assert!(a.extract_functions(&"other.rs".to_string()).unwrap().is_empty());
}

#[test]
fn analysis_result_takes_the_first_error() {
    let ok_f: Result<Vec<FunctionInfo>, String> = Ok(vec![]);
    let ok_c: Result<Vec<ClassInfo>, String> = Ok(vec![]);
    let err_c: Result<Vec<ClassInfo>, String> = Err("classes".to_string());
    let err_r: Result<Vec<CallRelation>, String> = Err("calls".to_string());
    assert_eq!(analysis_result_of(ok_f, err_c, err_r).unwrap_err(), "classes");
    let ok_f: Result<Vec<FunctionInfo>, String> = Ok(vec![]);
    let err_r: Result<Vec<CallRelation>, String> = Err("calls".to_string());
    assert_eq!(analysis_result_of(ok_f, ok_c, err_r).unwrap_err(), "calls");
    let ok_f: Result<Vec<FunctionInfo>, String> = Ok(vec![]);
    let ok_c: Result<Vec<ClassInfo>, String> = Ok(vec![]);
    let ok_r: Result<Vec<CallRelation>, String> = Ok(vec![]);
    let r = analysis_result_of(ok_f, ok_c, ok_r).unwrap();
    assert!(r.functions.is_empty() && r.classes.is_empty() && r.call_relations.is_empty());
}

fn plain_function(id: u128, name: &str, file: &str) -> FunctionInfo {
    FunctionInfo {
        id,
        name: name.to_string(),
        file_path: file.to_string(),
        line_start: 1,
        line_end: 2,
        namespace: String::new(),
        language: "rust".to_string(),
        signature: None,
        return_type: None,
        parameters: vec![],
    }
}

#[test]
fn function_lookup_by_id_goes_through_the_cache_in_order() {
    let mut parser = CodeParser::new();
    parser.cache_analysis(
        "a.rs".to_string(),
        AnalysisResult { functions: vec![plain_function(1, "one", "a.rs"), plain_function(2, "two", "a.rs")], classes: vec![], call_relations: vec![] },
    );
    parser.cache_analysis(
        "b.rs".to_string(),
        AnalysisResult { functions: vec![plain_function(2, "again", "b.rs"), plain_function(3, "three", "b.rs")], classes: vec![], call_relations: vec![] },
    );
    assert_eq!(parser._get_function_by_id(2).unwrap().name, "two");
    assert_eq!(parser._get_function_by_id(3).unwrap().file_path, "b.rs");
    assert!(parser._get_function_by_id(4).is_none());
}
