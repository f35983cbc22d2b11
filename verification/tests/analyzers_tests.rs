use codegraph::analyzers::common::{split_parameters, Position};
use codegraph::analyzers::cpp::{establish_call_relationships as cpp_establish, parse_parameters};
use codegraph::analyzers::java::{
    establish_call_relationships as java_establish, is_java_file, parse_java_parameters,
    methods_of_file as java_process, MethodCall, MethodScope,
};
use codegraph::analyzers::python::{is_python_file, parse_python_parameters};
use codegraph::analyzers::rust::{
    establish_call_relationships as rust_establish, find_caller_scope, is_rust_file,
    functions_of_file as rust_process, FunctionCall, FunctionScope,
};
use codegraph::analyzers::javascript::{generate_report, get_all_classes, get_all_functions, get_all_objects};
use codegraph::queries::javascript::{JavaScriptAnalysisResult, JavaScriptSnippet, JavaScriptSnippetType as T};
use codegraph::queries::cpp::{CppAnalysisResult, CppFunctionCall, CppScope, CppSnippet, CppSnippetType};
use codegraph::queries::java::{JavaAnalysisResult, JavaScope, JavaSnippet, JavaSnippetType};
use codegraph::queries::rust::{RustAnalysisResult, RustSnippet, RustSnippetType};

fn pos(row: usize, column: usize) -> Position {
    Position { row, column }
}

#[test]
fn parameter_lists_are_split_and_trimmed() {
    assert_eq!(split_parameters("(int a, String b)"), vec!["int a".to_string(), "String b".to_string()]);
    assert_eq!(split_parameters("( x , ,\u{2003}y )"), vec!["x".to_string(), "y".to_string()]);
    assert!(split_parameters("()").is_empty());
    assert_eq!(parse_java_parameters("(final int n)"), vec!["final int n".to_string()]);
    assert_eq!(parse_python_parameters("(self, *args, **kw)"), vec!["self".to_string(), "*args".to_string(), "**kw".to_string()]);
    assert_eq!(parse_parameters("((int a))"), vec!["int a".to_string()]);
}

#[test]
fn source_files_by_language() {
    assert!(is_java_file("A.JAVA"));
    assert!(!is_java_file("A.jav"));
    assert!(is_rust_file("lib.rs"));
    assert!(!is_rust_file("rs"));
    assert!(is_python_file("stub.PYI"));
    assert!(is_python_file("Dockerfile"));
    assert!(!is_python_file("setup.cfg"));
}

fn java_scope(name: &str, kind: JavaSnippetType, start: usize, end: usize) -> JavaScope {
    JavaScope {
        name: name.to_string(),
        scope_type: kind,
        start_line: start,
        end_line: end,
        start_column: 0,
        end_column: 80,
        parent_scope: None,
        package_name: None,
        class_name: None,
    }
}

fn java_snippet(name: &str, kind: JavaSnippetType, line: usize) -> JavaSnippet {
    JavaSnippet {
        snippet_type: kind,
        name: name.to_string(),
        content: format!("void {}() {{}}", name),
        start_line: line,
        end_line: line + 2,
        start_column: 4,
        end_column: 5,
        file_path: "A.java".to_string(),
        package_name: Some("com.example".to_string()),
        class_name: None,
        parameters: vec!["int x".to_string()],
        return_type: Some("void".to_string()),
    }
}

#[test]
fn java_definitions_get_their_class_and_calls_their_caller() {
    let mut result = JavaAnalysisResult {
        snippets: vec![
            java_snippet("run", JavaSnippetType::Method, 3),
            java_snippet("apply", JavaSnippetType::Method, 22),
            java_snippet("free", JavaSnippetType::Method, 40),
        ],
        method_calls: vec![],
        scopes: vec![
            java_scope("Outer", JavaSnippetType::Class, 1, 30),
            java_scope("Fn", JavaSnippetType::Interface, 20, 25),
        ],
        imports: vec![],
        packages: vec![],
        classes: vec![],
        interfaces: vec![],
    };
    let scopes = vec![MethodScope {
        name: "run".to_string(),
        params: vec![],
        body_start: pos(3, 0),
        body_end: pos(8, 40),
        package_name: None,
        class_name: None,
        interface_name: None,
        method_id: 1,
        modifiers: vec![],
        type_parameters: vec![],
        return_type: None,
    }];
    let call = |name: &str, row: usize, column: usize| MethodCall {
        caller_name: String::new(),
        called_name: name.to_string(),
        location: pos(row, column),
        package_name: Some("p".to_string()),
        class_name: None,
        interface_name: None,
        arguments: vec![],
        type_arguments: vec![],
    };
    let calls = vec![call("helper", 5, 10), call("other", 5, 50), call("late", 30, 1)];
    java_establish(&scopes, &calls, &mut result);
    assert_eq!(result.snippets[0].class_name.as_deref(), Some("Outer"));
    assert_eq!(result.snippets[1].class_name.as_deref(), Some("Fn"));
    assert_eq!(result.snippets[2].class_name, None);
    assert_eq!(result.method_calls.len(), 3);
    assert_eq!(result.method_calls[0].caller_name, "run");
    assert_eq!(result.method_calls[0].caller_location, (5, 10));
    assert_eq!(result.method_calls[1].caller_name, "");
    assert_eq!(result.method_calls[2].caller_name, "");
    assert!(!result.method_calls[0].is_resolved);
    assert_eq!(result.method_calls[0].package_name.as_deref(), Some("p"));

    let functions = java_process(&result, &"A.java".to_string());
    assert_eq!(functions.len(), 3);
    assert_eq!(functions[1].name, "apply");
    assert_eq!(functions[1].namespace, "com.example");
    assert_eq!(functions[1].language, "java");
    assert_eq!(functions[1].line_start, 22);
    assert_eq!(functions[1].signature.as_deref(), Some("void apply() {}"));
    assert_eq!(functions[1].parameters.len(), 1);
    assert_eq!(functions[1].parameters[0].name, "int x");
    assert!(functions[0].id != functions[1].id && functions[1].id != functions[2].id);
}

#[test]
fn rust_calls_get_the_function_whose_rows_hold_them() {
    let scopes = vec![
        FunctionScope {
            name: "main".to_string(),
            params: vec![],
            body_start: pos(1, 10),
            body_end: pos(4, 1),
            module_name: None,
            struct_name: None,
            trait_name: None,
            function_id: 9,
            modifiers: vec![],
            type_parameters: vec![],
            return_type: None,
        },
    ];
    let rcall = |row: usize, column: usize| FunctionCall {
        caller_name: String::new(),
        called_name: "add".to_string(),
        location: pos(row, column),
        module_name: None,
        struct_name: None,
        trait_name: None,
        arguments: vec!["1".to_string(), "2".to_string()],
        type_arguments: vec![],
    };
    assert_eq!(find_caller_scope(&rcall(2, 0), &scopes).unwrap().name, "main");
    assert!(find_caller_scope(&rcall(7, 0), &scopes).is_none());
    let inside = rcall(3, 3);
    let outside = rcall(7, 0);
    let mut result = RustAnalysisResult {
        snippets: vec![
            RustSnippet {
                snippet_type: RustSnippetType::Function,
                name: "main".to_string(),
                start_line: 1,
                end_line: 4,
                file_path: "main.rs".to_string(),
                content: "fn main() {}".to_string(),
                scope: None,
                modifiers: vec![],
                generics: vec![],
                parameters: vec![],
                return_type: None,
            },
            RustSnippet {
                snippet_type: RustSnippetType::Struct,
                name: "Point".to_string(),
                start_line: 6,
                end_line: 9,
                file_path: "main.rs".to_string(),
                content: "struct Point;".to_string(),
                scope: Some("geo".to_string()),
                modifiers: vec![],
                generics: vec![],
                parameters: vec![],
                return_type: None,
            },
        ],
        method_calls: vec![],
        scopes: vec![],
        imports: vec![],
        modules: vec![],
        structs: vec![],
        enums: vec![],
        traits: vec![],
        macros: vec![],
        types: vec![],
    };
    rust_establish(&scopes, &vec![inside, outside], &mut result);
    assert_eq!(result.method_calls.len(), 2);
    assert_eq!(result.method_calls[0].caller_name, "main");
    assert_eq!(result.method_calls[0].arguments, vec!["1".to_string(), "2".to_string()]);
    assert_eq!(result.method_calls[1].caller_name, "");
    assert_eq!(result.method_calls[1].location, (7, 0));
    let functions = rust_process(&result, &"main.rs".to_string());
    assert_eq!(functions.len(), 1);
    assert_eq!(functions[0].name, "main");
    assert_eq!(functions[0].language, "rust");
    assert_eq!(functions[0].namespace, "");
    assert!(functions[0].signature.is_none());
}

#[test]
fn cpp_calls_and_definitions_get_what_surrounds_them() {
    let scope = |name: &str, kind: CppSnippetType, l0: usize, l1: usize, c0: usize, c1: usize| CppScope {
        name: name.to_string(),
        scope_type: kind,
        start_line: l0,
        end_line: l1,
        start_column: c0,
        end_column: c1,
        parent_scope: None,
        namespace: None,
        class_name: None,
    };
    let mut result = CppAnalysisResult {
        snippets: vec![CppSnippet {
            snippet_type: CppSnippetType::Method,
            name: "area".to_string(),
            content: String::new(),
            start_line: 5,
            end_line: 7,
            start_column: 0,
            end_column: 1,
            file_path: "s.cpp".to_string(),
            namespace: None,
            class_name: None,
            parameters: vec![],
            return_type: None,
        }],
        function_calls: vec![CppFunctionCall {
            caller_name: "?".to_string(),
            called_name: "sqrt".to_string(),
            caller_location: (6, 4),
            called_location: (0, 0),
            caller_file: String::new(),
            called_file: None,
            is_resolved: false,
            namespace: None,
            class_name: None,
        }],
        scopes: vec![
            scope("geo", CppSnippetType::Namespace, 1, 50, 0, 0),
            scope("Shape", CppSnippetType::Class, 3, 20, 0, 80),
            scope("area", CppSnippetType::Function, 5, 7, 0, 80),
        ],
        includes: vec![],
        namespaces: vec![],
        classes: vec![],
    };
    cpp_establish(&mut result);
    assert_eq!(result.function_calls[0].caller_name, "area");
    assert_eq!(result.snippets[0].namespace.as_deref(), Some("geo"));
    assert_eq!(result.snippets[0].class_name.as_deref(), Some("Shape"));
}

fn js_snippet(name: &str, kind: codegraph::queries::javascript::JavaScriptSnippetType, start: usize, end: usize)
    -> codegraph::queries::javascript::JavaScriptSnippet {
    codegraph::queries::javascript::JavaScriptSnippet {
        snippet_type: kind,
        name: name.to_string(),
        content: String::new(),
        start_line: start,
        end_line: end,
        start_column: 0,
        end_column: 0,
        file_path: "app.js".to_string(),
        module_name: None,
        class_name: None,
        object_name: None,
        parameters: vec![],
        return_type: None,
        decorators: vec![],
        extends: vec![],
        implements: vec![],
        is_async: false,
        is_generator: false,
    }
}

#[test]
fn javascript_report_lists_functions_classes_and_objects() {
    let result = JavaScriptAnalysisResult {
        snippets: vec![
            js_snippet("main", T::Function, 1, 3),
            js_snippet("Widget", T::Class, 5, 20),
            js_snippet("render", T::ClassMethod, 6, 9),
            js_snippet("config", T::Object, 22, 25),
            js_snippet("fs", T::Import, 0, 0),
            js_snippet("cb", T::ArrowFunction, 27, 27),
        ],
        function_calls: vec![],
        scopes: vec![],
        imports: vec!["fs".to_string()],
        exports: vec![],
        modules: vec![],
        classes: vec![],
        objects: vec![],
    };
    let names = |v: Vec<&JavaScriptSnippet>| v.iter().map(|s| s.name.clone()).collect::<Vec<_>>();
    assert_eq!(names(get_all_functions(&result)), vec!["main", "render", "cb"]);
    assert_eq!(names(get_all_classes(&result)), vec!["Widget"]);
    assert_eq!(names(get_all_objects(&result)), vec!["config"]);
    let report = generate_report(&result);
    let expected = [
        "=== JavaScript Code Analysis Report ===\n\n",
        "Total Snippets: 6\n",
        "Total Function Calls: 0\n",
        "Total Scopes: 0\n",
        "Total Imports: 1\n",
        "Total Exports: 0\n",
        "\n=== Functions ===\n",
        "  - main (app.js:1-3)\n",
        "  - render (app.js:6-9)\n",
        "  - cb (app.js:27-27)\n",
        "\n=== Classes ===\n",
        "  - Widget (app.js:5-20)\n",
        "\n=== Objects ===\n",
        "  - config (app.js:22-25)\n",
    ]
    .concat();
    assert_eq!(report, expected);
}
