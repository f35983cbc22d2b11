use codegraph::analyzers::common::{char_is_whitespace, NamedCapture, Position, SyntaxNode};
use codegraph::analyzers::java::{collect_method_definitions, MethodNode};
use codegraph::analyzers::python::{collect_function_definitions, PythonFunctionMatch};
use codegraph::analyzers::rust::collect_struct_enum_trait_definitions;
use codegraph::queries::java::{JavaAnalysisResult, JavaSnippetType};
use codegraph::queries::python::{PythonAnalysisResult, PythonSnippetType};
use codegraph::queries::rust::{RustAnalysisResult, RustSnippetType};

fn pos(row: usize, column: usize) -> Position {
    Position { row, column }
}

fn node(kind: &str, text: &str, start: Position, end: Position) -> SyntaxNode {
    SyntaxNode { kind: kind.to_string(), text: text.to_string(), start, end }
}

fn cap(name: &str, text: &str, start: Position, end: Position) -> NamedCapture {
    NamedCapture { capture_name: name.to_string(), text: text.to_string(), start, end }
}

fn empty_java() -> JavaAnalysisResult {
    JavaAnalysisResult {
        snippets: vec![],
        method_calls: vec![],
        scopes: vec![],
        imports: vec![],
        packages: vec![("com.shapes".to_string(), vec![])],
        classes: vec![],
        interfaces: vec![],
    }
}

#[test]
fn java_methods_are_taken_from_declarations_with_a_name() {
    let area = MethodNode {
        kind: "method_declaration".to_string(),
        text: "public int area(int w, int h) { return w * h; }".to_string(),
        children: vec![
            node("modifiers", "public", pos(2, 4), pos(2, 10)),
            node("type", "int", pos(2, 11), pos(2, 14)),
            node("identifier", "area", pos(2, 15), pos(2, 19)),
            node("identifier", "ignored", pos(2, 20), pos(2, 21)),
            node("formal_parameters", "(int w, int h)", pos(2, 19), pos(2, 33)),
            node("block", "{ return w * h; }", pos(2, 34), pos(4, 5)),
        ],
    };
    let nameless = MethodNode {
        kind: "method_declaration".to_string(),
        text: "void () {}".to_string(),
        children: vec![node("block", "{}", pos(6, 0), pos(6, 2))],
    };
    let field = MethodNode {
        kind: "field_declaration".to_string(),
        text: "int x;".to_string(),
        children: vec![node("identifier", "x", pos(8, 4), pos(8, 5))],
    };
    let bare = MethodNode {
        kind: "method_declaration".to_string(),
        text: "abstract void run();".to_string(),
        children: vec![node("identifier", "run", pos(9, 14), pos(9, 17))],
    };
    let mut result = empty_java();
    let scopes = collect_method_definitions(&vec![area, nameless, field, bare], &"Shape.java".to_string(), &mut result);
    assert_eq!(scopes.len(), 2);
    assert_eq!(scopes[0].name, "area");
    assert_eq!(scopes[0].params, vec!["int w".to_string(), "int h".to_string()]);
    assert_eq!(scopes[0].body_start, pos(2, 34));
    assert_eq!(scopes[0].body_end, pos(4, 5));
    assert_eq!(scopes[0].package_name, Some("com.shapes".to_string()));
    assert_eq!(scopes[1].name, "run");
    assert!(scopes[1].params.is_empty());
    assert_eq!(scopes[1].body_start, pos(0, 0));
    assert_eq!(result.snippets.len(), 2);
    assert_eq!(result.snippets[0].snippet_type, JavaSnippetType::Method);
    assert_eq!(result.snippets[0].content, "public int area(int w, int h) { return w * h; }");
    assert_eq!((result.snippets[0].start_line, result.snippets[0].end_line), (2, 4));
    assert_eq!(result.snippets[0].file_path, "Shape.java");
    assert_eq!(result.scopes.len(), 2);
    assert_eq!(result.scopes[1].name, "run");
    assert_eq!(result.scopes[1].scope_type, JavaSnippetType::Method);
}

#[test]
fn python_functions_come_from_matches_with_a_name() {
    let m = PythonFunctionMatch {
        captures: vec![
            cap("function.definition", "def area(w, h) -> int:\n    return w * h", pos(1, 0), pos(2, 16)),
            cap("function.name", "area", pos(1, 4), pos(1, 8)),
            cap("function.params", "(w, h)", pos(1, 8), pos(1, 14)),
            cap("function.return_type", "int", pos(1, 18), pos(1, 21)),
            cap("function.body", "return w * h", pos(2, 4), pos(2, 16)),
        ],
    };
    let unnamed = PythonFunctionMatch { captures: vec![cap("function.body", "pass", pos(5, 4), pos(5, 8))] };
    let mut result = PythonAnalysisResult {
        snippets: vec![],
        function_calls: vec![],
        scopes: vec![],
        imports: vec![],
        modules: vec![],
        classes: vec![],
    };
    let scopes = collect_function_definitions(&vec![m, unnamed], &"geo.py".to_string(), &mut result);
    assert_eq!(scopes.len(), 1);
    assert_eq!(scopes[0].name, "area");
    assert_eq!(scopes[0].params, vec!["w".to_string(), "h".to_string()]);
    assert_eq!(scopes[0].body_start, pos(2, 4));
    assert_eq!(result.snippets.len(), 1);
    assert_eq!(result.snippets[0].snippet_type, PythonSnippetType::Function);
    assert_eq!(result.snippets[0].content, "def area(w, h) -> int:\n    return w * h");
    assert_eq!(result.snippets[0].return_type, Some("int".to_string()));
    assert_eq!((result.snippets[0].start_line, result.snippets[0].end_column), (2, 16));
    assert_eq!(result.scopes.len(), 1);
    assert_eq!(result.scopes[0].name, "area");
}

#[test]
fn rust_structs_enums_and_traits_are_recorded_by_name() {
    let mut result = RustAnalysisResult {
        snippets: vec![],
        method_calls: vec![],
        scopes: vec![],
        imports: vec![],
        modules: vec![],
        structs: vec![],
        enums: vec![],
        traits: vec![],
        macros: vec![],
        types: vec![],
    };
    let structs = vec![
        cap("struct.definition", "struct Point { x: i32 }", pos(0, 0), pos(0, 23)),
        cap("struct.name", "Point", pos(0, 7), pos(0, 12)),
    ];
    let enums = vec![cap("enum.name", "Shape", pos(2, 5), pos(2, 10))];
    let traits = vec![cap("trait.name", "Area", pos(4, 6), pos(4, 10)), cap("trait.name", "Draw", pos(6, 6), pos(6, 10))];
    collect_struct_enum_trait_definitions(&structs, &enums, &traits, &"geo.rs".to_string(), &mut result);
    assert_eq!(result.structs, vec![("Point".to_string(), vec!["geo.rs".to_string()])]);
    assert_eq!(result.enums, vec![("Shape".to_string(), vec!["geo.rs".to_string()])]);
    assert_eq!(result.traits.len(), 2);
    let kinds: Vec<RustSnippetType> = result.snippets.iter().map(|s| s.snippet_type).collect();
    assert_eq!(kinds, vec![RustSnippetType::Struct, RustSnippetType::Enum, RustSnippetType::Trait, RustSnippetType::Trait]);
    assert_eq!(result.snippets[0].name, "Point");
    assert_eq!(result.snippets[0].content, "Point");
    assert_eq!((result.snippets[3].start_line, result.snippets[3].end_line), (6, 6));
}

#[test]
fn white_space_is_what_std_says_it_is() {
    for u in 0u32..=0x10FFFF {
        if let Some(c) = char::from_u32(u) {
            assert_eq!(char_is_whitespace(c), c.is_whitespace(), "{:#x}", u);
        }
    }
}
