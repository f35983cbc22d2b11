use codegraph::cha::extractor::CallSiteExtractor;
use codegraph::cha::hierarchy::ClassHierarchyBuilder;
use codegraph::cha::types::{AccessModifier, CallType, ClassType, EnhancedClassInfo, MethodSignature, ScopeType};
use codegraph::cha_simple::analysis::SimpleCHA;
use codegraph::cha_simple::types::{SimpleCallSite, SimpleClassInfo};
use codegraph::graph_types::FunctionInfo;
use codegraph::languages::TreeSitterParser;

fn function(id: u128, name: &str, file: &str, start: usize, end: usize, namespace: &str) -> FunctionInfo {
    FunctionInfo {
        id,
        name: name.to_string(),
        file_path: file.to_string(),
        line_start: start,
        line_end: end,
        namespace: namespace.to_string(),
        language: "rust".to_string(),
        signature: None,
        return_type: None,
        parameters: vec![],
    }
}

fn simple_class(id: u128, name: &str, parent: Option<&str>, methods: &[u128]) -> SimpleClassInfo {
    let mut c = SimpleClassInfo::new(id, name.to_string(), "z.rs".to_string(), 1, 9, "z".to_string(), "rust".to_string());
    if let Some(p) = parent {
        c.set_parent_class(p.to_string());
    }
    for m in methods {
        c.add_method(*m);
    }
    c
}

#[test]
fn simple_cha_resolves_through_all_subtypes() {
    let mut cha = SimpleCHA::new();
    cha.add_class(simple_class(1, "Animal", None, &[10]));
    cha.add_class(simple_class(2, "Dog", Some("Animal"), &[20, 20]));
    cha.add_class(simple_class(3, "Puppy", Some("Dog"), &[30, 31]));
    cha.add_function(function(10, "speak", "z.rs", 1, 2, ""));
    cha.add_function(function(20, "speak", "z.rs", 3, 4, ""));
    cha.add_function(function(30, "speak", "z.rs", 5, 6, ""));
    cha.add_function(function(31, "wag", "z.rs", 7, 8, ""));
    cha.add_function(function(40, "helper", "z.rs", 9, 9, ""));
    cha.add_call_site(SimpleCallSite::new(100, 40, "speak".to_string(), 3, "z.rs".to_string()).with_receiver_type("Animal".to_string()));
    cha.add_call_site(SimpleCallSite::new(101, 40, "helper".to_string(), 4, "z.rs".to_string()));
    cha.add_call_site(SimpleCallSite::new(102, 40, "missing".to_string(), 5, "z.rs".to_string()));
    assert!(cha.analyze().is_ok());
    let stats = cha.get_stats();
    assert_eq!(stats.total_call_sites, 3);
    assert_eq!(stats.resolved_calls, 2);
    assert_eq!(stats.unresolved_calls, 1);
    assert_eq!(stats.total_classes, 3);
    assert_eq!(stats.total_functions, 5);
    let relations = cha.build_call_graph().unwrap();
    let mut callees: Vec<(u128, usize)> = relations.iter().map(|r| (r.callee_id, r.line_number)).collect();
    callees.sort();
    assert_eq!(callees, vec![(10, 3), (20, 3), (30, 3), (40, 4)]);
    assert!(relations.iter().all(|r| r.caller_id == 40 && r.is_resolved && r.callee_file == "z.rs"));
}

#[test]
fn simple_class_methods_are_kept_once() {
    let c = simple_class(1, "A", None, &[5, 6, 5]);
    assert_eq!(c.methods, vec![5, 6]);
    assert_eq!(c.parent_class, None);
}

#[test]
fn simple_cha_replaces_classes_and_functions_of_the_same_key() {
    let mut cha = SimpleCHA::default();
    cha.add_class(simple_class(1, "A", None, &[]));
    cha.add_class(simple_class(2, "A", None, &[]));
    cha.add_function(function(7, "f", "a.rs", 1, 1, ""));
    cha.add_function(function(7, "g", "a.rs", 1, 1, ""));
    let stats = cha.get_stats();
    assert_eq!(stats.total_classes, 1);
    assert_eq!(stats.total_functions, 1);
}

fn hierarchy_with_virtual_speak() -> ClassHierarchyBuilder {
    let mut shape = EnhancedClassInfo::new(
        1,
        "Shape".to_string(),
        "s.rs".to_string(),
        1,
        5,
        "geo".to_string(),
        "rust".to_string(),
        ClassType::Class,
    );
    shape.add_method_signature(MethodSignature {
        id: 11,
        name: "area".to_string(),
        parameters: vec![],
        return_type: None,
        is_virtual: true,
        is_override: false,
        base_method: None,
        access_modifier: AccessModifier::Public,
        is_static: false,
    });
    let mut b = ClassHierarchyBuilder::new();
    assert!(b.add_class(shape).is_ok());
    b
}

#[test]
fn containing_class_from_the_namespace() {
    let ex = CallSiteExtractor::default();
    assert_eq!(ex.find_containing_class(&function(1, "f", "a.rs", 1, 2, "crate::geo::Shape::area")).as_deref(), Some("Shape"));
    assert_eq!(ex.find_containing_class(&function(1, "f", "a.rs", 1, 2, "com.example.Shape")).as_deref(), Some("Shape"));
    assert_eq!(ex.find_containing_class(&function(1, "f", "a.rs", 1, 2, "a::")).as_deref(), Some("a"));
    assert_eq!(ex.find_containing_class(&function(1, "f", "a.rs", 1, 2, "plain")), None);
    assert_eq!(ex.find_containing_class(&function(1, "f", "a.rs", 1, 2, "")), None);
}

#[test]
fn call_context_and_kind() {
    let ex = CallSiteExtractor::new(&TreeSitterParser::new(), hierarchy_with_virtual_speak());
    let caller = function(1, "draw", "s.rs", 10, 20, "geo::Shape::draw");
    let ctx = ex.analyze_call_context(&caller).unwrap();
    assert_eq!(ctx.namespace.as_deref(), Some("geo::Shape::draw"));
    assert_eq!(ctx.containing_function.as_deref(), Some("draw"));
    assert_eq!(ctx.containing_class.as_deref(), Some("Shape"));
    assert!(matches!(ctx.scope_type, ScopeType::Class));
    let free = function(2, "main", "m.rs", 1, 5, "");
    let ctx = ex.analyze_call_context(&free).unwrap();
    assert!(ctx.namespace.is_none());
    assert!(matches!(ctx.scope_type, ScopeType::Function));

    assert!(matches!(ex.classify_call_type(&"Shape".to_string(), &caller).unwrap(), CallType::Constructor));
    assert!(matches!(ex.classify_call_type(&"Ärger".to_string(), &free).unwrap(), CallType::Constructor));
    assert!(matches!(ex.classify_call_type(&"area".to_string(), &caller).unwrap(), CallType::Virtual));
    assert!(matches!(ex.classify_call_type(&"area".to_string(), &free).unwrap(), CallType::Function));
    assert!(!ex.is_constructor_call(""));
}

#[test]
fn caller_is_the_first_known_function_holding_the_line() {
    let mut ex = CallSiteExtractor::default();
    ex.add_function(function(1, "outer", "a.rs", 1, 50, ""));
    ex.add_function(function(2, "inner", "a.rs", 10, 20, ""));
    ex.add_function(function(3, "other", "b.rs", 1, 50, ""));
    assert_eq!(ex.find_caller_function(&"a.rs".to_string(), 15).unwrap().unwrap().name, "outer");
    assert_eq!(ex.find_caller_function(&"b.rs".to_string(), 50).unwrap().unwrap().id, 3);
    assert!(ex.find_caller_function(&"a.rs".to_string(), 51).unwrap().is_none());
    ex.add_function(function(1, "renamed", "a.rs", 1, 50, ""));
    assert_eq!(ex.get_function_cache().len(), 3);
    assert_eq!(ex.find_caller_function(&"a.rs".to_string(), 15).unwrap().unwrap().name, "renamed");
}

#[test]
fn call_sites_come_from_calls_a_known_function_makes() {
    let mut ex = CallSiteExtractor::new(&TreeSitterParser::new(), hierarchy_with_virtual_speak());
    ex.add_function(function(1, "draw", "s.rs", 10, 20, "geo::Shape::draw"));
    ex.add_function(function(2, "main", "s.rs", 30, 40, ""));
    let calls = vec![
        ("area".to_string(), 11),
        ("Shape".to_string(), 29),
        ("area".to_string(), 34),
        ("lost".to_string(), 99),
    ];
    let sites = ex.extract_call_sites(&"s.rs".to_string(), &calls).unwrap();
    assert_eq!(sites.len(), 3);
    assert_eq!(sites[0].caller_function, 1);
    assert_eq!(sites[0].line_number, 12);
    assert!(matches!(sites[0].call_type, CallType::Virtual));
    assert_eq!(sites[0].context.containing_class.as_deref(), Some("Shape"));
    assert_eq!(sites[1].caller_function, 2);
    assert_eq!(sites[1].line_number, 30);
    assert!(matches!(sites[1].call_type, CallType::Constructor));
    assert!(matches!(sites[2].call_type, CallType::Function));
    assert!(sites.iter().all(|s| s.file_path == "s.rs" && s.receiver_type.is_none() && s.parameters.is_empty()));
    assert!(sites[0].id != sites[1].id);
    assert!(ex.analyze_function_call(&"area".to_string(), 0, &"s.rs".to_string()).unwrap().is_none());
}
