use codegraph::cha::analysis::{ClassHierarchyAnalysis, ResolutionType as AnalysisResolution};
use codegraph::cha::hierarchy::ClassHierarchyBuilder;
use codegraph::cha::language_extensions::{ImplBlockInfo, RustCHAExtender, TraitInfo};
use codegraph::cha::types::{
    AccessModifier, CallContext, CallSite, CallType, ClassType, EnhancedClassInfo, InheritanceEdgeType,
    MethodSignature, ScopeType,
};

fn class(id: u128, name: &str) -> EnhancedClassInfo {
    EnhancedClassInfo::new(
        id,
        name.to_string(),
        "shapes.rs".to_string(),
        1,
        5,
        "shapes".to_string(),
        "rust".to_string(),
        ClassType::Class,
    )
}

fn method(id: u128, name: &str, is_virtual: bool, is_static: bool) -> MethodSignature {
    MethodSignature {
        id,
        name: name.to_string(),
        parameters: Vec::new(),
        return_type: None,
        is_virtual,
        is_override: false,
        base_method: None,
        access_modifier: AccessModifier::Public,
        is_static,
    }
}

/// Animal <- Dog <- Puppy, each with its own `speak`.
fn zoo() -> ClassHierarchyBuilder {
    let mut animal = class(1, "Animal");
    animal.add_method_signature(method(101, "speak", true, false));
    animal.add_method_signature(method(102, "create", false, true));
    let mut dog = class(2, "Dog");
    dog.add_parent_class("Animal".to_string());
    dog.add_method_signature(method(201, "speak", true, false));
    let mut puppy = class(3, "Puppy");
    puppy.add_parent_class("Dog".to_string());
    puppy.add_method_signature(method(301, "speak", true, false));
    let mut builder = ClassHierarchyBuilder::new();
    assert!(builder.build_hierarchy(vec![animal, dog, puppy]).is_ok());
    builder
}

#[test]
fn subtyping_is_reflexive_and_transitive() {
    let b = zoo();
    assert!(b.is_subtype_of(&"Animal".to_string(), &"Animal".to_string()));
    assert!(b.is_subtype_of(&"Puppy".to_string(), &"Dog".to_string()));
    assert!(b.is_subtype_of(&"Dog".to_string(), &"Animal".to_string()));
    assert!(b.is_subtype_of(&"Puppy".to_string(), &"Animal".to_string()));
    assert!(!b.is_subtype_of(&"Animal".to_string(), &"Puppy".to_string()));
    assert!(!b.is_subtype_of(&"Cat".to_string(), &"Cat".to_string()));
}

#[test]
fn base_classes_and_depth() {
    let b = zoo();
    let mut bases = b.get_all_base_classes(&"Puppy".to_string());
    bases.sort();
    assert_eq!(bases, vec!["Animal".to_string(), "Dog".to_string()]);
    assert!(b.get_all_base_classes(&"Animal".to_string()).is_empty());
    assert_eq!(b.get_class_depth(&"Puppy".to_string()), 2);
    assert_eq!(b.get_class_depth(&"Animal".to_string()), 0);
    let stats = b.get_hierarchy_stats();
    assert_eq!(stats.total_classes, 3);
    assert_eq!(stats.max_depth, 2);
    assert_eq!(stats.classes_with_parents, 2);
}

#[test]
fn direct_sub_and_supertypes() {
    let b = zoo();
    assert_eq!(b.get_subtypes(&"Animal".to_string()), vec!["Dog".to_string()]);
    assert_eq!(b.get_supertypes(&"Puppy".to_string()), vec!["Dog".to_string()]);
    assert!(b.get_subtypes(&"Puppy".to_string()).is_empty());
}

#[test]
fn method_lookup_covers_receiver_and_all_subtypes() {
    let b = zoo();
    assert_eq!(b.find_method_implementations(&"speak".to_string(), &"Animal".to_string()), vec![101, 201, 301]);
    assert_eq!(b.find_method_implementations(&"speak".to_string(), &"Puppy".to_string()), vec![301]);
    assert!(b.find_method_implementations(&"fly".to_string(), &"Animal".to_string()).is_empty());
    assert_eq!(b.resolve_virtual_call(&"speak".to_string(), &"Dog".to_string()), vec![201, 301]);
}

#[test]
fn a_method_only_in_a_grandchild_is_found_from_the_root() {
    let a = class(1, "A");
    let mut bb = class(2, "B");
    bb.add_parent_class("A".to_string());
    let mut c = class(3, "C");
    c.add_parent_class("B".to_string());
    c.add_method_signature(method(77, "m", true, false));
    let mut b = ClassHierarchyBuilder::new();
    assert!(b.build_hierarchy(vec![a, bb, c]).is_ok());
    assert_eq!(b.find_method_implementations(&"m".to_string(), &"A".to_string()), vec![77]);
    assert_eq!(b.resolve_virtual_call(&"m".to_string(), &"B".to_string()), vec![77]);
    assert!(b.find_method_implementations(&"m".to_string(), &"Z".to_string()).is_empty());
}

#[test]
fn a_parent_cycle_is_reported() {
    let mut x = class(1, "A");
    x.add_parent_class("B".to_string());
    let mut y = class(2, "B");
    y.add_parent_class("A".to_string());
    let mut b = ClassHierarchyBuilder::new();
    let msg = b.build_hierarchy(vec![x, y]).unwrap_err();
    assert!(msg.starts_with("Circular dependency detected"), "{}", msg);
}

#[test]
fn direct_subtypes_come_before_deeper_ones() {
    // Root <- Mid <- Leaf, and Root <- Side added last: Side is a direct subtype.
    let mut root = class(1, "Root");
    root.add_method_signature(method(10, "run", true, false));
    let mut mid = class(2, "Mid");
    mid.add_parent_class("Root".to_string());
    mid.add_method_signature(method(20, "run", true, false));
    let mut leaf = class(3, "Leaf");
    leaf.add_parent_class("Mid".to_string());
    leaf.add_method_signature(method(30, "run", true, false));
    let mut side = class(4, "Side");
    side.add_parent_class("Root".to_string());
    side.add_method_signature(method(40, "run", true, false));
    let mut b = ClassHierarchyBuilder::new();
    assert!(b.build_hierarchy(vec![root, mid, leaf, side]).is_ok());
    assert_eq!(b.find_method_implementations(&"run".to_string(), &"Root".to_string()), vec![10, 40, 20, 30]);
}

#[test]
fn added_class_is_found_and_replaces_its_namesake() {
    let mut b = ClassHierarchyBuilder::new();
    assert!(b.add_class(class(1, "Shape")).is_ok());
    assert_eq!(b.find_class_by_name(&"Shape".to_string()).unwrap().id, 1);
    assert!(b.add_class(class(9, "Shape")).is_ok());
    assert_eq!(b.find_class_by_name(&"Shape".to_string()).unwrap().id, 9);
    assert_eq!(b.get_all_classes().len(), 1);
    assert!(b.find_class_by_name(&"Circle".to_string()).is_none());
    assert_eq!(b.get_all_class_names(), vec!["Shape".to_string()]);
}

#[test]
fn interface_cycle_is_refused() {
    let mut a = class(1, "A");
    a.implemented_interfaces.push("B".to_string());
    let mut bb = class(2, "B");
    bb.implemented_interfaces.push("A".to_string());
    let mut builder = ClassHierarchyBuilder::new();
    let res = builder.build_hierarchy(vec![a, bb]);
    let msg = res.unwrap_err();
    assert!(msg.starts_with("Circular dependency detected: Cycle(NodeIndex("), "{}", msg);
    assert!(msg == "Circular dependency detected: Cycle(NodeIndex(0))"
        || msg == "Circular dependency detected: Cycle(NodeIndex(1))", "{}", msg);
}

fn site(id: u128, callee: &str, call_type: CallType, receiver: Option<&str>) -> CallSite {
    let s = CallSite::new(id, 500, callee.to_string(), call_type, 7, "main.rs".to_string());
    match receiver {
        Some(r) => s.with_receiver_type(r.to_string()),
        None => s,
    }
}

#[test]
fn analysis_resolves_by_call_kind_and_counts_each_site_once() {
    let sites = vec![
        site(1, "speak", CallType::Virtual, Some("Animal")),
        site(2, "create", CallType::Static, None),
        site(3, "helper", CallType::Function, None),
        site(4, "Dog", CallType::Constructor, None),
    ];
    let mut analysis = ClassHierarchyAnalysis::new(zoo(), sites);
    assert!(analysis.analyze().is_ok());
    let stats = analysis.get_stats();
    assert_eq!(stats.total_call_sites, 4);
    assert_eq!(stats.resolved_calls + stats.unresolved_calls, 4);
    assert_eq!(stats.resolved_calls, 2);
    let r1 = analysis.get_method_resolution_result(&1).unwrap();
    assert_eq!(r1.target_methods, vec![101, 201, 301]);
    assert!(matches!(r1.resolution_type, AnalysisResolution::Virtual));
    let r2 = analysis.get_method_resolution_result(&2).unwrap();
    assert_eq!(r2.target_methods, vec![102]);
    assert!(matches!(r2.resolution_type, AnalysisResolution::Direct));
    assert!(analysis.get_method_resolution_result(&3).is_none());
    assert!(analysis.get_method_resolution_result(&4).is_none());
    assert_eq!(analysis.validate_results().unwrap_err(), "Validation errors: 2 call sites remain unresolved");
    let summary = analysis.get_analysis_summary();
    assert!(summary.contains("Total Call Sites: 4"), "{}", summary);
}

#[test]
fn virtual_call_without_receiver_fails_the_analysis() {
    let sites = vec![site(1, "speak", CallType::Virtual, None)];
    let mut analysis = ClassHierarchyAnalysis::new(zoo(), sites);
    assert_eq!(analysis.analyze().unwrap_err(), "No receiver type for virtual call at line 7");
}

#[test]
fn call_context_builders_set_one_field() {
    let c = CallContext::default();
    assert!(matches!(c.scope_type, ScopeType::Global));
    let c = c.with_namespace("ns".to_string());
    assert_eq!(c.namespace.as_deref(), Some("ns"));
    assert!(c.containing_class.is_none());
    let c = c.with_containing_function("f".to_string());
    assert!(matches!(c.scope_type, ScopeType::Function));
    let c = c.with_containing_class("K".to_string());
    assert!(matches!(c.scope_type, ScopeType::Class));
    assert_eq!(c.containing_class.as_deref(), Some("K"));
    assert_eq!(c.containing_function.as_deref(), Some("f"));
}

#[test]
fn trait_resolution_falls_back_to_every_class() {
    let b = zoo();
    let ext = RustCHAExtender::new();
    let with_receiver = site(1, "speak", CallType::TraitMethod, Some("Dog"));
    assert_eq!(ext.resolve_trait_method(&with_receiver, &b).unwrap(), vec![201, 301]);
    let without = site(2, "create", CallType::TraitMethod, None);
    assert_eq!(ext.resolve_trait_method(&without, &b).unwrap(), vec![102]);
    let unknown = site(3, "speak", CallType::TraitMethod, Some("Rock"));
    assert_eq!(ext.resolve_trait_method(&unknown, &b).unwrap(), vec![101, 201, 301, 201, 301, 301]);
}

#[test]
fn impl_resolution_uses_the_impl_block_of_the_callee() {
    let b = zoo();
    let mut ext = RustCHAExtender::new();
    assert!(ext.resolve_impl_method(&site(1, "speak", CallType::Method, None), &b).unwrap().is_empty());
    ext.impl_resolver.impl_blocks.push((
        "speak".to_string(),
        ImplBlockInfo { target_types: vec!["Puppy".to_string()], methods: vec![], trait_name: None },
    ));
    assert_eq!(ext.resolve_impl_method(&site(1, "speak", CallType::Method, None), &b).unwrap(), vec![301]);
    ext.trait_resolver.traits.push((
        "Speak".to_string(),
        TraitInfo { name: "Speak".to_string(), methods: vec!["speak".to_string()], super_traits: vec![] },
    ));
    ext.trait_resolver.trait_implementations.push(("Speak".to_string(), vec!["Dog".to_string()]));
    let t = ext.trait_resolver.find_trait("Speak").unwrap().clone();
    assert_eq!(ext.trait_resolver.find_implementing_types(&t), vec!["Dog".to_string()]);
    assert!(ext.trait_resolver.find_trait("Fly").is_none());
    assert!(ext.analyze_rust_structure(&[class(5, "X")]).is_ok());
    assert_eq!(ext.impl_resolver.impl_blocks.len(), 1);
}

fn graph_function(id: u128, name: &str, file: &str) -> codegraph::graph_types::FunctionInfo {
    codegraph::graph_types::FunctionInfo {
        id,
        name: name.to_string(),
        file_path: file.to_string(),
        line_start: 1,
        line_end: 2,
        namespace: String::new(),
        language: "rust".to_string(),
        signature: None,
        return_type: None,
        parameters: vec![],
    }
}

#[test]
fn call_graph_links_resolved_sites_to_known_targets() {
    let sites = vec![
        site(1, "speak", CallType::Virtual, Some("Animal")),
        site(2, "create", CallType::Static, None),
        site(3, "helper", CallType::Function, None),
    ];
    let mut analysis = ClassHierarchyAnalysis::new(zoo(), sites);
    assert!(analysis.analyze().is_ok());
    let functions = vec![
        graph_function(101, "speak", "animal.rs"),
        graph_function(301, "speak", "puppy.rs"),
        graph_function(102, "create", "factory.rs"),
    ];
    let relations = analysis.build_call_graph(&functions).unwrap();
    let got: Vec<(u128, u128, String, String)> = relations
        .iter()
        .map(|r| (r.caller_id, r.callee_id, r.callee_name.clone(), r.callee_file.clone()))
        .collect();
    assert_eq!(
        got,
        vec![
            (500, 101, "speak".to_string(), "animal.rs".to_string()),
            (500, 301, "speak".to_string(), "puppy.rs".to_string()),
            (500, 102, "create".to_string(), "factory.rs".to_string()),
        ]
    );
    assert!(relations.iter().all(|r| r.is_resolved && r.caller_name.is_empty() && r.caller_file == "main.rs" && r.line_number == 7));
}

#[test]
fn inheritance_edges_carry_their_kind() {
    let shape = class(1, "Shape");
    let drawable = class(2, "Drawable");
    let mut circle = class(3, "Circle");
    circle.add_parent_class("Shape".to_string());
    circle.implemented_interfaces.push("Drawable".to_string());
    let mut b = ClassHierarchyBuilder::new();
    assert!(b.build_hierarchy(vec![shape, drawable, circle]).is_ok());
    let g = b.get_inheritance_graph();
    let kinds: Vec<InheritanceEdgeType> = g.edge_weights().map(|e| e.edge_type).collect();
    assert_eq!(kinds, vec![InheritanceEdgeType::Extends, InheritanceEdgeType::Implements]);
}
