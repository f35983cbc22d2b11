use codegraph::cha::analysis::ClassHierarchyAnalysis;
use codegraph::cha::extractor::CallSiteExtractor;
use codegraph::cha::hierarchy::ClassHierarchyBuilder;
use codegraph::cha::language_extensions::{CppCHAExtender, JavaCHAExtender, RustCHAExtender};
use codegraph::cha::types::{ClassType, EnhancedClassInfo};
use codegraph::cha_simple::analysis::SimpleCHA;
use codegraph::cha_simple::types::SimpleClassInfo;
use codegraph::graph_types::CodeGraphStats;
use codegraph::parser::CodeParser;

#[test]
fn test_rust_cha_extender_creation() {
    let extender = RustCHAExtender::new();
    assert!(extender.trait_resolver.traits.is_empty());
}

#[test]
fn test_java_cha_extender_creation() {
    let extender = JavaCHAExtender::new();
    assert!(extender.interface_resolver.interfaces.is_empty());
}

#[test]
fn test_cpp_cha_extender_creation() {
    let extender = CppCHAExtender::new();
    assert!(extender.template_resolver.templates.is_empty());
}

#[test]
fn test_language_detection() {
    let parser = CodeParser::new();

    assert_eq!(parser._detect_language_key("test.rs"), "rust");
    assert_eq!(parser._detect_language_key("lib.rs"), "rust");

    assert_eq!(parser._detect_language_key("test.py"), "python");
    assert_eq!(parser._detect_language_key("main.py"), "python");

    assert_eq!(parser._detect_language_key("test.js"), "javascript");
    assert_eq!(parser._detect_language_key("app.jsx"), "javascript");

    assert_eq!(parser._detect_language_key("test.ts"), "typescript");
    assert_eq!(parser._detect_language_key("component.tsx"), "typescript");

    assert_eq!(parser._detect_language_key("Test.java"), "java");

    assert_eq!(parser._detect_language_key("test.cpp"), "cpp");
    assert_eq!(parser._detect_language_key("header.h"), "cpp");

    assert_eq!(parser._detect_language_key("test.txt"), "unknown");
    assert_eq!(parser._detect_language_key("README"), "unknown");
}

#[test]
fn test_stats_default() {
    let stats = CodeGraphStats::default();

    assert_eq!(stats.total_functions, 0);
    assert_eq!(stats.total_files, 0);
    assert_eq!(stats.total_languages, 0);
    assert_eq!(stats.resolved_calls, 0);
    assert_eq!(stats.unresolved_calls, 0);
}

#[test]
fn test_basic_hierarchy_building() {
    let mut builder = ClassHierarchyBuilder::new();

    let base_class = EnhancedClassInfo::new(
        1,
        "BaseClass".to_string(),
        "test.rs".to_string(),
        1,
        10,
        "test".to_string(),
        "rust".to_string(),
        ClassType::Class,
    );

    let derived_class = EnhancedClassInfo::new(
        2,
        "DerivedClass".to_string(),
        "test.rs".to_string(),
        12,
        20,
        "test".to_string(),
        "rust".to_string(),
        ClassType::Class,
    );

    let mut derived = derived_class.clone();
    derived.add_parent_class("BaseClass".to_string());

    let classes = vec![base_class, derived];
    assert!(builder.build_hierarchy(classes).is_ok());

    let subtypes = builder.get_subtypes(&"BaseClass".to_string());
    assert_eq!(subtypes.len(), 1);
    assert_eq!(subtypes[0], "DerivedClass");

    let supertypes = builder.get_supertypes(&"DerivedClass".to_string());
    assert_eq!(supertypes.len(), 1);
    assert_eq!(supertypes[0], "BaseClass");
}

#[test]
fn test_cha_analysis_creation() {
    let analysis = ClassHierarchyAnalysis::default();
    assert_eq!(analysis.get_all_call_sites().len(), 0);
    assert_eq!(analysis.get_resolved_calls().len(), 0);
}

#[test]
fn test_analysis_summary() {
    let analysis = ClassHierarchyAnalysis::default();
    let summary = analysis.get_analysis_summary();
    assert!(summary.contains("CHA Analysis Summary"));
    assert!(summary.contains("Total Call Sites: 0"));
}

#[test]
fn test_call_site_extractor_creation() {
    let extractor = CallSiteExtractor::default();
    assert_eq!(extractor.get_function_cache().len(), 0);
    assert_eq!(extractor.get_class_cache().len(), 0);
}

#[test]
fn test_reference_expression_detection() {
    let extractor = CallSiteExtractor::default();

    assert!(extractor.is_reference_expression("&var"));
    assert!(extractor.is_reference_expression("*ptr"));
    assert!(!extractor.is_reference_expression("var"));
}

#[test]
fn test_simple_cha_creation() {
    let cha = SimpleCHA::new();
    let stats = cha.get_stats();
    assert_eq!(stats.total_classes, 0);
    assert_eq!(stats.total_call_sites, 0);
}

#[test]
fn test_class_addition() {
    let mut cha = SimpleCHA::new();
    let class = SimpleClassInfo::new(
        7,
        "TestClass".to_string(),
        "test.rs".to_string(),
        1,
        10,
        "test".to_string(),
        "rust".to_string(),
    );

    cha.add_class(class);
    assert_eq!(cha.get_stats().total_classes, 1);
}
