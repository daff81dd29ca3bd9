use danny::backends::JsBackend;
use danny::category_kind::Category;
use danny::findings::{
    AnalysisResult, CircularDependency, ClassMemberKind, CodeSmellDetails, CodeSmellType, ExportKind, Finding,
    NpmDependencyType, SafetyAssessment, SmellSeverity, SourceLocation, Statistics, SymbolKind, SymbolSpan,
    UnreachableModuleMetadata,
};
use danny::report::{category_section, results_lines};
use std::collections::HashMap;

fn s(x: &str) -> String {
    x.to_string()
}

fn create_test_result(findings: Vec<Finding>) -> AnalysisResult {
    let mut statistics = Statistics::default();
    statistics.total_modules = 10;
    statistics.total_dependencies = 20;
    statistics.external_dependencies = 5;
    statistics.frameworks_detected = vec![s("Next.js")];
    statistics.duration_ms = 100;
    AnalysisResult { findings, ignored_findings: vec![], statistics, errors: vec![] }
}

fn group_by_category(result: &AnalysisResult) -> HashMap<Category, Vec<&Finding>> {
    let mut findings_by_category: HashMap<Category, Vec<&Finding>> = HashMap::new();
    for finding in &result.findings {
        findings_by_category.entry(finding.category()).or_default().push(finding);
    }
    findings_by_category
}

fn unused_export(module: &str, name: &str, is_type_only: bool) -> Finding {
    Finding::UnusedExport {
        module: s(module),
        export_name: s(name),
        kind: ExportKind::Named,
        span: None,
        is_type_only,
        explanation: None,
    }
}

#[test]
fn test_category_grouping() {
    let findings = vec![
        Finding::UnreachableFile { path: s("file1.ts"), size: 100, explanation: None },
        unused_export("mod1.ts", "foo", false),
        unused_export("mod2.ts", "Bar", true),
    ];
    let result = create_test_result(findings);
    let findings_by_category = group_by_category(&result);
    assert_eq!(findings_by_category.get(&Category::Files).unwrap().len(), 1);
    assert_eq!(findings_by_category.get(&Category::Exports).unwrap().len(), 1);
    assert_eq!(findings_by_category.get(&Category::Types).unwrap().len(), 1);
}

#[test]
fn test_files_category_mapping() {
    let unreachable_file = Finding::UnreachableFile { path: s("test.ts"), size: 100, explanation: None };
    assert_eq!(unreachable_file.category(), Category::Files);
    let unreachable_module = Finding::UnreachableModule {
        path: s("test.ts"),
        size: 100,
        metadata: UnreachableModuleMetadata {
            has_side_effects: false,
            size_bytes: 100,
            safe_to_delete: true,
            safety_assessment: SafetyAssessment::SafeToDelete,
        },
    };
    assert_eq!(unreachable_module.category(), Category::Files);
}

#[test]
fn test_exports_vs_types_separation() {
    assert_eq!(unused_export("test.ts", "foo", false).category(), Category::Exports);
    assert_eq!(unused_export("test.ts", "Foo", true).category(), Category::Types);
}

#[test]
fn test_symbols_category_mapping() {
    let unused_symbol = Finding::UnusedSymbol {
        module: s("test.ts"),
        symbol_name: s("helperFunction"),
        kind: SymbolKind::Function,
        span: SymbolSpan { file: s("test.ts"), line: 10, column: 0, offset: 150 },
        explanation: None,
    };
    assert_eq!(unused_symbol.category(), Category::Symbols);
    let unused_private_member = Finding::UnusedPrivateClassMember {
        module: s("test.ts"),
        class_name: s("MyClass"),
        member_name: s("_private"),
        member_kind: ClassMemberKind::Property,
        span: SymbolSpan { file: s("test.ts"), line: 5, column: 4, offset: 80 },
    };
    assert_eq!(unused_private_member.category(), Category::Symbols);
}

fn framework_export() -> Finding {
    Finding::FrameworkExport {
        module: s("page.tsx"),
        export_name: s("default"),
        framework: s("Next.js"),
        rule: s("pages_router"),
        explanation: None,
    }
}

#[test]
fn test_framework_category_mapping() {
    assert_eq!(framework_export().category(), Category::Framework);
}

#[test]
fn test_empty_category_handling() {
    let findings = vec![Finding::UnreachableFile { path: s("test.ts"), size: 100, explanation: None }];
    let result = create_test_result(findings);
    let findings_by_category = group_by_category(&result);
    assert!(findings_by_category.contains_key(&Category::Files));
    assert!(!findings_by_category.contains_key(&Category::Exports));
    assert!(!findings_by_category.contains_key(&Category::Symbols));
}

#[test]
fn test_all_categories_have_printers() {
    let result = create_test_result(vec![]);
    for category in Category::all() {
        category_section(&vec![], category, &result.statistics.bundle_size_impact);
    }
}

#[test]
fn test_print_results_does_not_panic_with_empty_result() {
    let result = create_test_result(vec![]);
    results_lines(&result.statistics, &result.findings, "");
}

#[test]
fn test_print_results_does_not_panic_with_all_categories() {
    let findings = vec![
        Finding::UnreachableFile { path: s("test.ts"), size: 100, explanation: None },
        unused_export("mod.ts", "foo", false),
        unused_export("types.ts", "Type", true),
        Finding::UnusedSymbol {
            module: s("utils.ts"),
            symbol_name: s("helper"),
            kind: SymbolKind::Function,
            span: SymbolSpan { file: s("utils.ts"), line: 10, column: 0, offset: 200 },
            explanation: None,
        },
        Finding::UnusedNpmDependency {
            package: s("lodash"),
            version: s("4.17.21"),
            dep_type: NpmDependencyType::Production,
        },
        Finding::SideEffectOnlyImport {
            module: s("index.ts"),
            source: s("polyfill.js"),
            resolved_to: None,
            span: SourceLocation { file: s("index.ts"), start: 0, end: 25 },
        },
        Finding::CircularDependency(CircularDependency {
            cycle: vec![s("a.ts"), s("b.ts"), s("a.ts")],
            all_unreachable: false,
            total_size: 1024,
        }),
        Finding::CodeSmell {
            smell_type: CodeSmellType::LongFunction,
            location: s("code.ts"),
            symbol_name: Some(s("longFunction")),
            line: Some(10),
            column: Some(0),
            details: CodeSmellDetails {
                message: s("Function has 150 lines"),
                recommendation: Some(s("Consider breaking it into smaller functions")),
                current_value: Some(150),
                recommended_threshold: Some(50),
                metadata: vec![],
            },
            severity: SmellSeverity::Warning,
        },
        framework_export(),
    ];
    let result = create_test_result(findings);
    let lines = results_lines(&result.statistics, &result.findings, "");
    assert!(!lines.is_empty());
}

#[test]
fn test_statistics_defaults() {
    let stats = Statistics::default();
    assert_eq!(stats.total_modules, 0);
    assert_eq!(stats.total_dependencies, 0);
    assert_eq!(stats.external_dependencies, 0);
    assert!(stats.frameworks_detected.is_empty());
}

#[test]
fn test_backend_creation() {
    let backend = JsBackend::new();
    assert!(backend.is_ok());
}
