use danny::analyzers::{
    CategorizedExports, DependencyChainAnalyzer, DynamicImportAnalyzer, SideEffectAnalyzer, TypeOnlyAnalyzer,
    UnusedExport,
};
use danny::bundle::{BundleSizeAnalyzer, FindingEnricher};
use danny::findings::{DynamicImportInfo, SafetyAssessment};

fn s(x: &str) -> String {
    x.to_string()
}

fn dyn_import(from: &str, to: &str, source: &str) -> DynamicImportInfo {
    DynamicImportInfo { from: s(from), to: s(to), source: s(source), creates_chunk: true }
}

#[test]
fn test_extract_dynamic_imports() {
    let imports = vec![(s("app.ts"), s("dashboard.ts"), s("./dashboard"), false)];
    let dynamics = DynamicImportAnalyzer::extract_dynamic_imports(imports);
    assert_eq!(dynamics.len(), 1);
    assert_eq!(dynamics[0].source, "./dashboard");
    assert!(dynamics[0].creates_chunk);
}

#[test]
fn extract_dynamic_imports_marks_external_targets() {
    let imports = vec![
        (s("app.ts"), s("react"), s("react"), true),
        (s("app.ts"), s("page.ts"), s("./page"), false),
    ];
    let dynamics = DynamicImportAnalyzer::extract_dynamic_imports(imports);
    assert_eq!(dynamics.len(), 2);
    assert!(!dynamics[0].creates_chunk);
    assert_eq!(dynamics[1].to, "page.ts");
    assert_eq!(dynamics[1].from, "app.ts");
    assert!(dynamics[1].creates_chunk);
}

#[test]
fn test_group_by_parent() {
    let imports = vec![dyn_import("a.ts", "b.ts", "./b"), dyn_import("a.ts", "c.ts", "./c")];
    let grouped = DynamicImportAnalyzer::group_by_parent(imports);
    assert_eq!(grouped.len(), 1);
    let a = grouped.iter().find(|(k, _)| k == "a.ts").unwrap();
    assert_eq!(a.1.len(), 2);
}

#[test]
fn group_by_parent_keeps_each_parent_once() {
    let imports = vec![
        dyn_import("a.ts", "b.ts", "./b"),
        dyn_import("x.ts", "y.ts", "./y"),
        dyn_import("a.ts", "c.ts", "./c"),
    ];
    let grouped = DynamicImportAnalyzer::group_by_parent(imports);
    assert_eq!(grouped.len(), 2);
    let a = grouped.iter().find(|(k, _)| k == "a.ts").unwrap();
    assert_eq!(a.1.len(), 2);
    assert_eq!(a.1[0].to, "b.ts");
    assert_eq!(a.1[1].to, "c.ts");
    let x = grouped.iter().find(|(k, _)| k == "x.ts").unwrap();
    assert_eq!(x.1.len(), 1);
}

#[test]
fn test_lazy_loading_potential() {
    let imports = vec![dyn_import("app.ts", "page1.ts", "./page1"), dyn_import("app.ts", "page2.ts", "./page2")];
    let sizes = vec![(s("page1.ts"), 10000usize), (s("page2.ts"), 15000usize)];
    let potential = DynamicImportAnalyzer::calculate_lazy_loading_potential(&imports, &sizes);
    assert_eq!(potential, 25000);
}

#[test]
fn lazy_loading_potential_ignores_unknown_sizes() {
    let imports = vec![dyn_import("app.ts", "page1.ts", "./page1"), dyn_import("app.ts", "gone.ts", "./gone")];
    let sizes = vec![(s("page1.ts"), 700usize)];
    assert_eq!(DynamicImportAnalyzer::calculate_lazy_loading_potential(&imports, &sizes), 700);
    assert_eq!(DynamicImportAnalyzer::calculate_lazy_loading_potential(&[], &sizes), 0);
}

#[test]
fn test_safe_to_delete_no_side_effects() {
    let a = SideEffectAnalyzer::assess_safety(false, false, "src/utils.ts", &vec![]);
    assert_eq!(a, SafetyAssessment::SafeToDelete);
}

#[test]
fn test_unsafe_entry_point() {
    let a = SideEffectAnalyzer::assess_safety(false, true, "src/index.ts", &vec![]);
    assert!(matches!(a, SafetyAssessment::Unsafe(_)));
}

#[test]
fn test_review_carefully_side_effects() {
    let a = SideEffectAnalyzer::assess_safety(true, false, "src/setup.ts", &vec![]);
    assert!(matches!(a, SafetyAssessment::ReviewCarefully(_)));
}

#[test]
fn test_review_carefully_dynamic_import() {
    let dynamic_imports = vec![s("src/dynamic.ts")];
    let a = SideEffectAnalyzer::assess_safety(false, false, "src/dynamic.ts", &dynamic_imports);
    assert!(matches!(a, SafetyAssessment::ReviewCarefully(_)));
}

#[test]
fn test_unsafe_config_file() {
    let a = SideEffectAnalyzer::assess_safety(false, false, "package.json", &vec![]);
    assert!(matches!(a, SafetyAssessment::Unsafe(_)));
}

#[test]
fn test_is_config_file_detection() {
    assert!(SideEffectAnalyzer::is_config_file("package.json"));
    assert!(SideEffectAnalyzer::is_config_file("tsconfig.json"));
    assert!(SideEffectAnalyzer::is_config_file("next.config.js"));
    assert!(!SideEffectAnalyzer::is_config_file("src/config.ts"));
}

#[test]
fn assess_safety_reasons_and_precedence() {
    let dynamic_imports = vec![s("vite.config.ts")];
    assert_eq!(
        SideEffectAnalyzer::assess_safety(true, true, "vite.config.ts", &dynamic_imports),
        SafetyAssessment::Unsafe(s("Entry point"))
    );
    assert_eq!(
        SideEffectAnalyzer::assess_safety(true, false, "vite.config.ts", &dynamic_imports),
        SafetyAssessment::Unsafe(s("Configuration file"))
    );
    assert_eq!(
        SideEffectAnalyzer::assess_safety(true, false, "src/a.ts", &vec![s("src/a.ts")]),
        SafetyAssessment::ReviewCarefully(s("Dynamically imported"))
    );
    assert_eq!(
        SideEffectAnalyzer::assess_safety(true, false, "src/a.ts", &vec![]),
        SafetyAssessment::ReviewCarefully(s("Module has side effects"))
    );
    assert!(SideEffectAnalyzer::is_config_file("src/.eslintrc.json"));
    assert!(!SideEffectAnalyzer::is_config_file(""));
}

#[test]
fn test_categorize_type_only() {
    let exports = vec![
        UnusedExport { module: s("types.ts"), name: s("UserType"), is_type_only: true },
        UnusedExport { module: s("utils.ts"), name: s("calculate"), is_type_only: false },
    ];
    let categorized: CategorizedExports = TypeOnlyAnalyzer::categorize_exports(exports);
    assert_eq!(categorized.type_only.len(), 1);
    assert_eq!(categorized.runtime.len(), 1);
    assert_eq!(categorized.type_only[0].name, "UserType");
    assert_eq!(categorized.runtime[0].name, "calculate");
}

#[test]
fn test_all_runtime() {
    let exports = vec![UnusedExport { module: s("a.ts"), name: s("foo"), is_type_only: false }];
    let categorized = TypeOnlyAnalyzer::categorize_exports(exports);
    assert_eq!(categorized.type_only.len(), 0);
    assert_eq!(categorized.runtime.len(), 1);
}

#[test]
fn test_calculate_impact() {
    let modules = vec![(s("a.ts"), 1000usize, false), (s("b.ts"), 2000usize, true), (s("c.ts"), 500usize, false)];
    let impact = BundleSizeAnalyzer::calculate_impact(modules);
    assert_eq!(impact.total_savings_bytes, 3500);
    assert_eq!(impact.safe_savings_bytes, 1500);
    assert_eq!(impact.by_module.len(), 3);
    assert_eq!(impact.by_module[0].size_bytes, 2000);
}

#[test]
fn bundle_size_test_format_bytes() {
    assert_eq!(BundleSizeAnalyzer::format_bytes(500), "500 bytes");
    assert_eq!(BundleSizeAnalyzer::format_bytes(1536), "1.5 KB");
    assert_eq!(BundleSizeAnalyzer::format_bytes(2_097_152), "2.00 MB");
}

#[test]
fn test_empty_modules() {
    let impact = BundleSizeAnalyzer::calculate_impact(vec![]);
    assert_eq!(impact.total_savings_bytes, 0);
    assert_eq!(impact.safe_savings_bytes, 0);
    assert!(impact.by_module.is_empty());
}

#[test]
fn calculate_impact_sort_is_stable_and_descending() {
    let modules = vec![
        (s("a.ts"), 10usize, false),
        (s("b.ts"), 30usize, true),
        (s("c.ts"), 10usize, true),
        (s("d.ts"), 20usize, false),
    ];
    let impact = BundleSizeAnalyzer::calculate_impact(modules);
    let order: Vec<&str> = impact.by_module.iter().map(|m| m.path.as_str()).collect();
    assert_eq!(order, vec!["b.ts", "d.ts", "a.ts", "c.ts"]);
    assert!(impact.safe_savings_bytes <= impact.total_savings_bytes);
    assert_eq!(impact.total_savings_bytes, 70);
    assert_eq!(impact.safe_savings_bytes, 30);
}

#[test]
fn test_bundle_impact_calculation() {
    let enricher = FindingEnricher::new(vec![
        (s("a.ts"), 1000usize, false),
        (s("b.ts"), 2000usize, true),
        (s("c.ts"), 500usize, false),
    ]);
    let unreachable = vec![s("a.ts"), s("b.ts"), s("c.ts")];
    let impact = enricher.calculate_bundle_impact(&unreachable).unwrap();
    assert_eq!(impact.total_savings_bytes, 3500);
    assert_eq!(impact.safe_savings_bytes, 1500);
    assert_eq!(impact.by_module.len(), 3);
    assert_eq!(impact.by_module[0].size_bytes, 2000);
    assert_eq!(impact.by_module[1].size_bytes, 1000);
    assert_eq!(impact.by_module[2].size_bytes, 500);
}

#[test]
fn bundle_impact_skips_unknown_paths() {
    let enricher = FindingEnricher::new(vec![(s("a.ts"), 1000usize, false), (s("a.ts"), 40usize, true)]);
    let impact = enricher.calculate_bundle_impact(&[s("a.ts"), s("missing.ts")]).unwrap();
    assert_eq!(impact.by_module.len(), 1);
    assert_eq!(impact.total_savings_bytes, 40);
    assert_eq!(impact.safe_savings_bytes, 0);
}

#[test]
fn enrichment_test_format_bytes() {
    assert_eq!(FindingEnricher::format_bytes(500), "500 bytes");
    assert_eq!(FindingEnricher::format_bytes(1536), "1.5 KB");
    assert_eq!(FindingEnricher::format_bytes(2_097_152), "2.00 MB");
}

#[test]
fn virtual_paths_are_recognized() {
    assert!(DependencyChainAnalyzer::is_virtual_path("virtual:entry"));
    assert!(!DependencyChainAnalyzer::is_virtual_path("src/virtual.ts"));
}
