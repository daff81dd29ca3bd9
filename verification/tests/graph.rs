use danny::backends::{BackendInfo, BackendRegistry, JsBackend};
use danny::error::Error;
use danny::findings::{
    CodeSmellDetails, CodeSmellType, ErrorSeverity, ExportKind, Finding, SafetyAssessment, SmellSeverity,
    SourceLocation, SymbolKind,
};
use danny::graph_report::{
    assemble_statistics, backend_flag, circular_dependencies, code_smell_stats, collect_dynamic_links, collect_errors,
    convert_graph_to_findings, convert_side_effect_imports, convert_type_only_imports, convert_unused_symbols,
    count_kind, cycle_report, dead_code_modules, deep_chains, dynamic_targets, enrich_unreachable,
    find_unreachable_files, import_graph, CountedKind, DeadCodeRecord, ExportRecord, FrameworkExportRecord,
    ImportRecord, ImportSpecifierRecord, ModuleRecord, SideEffectImportRecord, StatisticsParts, TypeOnlyImportRecord,
    UnusedSymbolRecord,
};
use danny::members::{ChainModule, ChainRecord};

fn s(x: &str) -> String {
    x.to_string()
}

fn import(source: &str, to: Option<&str>, dynamic: bool, external: bool) -> ImportRecord {
    ImportRecord { source: s(source), resolved_to: to.map(s), is_dynamic: dynamic, is_external: external }
}

fn module(id: &str, path: &str, imports: Vec<ImportRecord>, size: usize) -> ModuleRecord {
    ModuleRecord {
        id: s(id),
        path: s(path),
        imports,
        original_size: size,
        has_side_effects: false,
        is_entry: false,
    }
}

fn graph() -> Vec<ModuleRecord> {
    vec![
        module("1", "src/app.ts", vec![import("./b", Some("2"), false, false), import("./page", Some("3"), true, false), import("react", None, false, true)], 100),
        module("2", "src/b.ts", vec![import("./app", Some("1"), false, false), import("v", Some("9"), false, false)], 40),
        module("3", "src/page.ts", vec![], 70),
        module("9", "virtual:helper", vec![import("./b", Some("2"), false, false)], 5),
    ]
}

#[test]
fn graph_findings_in_order() {
    let modules = graph();
    let exports = vec![
        ExportRecord {
            module_file: s("src/b.ts"),
            name: s("unused"),
            kind: ExportKind::Named,
            span: SourceLocation { file: s("src/b.ts"), start: 1, end: 2 },
            is_type_only: false,
        },
        ExportRecord {
            module_file: s("virtual:helper"),
            name: s("x"),
            kind: ExportKind::Named,
            span: SourceLocation { file: s("virtual:helper"), start: 0, end: 0 },
            is_type_only: false,
        },
    ];
    let unreachable = vec![module("4", "src/old.ts", vec![], 12)];
    let frameworks = vec![FrameworkExportRecord { module_file: s("src/page.ts"), export_name: s("default"), framework: s("Next.js") }];
    let findings = convert_graph_to_findings(&modules, &exports, &unreachable, &frameworks);
    let kinds: Vec<&str> = findings
        .iter()
        .map(|f| match f {
            Finding::Module { .. } => "module",
            Finding::Dependency { .. } => "dependency",
            Finding::UnusedExport { .. } => "export",
            Finding::UnreachableModule { .. } => "unreachable",
            Finding::FrameworkExport { .. } => "framework",
            _ => "other",
        })
        .collect();
    assert_eq!(
        kinds,
        vec!["module", "dependency", "dependency", "dependency", "module", "dependency", "dependency", "module", "export", "unreachable", "framework"]
    );
    match &findings[0] {
        Finding::Module { path, dependencies, metadata } => {
            assert_eq!(path, "src/app.ts");
            assert_eq!(dependencies.len(), 3);
            assert_eq!(dependencies[2].resolved, "react");
            assert!(dependencies[2].is_external);
            assert!(dependencies[1].is_dynamic);
            assert!(metadata.is_empty());
        }
        _ => panic!("expected a module finding"),
    }
    assert_eq!(
        findings[1],
        Finding::Dependency { from: s("src/app.ts"), to: s("2"), specifier: s("./b"), is_external: false }
    );
    match &findings[9] {
        Finding::UnreachableModule { path, size, metadata } => {
            assert_eq!(path, "src/old.ts");
            assert_eq!(*size, 12);
            assert!(!metadata.safe_to_delete);
            assert_eq!(metadata.safety_assessment, SafetyAssessment::Unsafe(s("Pending analysis")));
        }
        _ => panic!("expected an unreachable module"),
    }
    match &findings[10] {
        Finding::FrameworkExport { rule, framework, .. } => {
            assert_eq!(rule, "Built-in");
            assert_eq!(framework, "Next.js");
        }
        _ => panic!("expected a framework export"),
    }
}

#[test]
fn dynamic_links_and_targets() {
    let links = collect_dynamic_links(&graph());
    assert_eq!(links, vec![(s("src/app.ts"), s("src/page.ts"), s("./page"), false)]);
    assert_eq!(dynamic_targets(&links), vec![s("src/page.ts")]);
}

#[test]
fn unreachable_modules_are_assessed() {
    let mut findings = convert_graph_to_findings(
        &vec![],
        &vec![],
        &vec![
            module("a", "src/lazy.ts", vec![], 10),
            module("b", "src/plain.ts", vec![], 20),
            module("c", "vite.config.ts", vec![], 30),
        ],
        &vec![],
    );
    let entries = enrich_unreachable(
        &mut findings,
        &vec![
            module("a", "src/lazy.ts", vec![], 10),
            module("b", "src/plain.ts", vec![], 20),
            module("c", "vite.config.ts", vec![], 30),
            module("d", "virtual:x", vec![], 1),
        ],
        &vec![s("src/lazy.ts")],
    );
    assert_eq!(entries, vec![(s("src/lazy.ts"), 10, false), (s("src/plain.ts"), 20, false), (s("vite.config.ts"), 30, false)]);
    let verdicts: Vec<(bool, SafetyAssessment)> = findings
        .iter()
        .map(|f| match f {
            Finding::UnreachableModule { metadata, .. } => (metadata.safe_to_delete, metadata.safety_assessment.clone()),
            _ => panic!("unexpected finding"),
        })
        .collect();
    assert_eq!(
        verdicts,
        vec![
            (false, SafetyAssessment::ReviewCarefully(s("Dynamically imported"))),
            (true, SafetyAssessment::SafeToDelete),
            (false, SafetyAssessment::Unsafe(s("Configuration file"))),
        ]
    );
}

#[test]
fn import_graph_and_cycles() {
    let modules = graph();
    let g = import_graph(&modules);
    assert_eq!(g, vec![(s("src/app.ts"), vec![s("src/b.ts"), s("src/page.ts")]), (s("src/b.ts"), vec![s("src/app.ts")])]);
    let cycles = circular_dependencies(&modules, &vec![module("2", "src/b.ts", vec![], 40)]);
    assert_eq!(cycles.len(), 1);
    let mut members = cycles[0].cycle.clone();
    members.sort();
    assert_eq!(members, vec![s("src/app.ts"), s("src/b.ts")]);
    assert_eq!(cycles[0].total_size, 140);
    assert!(!cycles[0].all_unreachable);
    let report = cycle_report(vec![s("src/b.ts"), s("missing.ts")], &vec![module("2", "src/b.ts", vec![], 40)], &modules);
    assert_eq!(report.total_size, 40);
    assert!(!report.all_unreachable);
    let report = cycle_report(vec![s("src/b.ts")], &vec![module("2", "src/b.ts", vec![], 40)], &modules);
    assert!(report.all_unreachable);
}

fn smell(t: CodeSmellType, sev: SmellSeverity) -> Finding {
    Finding::CodeSmell {
        smell_type: t,
        location: s("a.ts"),
        symbol_name: None,
        line: None,
        column: None,
        severity: sev,
        details: CodeSmellDetails {
            message: s("m"),
            recommendation: None,
            current_value: None,
            recommended_threshold: None,
            metadata: vec![],
        },
    }
}

#[test]
fn smell_statistics_tally() {
    let smells = vec![
        smell(CodeSmellType::LongFunction, SmellSeverity::Warning),
        smell(CodeSmellType::DeepNesting, SmellSeverity::Warning),
        smell(CodeSmellType::LongFunction, SmellSeverity::Error),
    ];
    let stats = code_smell_stats(&smells);
    assert_eq!(stats.total_smells, 3);
    assert_eq!(stats.by_type, vec![(CodeSmellType::LongFunction, 2), (CodeSmellType::DeepNesting, 1)]);
    assert_eq!(stats.by_severity, vec![(SmellSeverity::Warning, 2), (SmellSeverity::Error, 1)]);
}

#[test]
fn statistics_and_errors() {
    let findings = vec![
        Finding::UnreachableFile { path: s("x.ts"), size: 0, explanation: None },
        Finding::DeadCodeModule { path: s("d.ts"), size: 3 },
        smell(CodeSmellType::LongFunction, SmellSeverity::Warning),
    ];
    assert_eq!(count_kind(&findings, CountedKind::CodeSmell), 1);
    let parts = StatisticsParts {
        external_dependencies: 2,
        frameworks_detected: vec![s("React")],
        unused_exports_count: 5,
        unreachable_modules_count: 1,
        framework_exports_count: 0,
        symbol_statistics: None,
        bundle_size_impact: None,
        type_only_unused_exports_count: 0,
        class_member_stats: None,
        enum_stats: None,
        dependency_coverage_stats: None,
        duration_ms: 9,
        code_quality_stats: None,
    };
    let stats = assemble_statistics(&findings, &graph(), parts);
    assert_eq!(stats.total_modules, 4);
    assert_eq!(stats.total_dependencies, 6);
    assert_eq!(stats.unreachable_files_count, 1);
    assert_eq!(stats.dead_code_modules_count, 1);
    assert_eq!(stats.code_smells_count, 1);
    assert_eq!(stats.unused_exports_count, 5);
    assert_eq!(stats.ignored_findings_count, 0);
    assert_eq!(stats.dynamic_imports_count, 0);
    assert_eq!(stats.circular_dependencies_count, 0);
    let errors = collect_errors(vec![s("boom")], vec![s("careful")]);
    assert_eq!(errors.len(), 2);
    assert_eq!(errors[0].severity, ErrorSeverity::Error);
    assert_eq!(errors[1].message, "careful");
    assert_eq!(errors[1].file, "unknown");
    assert_eq!(errors[1].severity, ErrorSeverity::Warning);
}

#[test]
fn backend_flags() {
    let options = vec![(s("symbols"), Some(true)), (s("quality"), None), (s("detect_quality"), Some(true))];
    assert!(backend_flag(&options, "symbols", Some("detect_unused_symbols")));
    assert!(!backend_flag(&options, "quality", Some("detect_quality")));
    assert!(!backend_flag(&options, "detect_enum_members", None));
    let legacy = vec![(s("detect_unused_symbols"), Some(true))];
    assert!(backend_flag(&legacy, "symbols", Some("detect_unused_symbols")));
}

#[test]
fn symbol_import_and_dead_code_conversions() {
    let symbols = vec![
        UnusedSymbolRecord { module_file: s("a.ts"), name: s("helper"), kind: SymbolKind::Function, line: 2, column: 1, offset: 9 },
        UnusedSymbolRecord { module_file: s("a.ts"), name: s("_skip"), kind: SymbolKind::Variable, line: 3, column: 1, offset: 20 },
        UnusedSymbolRecord { module_file: s("virtual:v"), name: s("x"), kind: SymbolKind::Variable, line: 3, column: 1, offset: 20 },
    ];
    let found = convert_unused_symbols(&symbols);
    assert_eq!(found.len(), 1);
    match &found[0] {
        Finding::UnusedSymbol { symbol_name, span, .. } => {
            assert_eq!(symbol_name, "helper");
            assert_eq!(span.file, "a.ts");
            assert_eq!(span.offset, 9);
        }
        _ => panic!("expected an unused symbol"),
    }
    let side = vec![SideEffectImportRecord {
        importer_id: s("ModuleId(7)"),
        importer_file: None,
        source: s("./polyfill"),
        resolved_file: None,
        span: SourceLocation { file: s("a.ts"), start: 0, end: 1 },
    }];
    assert_eq!(convert_side_effect_imports(&side), Err(s("Module not found: ModuleId(7)")));
    let types = vec![TypeOnlyImportRecord {
        importer_id: s("1"),
        importer_file: Some(s("a.ts")),
        source: s("./t"),
        specifiers: vec![ImportSpecifierRecord::Named(s("A")), ImportSpecifierRecord::Default],
        span: SourceLocation { file: s("a.ts"), start: 0, end: 1 },
    }];
    match &convert_type_only_imports(&types).unwrap()[0] {
        Finding::TypeOnlyImport { specifiers, .. } => assert_eq!(specifiers, &vec![s("A"), s("default")]),
        _ => panic!("expected a type-only import"),
    }
    let dead = vec![
        DeadCodeRecord { path: s("a.ts"), size: 5, only_through_dead_code: true },
        DeadCodeRecord { path: s("b.ts"), size: 5, only_through_dead_code: false },
    ];
    assert_eq!(dead_code_modules(&dead), vec![Finding::DeadCodeModule { path: s("a.ts"), size: 5 }]);
    let chains = vec![
        ChainRecord { path: vec![ChainModule { module_id: s("1"), location: Some(s("a.ts")) }], depth: 6 },
        ChainRecord { path: vec![], depth: 5 },
    ];
    let deep = deep_chains(chains);
    assert_eq!(deep.len(), 1);
    assert_eq!(deep[0].depth, 6);
}

#[test]
fn unreachable_files_are_found() {
    let found = find_unreachable_files(
        vec![s("src/a.ts"), s("src/./b.ts"), s("src/c.ts"), s("src/main.ts")],
        &vec![s("src/a.ts"), s("src/b.ts")],
        &vec![s("src/main.ts")],
    );
    assert_eq!(found, vec![Finding::UnreachableFile { path: s("src/c.ts"), size: 0, explanation: None }]);
}

#[test]
fn test_registry_find_by_extension() {
    let mut registry = BackendRegistry::new();
    registry.register(BackendInfo { name: s("JavaScript"), extensions: vec![s(".js"), s(".ts")] });
    registry.register(BackendInfo { name: s("Python"), extensions: vec![s(".py")] });
    assert!(registry.find_by_extension(".js").is_some());
    assert!(registry.find_by_extension(".ts").is_some());
    assert!(registry.find_by_extension(".py").is_some());
    assert!(registry.find_by_extension(".rs").is_none());
    assert_eq!(registry.find_by_extension(".py").unwrap().name, "Python");
    assert_eq!(registry.all().len(), 2);
}

#[test]
fn test_registry_find_by_name() {
    let mut registry = BackendRegistry::new();
    registry.register(BackendInfo { name: s("JavaScript"), extensions: vec![s(".js")] });
    assert!(registry.find_by_name("JavaScript").is_some());
    assert!(registry.find_by_name("javascript").is_some());
    assert!(registry.find_by_name("Python").is_none());
}

#[test]
fn test_backend_name() {
    let backend = JsBackend;
    assert_eq!(backend.name(), "JavaScript");
}

#[test]
fn test_supported_extensions() {
    let backend = JsBackend;
    let extensions = backend.supported_extensions();
    assert!(extensions.contains(&".js"));
    assert!(extensions.contains(&".ts"));
    assert!(extensions.contains(&".jsx"));
    assert!(extensions.contains(&".tsx"));
    assert_eq!(backend.info().extensions.len(), 6);
}

#[test]
fn backend_validate_checks_extensions() {
    let backend = JsBackend;
    assert!(backend.validate(&vec![s("src/index.ts"), s("main.mjs")]).is_ok());
    assert_eq!(
        backend.validate(&vec![s("src/index.ts"), s("src/style.css")]),
        Err(Error::InvalidConfig { message: s("Entry point \"src/style.css\" has unsupported extension: .css") })
    );
    assert_eq!(
        backend.validate(&vec![s("Makefile")]),
        Err(Error::InvalidConfig { message: s("Entry point \"Makefile\" has unsupported extension: ") })
    );
    assert_eq!(
        backend.validate(&vec![s(".eslintrc")]),
        Err(Error::InvalidConfig { message: s("Entry point \".eslintrc\" has unsupported extension: ") })
    );
}

#[test]
fn unreachable_module_verdicts_match_paths_by_components() {
    let mut findings = convert_graph_to_findings(&vec![], &vec![], &vec![module("a", "src/lazy.ts", vec![], 10)], &vec![]);
    let mut effectful = module("a", "src//lazy.ts", vec![], 10);
    effectful.has_side_effects = true;
    enrich_unreachable(&mut findings, &vec![effectful], &vec![]);
    match &findings[0] {
        Finding::UnreachableModule { path, metadata, .. } => {
            assert_eq!(path, "src/lazy.ts");
            assert!(!metadata.safe_to_delete);
            assert_eq!(metadata.safety_assessment, SafetyAssessment::ReviewCarefully(s("Module has side effects")));
        },
        other => panic!("unexpected finding {:?}", other),
    }
}
