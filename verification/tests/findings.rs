use danny::capabilities::{AnalysisCapabilities, AnalysisMode, UnavailableReason};
use danny::category_kind::Category;
use danny::filtering::{calculate_ignore_statistics, filter_findings_with_tracking, path_to_check, recalculate_statistics};
use danny::findings::{
    AnalysisResult, CircularDependency, ClassMemberKind, EnumValue, ExportKind, Finding, NpmDependencyType,
    Statistics,
};
use danny::ignore::IgnorePatternBuilder;
use danny::members::{ChainModule, ChainRecord, UnusedDependency, UnusedMember};
use danny::analyzers::{ClassMemberAnalyzer, DependencyChainAnalyzer, EnumMemberAnalyzer, NpmDependencyAnalyzer};

fn s(x: &str) -> String {
    x.to_string()
}

fn unused_export(module: &str) -> Finding {
    Finding::UnusedExport {
        module: s(module),
        export_name: s("x"),
        kind: ExportKind::Named,
        span: None,
        is_type_only: false,
        explanation: None,
    }
}

fn unreachable_file(path: &str) -> Finding {
    Finding::UnreachableFile { path: s(path), size: 10, explanation: None }
}

#[test]
fn finding_categories() {
    assert_eq!(unused_export("a.ts").category(), Category::Exports);
    assert_eq!(unreachable_file("a.ts").category(), Category::Files);
    let cycle = Finding::CircularDependency(CircularDependency {
        cycle: vec![s("a.ts"), s("b.ts")],
        all_unreachable: false,
        total_size: 0,
    });
    assert_eq!(cycle.category(), Category::Circular);
    assert_eq!(path_to_check(&cycle), Some(s("a.ts")));
    let dep = Finding::UnusedNpmDependency { package: s("left-pad"), version: s("1"), dep_type: NpmDependencyType::Production };
    assert_eq!(dep.category(), Category::Dependencies);
    assert_eq!(path_to_check(&dep), None);
}

#[test]
fn category_names_round_trip() {
    for c in Category::all() {
        assert_eq!(Category::from_cli_name(c.cli_name()), Some(c));
    }
    assert_eq!(Category::from_cli_name("nope"), None);
    assert_eq!(Category::all().len(), 9);
}

#[test]
fn filtering_splits_findings_by_pattern() {
    let (set, infos) = IgnorePatternBuilder::new()
        .no_defaults()
        .add_pattern("**/*.test.ts")
        .expect("pattern")
        .build_with_metadata()
        .expect("build");
    let findings = vec![
        unused_export("src/a.ts"),
        unreachable_file("src/a.test.ts"),
        unused_export("src/b.test.ts"),
        unreachable_file("src/c.ts"),
    ];
    let result = filter_findings_with_tracking(findings, &set, &infos);
    assert_eq!(result.kept, vec![unused_export("src/a.ts"), unreachable_file("src/c.ts")]);
    assert_eq!(result.ignored.len(), 2);
    assert_eq!(result.ignored[0].matched_pattern, "**/*.test.ts");
    assert_eq!(result.ignored[0].matched_path, "src/a.test.ts");
    assert_eq!(result.ignored[1].finding, unused_export("src/b.test.ts"));
    let breakdown = calculate_ignore_statistics(&result.ignored);
    assert_eq!(breakdown.unused_exports, 1);
    assert_eq!(breakdown.unreachable_files, 1);
    assert_eq!(breakdown.unused_symbols, 0);
}

#[test]
fn statistics_are_recounted() {
    let mut stats = Statistics::empty();
    stats.unused_exports_count = 7;
    stats.total_modules = 3;
    let mut result = AnalysisResult {
        findings: vec![unused_export("a.ts"), unused_export("b.ts"), unreachable_file("c.ts")],
        statistics: stats,
        errors: vec![],
        ignored_findings: vec![],
    };
    recalculate_statistics(&mut result);
    assert_eq!(result.statistics.unused_exports_count, 2);
    assert_eq!(result.statistics.unreachable_modules_count, 0);
    assert_eq!(result.statistics.framework_exports_count, 0);
    assert_eq!(result.statistics.total_modules, 3);
    assert_eq!(result.findings.len(), 3);
}

#[test]
fn capabilities_partition_requests() {
    let mut caps = AnalysisCapabilities::files_mode();
    assert_eq!(caps.mode(), AnalysisMode::Files);
    assert!(!caps.supports(Category::Files));
    assert!(caps.supports(Category::Symbols));
    let requested = [Category::Files, Category::Symbols, Category::Circular, Category::Quality];
    let available = caps.filter_available(&requested);
    let unavailable = caps.filter_unavailable(&requested);
    assert_eq!(available, vec![Category::Symbols, Category::Quality]);
    assert_eq!(unavailable, vec![Category::Files, Category::Circular]);
    caps.mark_available(Category::Files);
    assert!(caps.supports(Category::Files));
    caps.mark_unavailable(Category::Files, UnavailableReason::RequiresFullGraph);
    assert!(!caps.supports(Category::Files));
    let package = AnalysisCapabilities::package_mode();
    assert!(package.supports(Category::Circular));
}

fn member(name: &str, location: Option<&str>) -> UnusedMember {
    UnusedMember {
        name: s(name),
        member_kind: ClassMemberKind::Method,
        module_id: s("mod-1"),
        module_location: location.map(s),
        line: 4,
        column: 2,
        offset: 40,
        class_name: Some(s("Widget")),
        value: Some(EnumValue::Number(3)),
    }
}

#[test]
fn private_members_are_converted() {
    let groups = vec![(s("Widget"), vec![member("render", Some("src/w.ts")), member("_hidden", Some("src/w.ts"))])];
    let found = ClassMemberAnalyzer::convert_private_members(&groups).unwrap();
    assert_eq!(found.len(), 1);
    match &found[0] {
        Finding::UnusedPrivateClassMember { module, class_name, member_name, member_kind, span } => {
            assert_eq!(module, "src/w.ts");
            assert_eq!(class_name, "Widget");
            assert_eq!(member_name, "render");
            assert_eq!(*member_kind, ClassMemberKind::Method);
            assert_eq!(span.line, 4);
            assert_eq!(span.file, "src/w.ts");
        }
        _ => panic!("expected a private member finding"),
    }
    let missing = vec![(s("Widget"), vec![member("render", None)])];
    assert_eq!(ClassMemberAnalyzer::convert_private_members(&missing), Err(s("Module not found: mod-1")));
    let virtual_only = vec![(s("Widget"), vec![member("render", Some("virtual:x"))])];
    assert_eq!(ClassMemberAnalyzer::convert_private_members(&virtual_only), Ok(vec![]));
}

#[test]
fn enum_members_are_converted() {
    let groups = vec![(s("Color"), vec![member("Red", Some("src/c.ts"))])];
    let found = EnumMemberAnalyzer::convert_unused_members(&groups).unwrap();
    assert_eq!(found.len(), 1);
    match &found[0] {
        Finding::UnusedEnumMember { enum_name, member_name, value, .. } => {
            assert_eq!(enum_name, "Color");
            assert_eq!(member_name, "Red");
            assert_eq!(*value, Some(EnumValue::Number(3)));
        }
        _ => panic!("expected an enum member finding"),
    }
}

#[test]
fn npm_dependencies_are_converted() {
    let unused = vec![UnusedDependency { package: s("lodash"), version: s("^4"), dep_type: NpmDependencyType::Development }];
    let found = NpmDependencyAnalyzer::convert_unused_dependencies(&unused);
    assert_eq!(
        found,
        vec![Finding::UnusedNpmDependency { package: s("lodash"), version: s("^4"), dep_type: NpmDependencyType::Development }]
    );
}

#[test]
fn chains_keep_real_modules() {
    let chains = vec![
        ChainRecord {
            path: vec![
                ChainModule { module_id: s("1"), location: Some(s("a.ts")) },
                ChainModule { module_id: s("2"), location: Some(s("virtual:v")) },
                ChainModule { module_id: s("3"), location: Some(s("b.ts")) },
            ],
            depth: 3,
        },
        ChainRecord {
            path: vec![
                ChainModule { module_id: s("4"), location: Some(s("c.ts")) },
                ChainModule { module_id: s("5"), location: Some(s("virtual:w")) },
            ],
            depth: 2,
        },
    ];
    let found = DependencyChainAnalyzer::convert_chains(&chains).unwrap();
    assert_eq!(found, vec![Finding::DependencyChain { chain: vec![s("a.ts"), s("b.ts")], depth: 3 }]);
    let broken = vec![ChainRecord { path: vec![ChainModule { module_id: s("9"), location: None }], depth: 1 }];
    assert_eq!(DependencyChainAnalyzer::convert_chains(&broken), Err(s("Module not found: 9")));
}
