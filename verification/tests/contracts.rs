use danny::analyzers::{DynamicImportAnalyzer, SideEffectAnalyzer};
use danny::bundle::{bundle_impact_for, FindingEnricher};
use danny::circular::CircularDependencyDetector;
use danny::config::AnalysisTarget;
use danny::entry_points::{files_target, package_entry_fields, PackageJsonError};
use danny::error::Error;
use danny::findings::{DynamicImportInfo, SafetyAssessment};
use danny::graph_report::check_quality_config;
use danny::ignore::{gitignore_to_glob_pattern, should_ignore, IgnorePatternBuilder};
use danny::security::{validate_project_id, validate_project_name, SecurityError};
use danny::toml_config::CodeQualityConfig;

fn s(x: &str) -> String {
    x.to_string()
}

#[test]
fn project_id_length_counts_characters() {
    let accented = "é".repeat(26);
    assert!(validate_project_id(&accented).is_ok());
    assert!(validate_project_id(&"é".repeat(50)).is_ok());
    assert!(validate_project_id(&"é".repeat(51)).is_err());
}

#[test]
fn project_name_length_counts_characters() {
    assert!(validate_project_name(&"é".repeat(100)).is_ok());
    assert_eq!(validate_project_name(&"é".repeat(101)), Err(SecurityError::NameTooLong(101)));
    assert_eq!(validate_project_name(&"a".repeat(101)), Err(SecurityError::NameTooLong(101)));
}

#[test]
fn rooted_gitignore_pattern_matches_at_root_only() {
    let glob = gitignore_to_glob_pattern("/build");
    assert_eq!(glob, "build");
    let set = IgnorePatternBuilder::new()
        .no_defaults()
        .add_pattern(&glob)
        .unwrap()
        .build()
        .unwrap();
    assert!(should_ignore("build", &set));
    assert!(!should_ignore("src/build", &set));
    let anywhere = IgnorePatternBuilder::new()
        .no_defaults()
        .add_pattern(&gitignore_to_glob_pattern("build"))
        .unwrap()
        .build()
        .unwrap();
    assert!(should_ignore("src/build", &anywhere));
}

#[test]
fn package_fields_are_read_from_json() {
    let (main, module) = package_entry_fields(r#"{"name":"x","main":"lib/index.js","module":"esm/index.js"}"#).unwrap();
    assert_eq!(main, Some(s("lib/index.js")));
    assert_eq!(module, Some(s("esm/index.js")));
    let (main, module) = package_entry_fields(r#"{"main": 3}"#).unwrap();
    assert_eq!(main, None);
    assert_eq!(module, None);
    let (main, module) = package_entry_fields("[1, 2]").unwrap();
    assert_eq!(main, None);
    assert_eq!(module, None);
    assert!(matches!(package_entry_fields("{not json"), Err(PackageJsonError::Parse(_))));
}

#[test]
fn files_target_after_checks() {
    let files = vec![s("/p/a.ts"), s("/p/b.ts")];
    let canonical = vec![Ok(s("/p/a.ts")), Ok(s("/p/b.ts"))];
    let target = files_target(files.clone(), "/p", &canonical, &Ok(s("/p")), Some(s("/p/package.json"))).unwrap();
    match target {
        AnalysisTarget::Files(t) => {
            assert_eq!(t.files, files);
            assert_eq!(t.working_dir, "/p");
            assert_eq!(t.nearby_package, Some(s("/p/package.json")));
        },
        other => panic!("unexpected target {:?}", other),
    }
    let outside = vec![Ok(s("/p/a.ts")), Ok(s("/q/b.ts"))];
    match files_target(files.clone(), "/p", &outside, &Ok(s("/p")), None) {
        Err(Error::PathTraversal { attempted_path, project_root }) => {
            assert_eq!(attempted_path, "/p/b.ts");
            assert_eq!(project_root, "/p");
        },
        other => panic!("unexpected result {:?}", other),
    }
    let many: Vec<String> = (0..1001).map(|i| format!("/p/{}.ts", i)).collect();
    let many_canonical: Vec<Result<String, String>> = many.iter().map(|f| Ok(f.clone())).collect();
    assert!(matches!(
        files_target(many, "/p", &many_canonical, &Ok(s("/p")), None),
        Err(Error::TooManyFiles { count: 1001, max_allowed: 1000 })
    ));
}

#[test]
fn long_acyclic_chain_has_no_cycles() {
    let names: Vec<String> = (0..1500).map(|i| format!("m{}.ts", i)).collect();
    let graph: Vec<(String, Vec<String>)> = names
        .iter()
        .enumerate()
        .map(|(i, n)| (n.clone(), if i + 1 < names.len() { vec![names[i + 1].clone()] } else { vec![] }))
        .collect();
    let mut detector = CircularDependencyDetector::new(graph);
    assert_eq!(detector.find_cycles().unwrap().len(), 0);
}

#[test]
fn very_long_cycle_is_too_deep() {
    let names: Vec<String> = (0..1200).map(|i| format!("m{}.ts", i)).collect();
    let graph: Vec<(String, Vec<String>)> =
        names.iter().enumerate().map(|(i, n)| (n.clone(), vec![names[(i + 1) % names.len()].clone()])).collect();
    let mut detector = CircularDependencyDetector::new(graph);
    match detector.find_cycles() {
        Err(Error::CycleTooDeep { depth, max_allowed }) => {
            assert_eq!(depth, 1200);
            assert_eq!(max_allowed, 1000);
        },
        other => panic!("unexpected result {:?}", other),
    }
}

#[test]
fn groups_are_keyed_by_parents() {
    let grouped = DynamicImportAnalyzer::group_by_parent(vec![]);
    assert!(grouped.is_empty());
    let imports = vec![
        DynamicImportInfo { from: s("a.ts"), to: s("b.ts"), source: s("./b"), creates_chunk: true },
        DynamicImportInfo { from: s("c.ts"), to: s("b.ts"), source: s("./b"), creates_chunk: true },
    ];
    let grouped = DynamicImportAnalyzer::group_by_parent(imports);
    let mut keys: Vec<&str> = grouped.iter().map(|(k, _)| k.as_str()).collect();
    keys.sort();
    assert_eq!(keys, vec!["a.ts", "c.ts"]);
}

#[test]
fn bundle_impact_only_with_entries() {
    assert!(bundle_impact_for(vec![]).is_none());
    let impact = bundle_impact_for(vec![(s("a.ts"), 100, false), (s("b.ts"), 300, true)]).unwrap();
    assert_eq!(impact.total_savings_bytes, 400);
    assert_eq!(impact.safe_savings_bytes, 100);
    assert_eq!(impact.by_module[0].path, "b.ts");
}

#[test]
fn quality_config_errors_name_the_backend() {
    assert!(check_quality_config(&CodeQualityConfig::default_config()).is_ok());
    let mut bad = CodeQualityConfig::default_config();
    bad.max_function_lines = 0;
    match check_quality_config(&bad) {
        Err(Error::Backend { backend, message }) => {
            assert_eq!(backend, "JavaScript");
            assert!(message.starts_with("Invalid quality configuration: "));
        },
        other => panic!("unexpected result {:?}", other),
    }
}

#[test]
fn two_searches_find_the_same_cycles() {
    let graph = vec![
        (s("a.ts"), vec![s("b.ts")]),
        (s("b.ts"), vec![s("a.ts"), s("c.ts")]),
        (s("c.ts"), vec![s("d.ts")]),
        (s("d.ts"), vec![s("c.ts")]),
    ];
    let mut detector = CircularDependencyDetector::new(graph);
    let first = detector.find_cycles().unwrap();
    let second = detector.find_cycles().unwrap();
    assert_eq!(first.len(), 2);
    assert_eq!(first, second);
}

#[test]
fn control_characters_in_short_names_are_invalid() {
    assert_eq!(validate_project_name("Has\nNewline"), Err(SecurityError::InvalidName));
    assert_eq!(validate_project_name("Has\tTab"), Err(SecurityError::InvalidName));
    assert_eq!(validate_project_name(""), Err(SecurityError::InvalidName));
}

#[test]
fn paths_are_compared_by_components() {
    let safety = SideEffectAnalyzer::assess_safety(false, false, "src/lazy.ts", &vec![s("src//lazy.ts")]);
    assert!(matches!(safety, SafetyAssessment::ReviewCarefully(ref m) if m == "Dynamically imported"));
    let safety = SideEffectAnalyzer::assess_safety(false, false, "src/lazy.ts", &vec![s("src/lazy.tsx")]);
    assert_eq!(safety, SafetyAssessment::SafeToDelete);
    let imports = vec![DynamicImportInfo { from: s("a.ts"), to: s("pages/x.ts"), source: s("./x"), creates_chunk: true }];
    let sizes = vec![(s("pages//x.ts"), 700)];
    assert_eq!(DynamicImportAnalyzer::calculate_lazy_loading_potential(&imports, &sizes), 700);
    let enricher = FindingEnricher::new(vec![(s("lib/a.ts"), 100, false), (s("lib/./a.ts"), 300, true)]);
    let impact = enricher.calculate_bundle_impact(&[s("lib/a.ts")]).unwrap();
    assert_eq!(impact.total_savings_bytes, 300);
    assert_eq!(impact.safe_savings_bytes, 0);
}
