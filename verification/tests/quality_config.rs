use danny::circular::CircularDependencyDetector;
use danny::config::{Project, Timestamp, WorkspaceMemberConfig};
use danny::error::Error;
use danny::findings::{CodeSmellType, Finding, SmellSeverity};
use danny::projects::{ConfigError, ConfigManager, DannyConfig};
use danny::quality::{MeasuredKind, QualityAnalysisError, QualityAnalyzer, SymbolMetrics};
use danny::security::{validate_project_id, validate_project_name, SecurityError};
use danny::toml_config::CodeQualityConfig;

fn s(x: &str) -> String {
    x.to_string()
}

fn graph(edges: Vec<(&str, Vec<&str>)>) -> Vec<(String, Vec<String>)> {
    edges.into_iter().map(|(from, tos)| (s(from), tos.into_iter().map(s).collect())).collect()
}

#[test]
fn test_simple_cycle() {
    let mut detector = CircularDependencyDetector::new(graph(vec![("A", vec!["B"]), ("B", vec!["C"]), ("C", vec!["A"])]));
    let cycles = detector.find_cycles().unwrap();
    assert_eq!(cycles.len(), 1);
    assert_eq!(cycles[0].cycle.len(), 3);
}

#[test]
fn test_no_cycles() {
    let mut detector = CircularDependencyDetector::new(graph(vec![("A", vec!["B"]), ("B", vec!["C"]), ("C", vec![])]));
    let cycles = detector.find_cycles().unwrap();
    assert_eq!(cycles.len(), 0);
}

#[test]
fn test_multiple_cycles() {
    let mut detector = CircularDependencyDetector::new(graph(vec![
        ("A", vec!["B"]),
        ("B", vec!["A"]),
        ("C", vec!["D"]),
        ("D", vec!["C"]),
    ]));
    let cycles = detector.find_cycles().unwrap();
    assert_eq!(cycles.len(), 2);
}

#[test]
fn test_graph_too_large() {
    let mut g: Vec<(String, Vec<String>)> = Vec::new();
    for i in 0..150_000 {
        g.push((format!("mod{}", i), vec![]));
    }
    let mut detector = CircularDependencyDetector::new(g);
    let result = detector.find_cycles();
    assert!(result.is_err());
    assert!(matches!(result.unwrap_err(), Error::GraphTooLarge { .. }));
}

#[test]
fn cycles_are_disjoint_and_self_imports_are_not_cycles() {
    let mut detector = CircularDependencyDetector::new(graph(vec![
        ("A", vec!["A", "B"]),
        ("B", vec!["C"]),
        ("C", vec!["B", "D"]),
        ("D", vec!["E"]),
        ("E", vec!["D"]),
    ]));
    let mut cycles: Vec<Vec<String>> = detector.find_cycles().unwrap().into_iter().map(|c| {
        let mut m = c.cycle;
        m.sort();
        m
    }).collect();
    cycles.sort();
    assert_eq!(cycles, vec![vec![s("B"), s("C")], vec![s("D"), s("E")]]);
}

#[test]
fn cycle_through_module_without_entry_is_found() {
    let mut detector = CircularDependencyDetector::new(graph(vec![("A", vec!["B"]), ("B", vec!["A", "X"])]));
    let cycles = detector.find_cycles().unwrap();
    assert_eq!(cycles.len(), 1);
    let mut m = cycles[0].cycle.clone();
    m.sort();
    assert_eq!(m, vec![s("A"), s("B")]);
    assert!(!cycles[0].all_unreachable);
    assert_eq!(cycles[0].total_size, 0);
}

fn function(name: &str, location: Option<&str>, lines: usize, params: usize) -> SymbolMetrics {
    SymbolMetrics {
        name: s(name),
        kind: MeasuredKind::Function,
        module_id: s("m1"),
        module_location: location.map(s),
        line: 3,
        column: 7,
        line_count: Some(lines),
        parameter_count: Some(params),
        method_count: None,
        field_count: None,
        complexity: Some(2),
        max_nesting_depth: Some(1),
        return_count: Some(1),
    }
}

#[test]
fn test_is_virtual_path() {
    assert!(QualityAnalyzer::is_virtual_path("virtual:rolldown-plugin-node-modules"));
    assert!(QualityAnalyzer::is_virtual_path("virtual:anything"));
    assert!(!QualityAnalyzer::is_virtual_path("src/components/Button.tsx"));
    assert!(!QualityAnalyzer::is_virtual_path("/Users/test/project/index.ts"));
    assert!(!QualityAnalyzer::is_virtual_path(""));
}

#[test]
fn test_error_formatting() {
    let symbol_error = QualityAnalysisError::SymbolAccess(s("Database connection lost"));
    assert_eq!(symbol_error.message(), "Failed to get symbols: Database connection lost");

    let module_error = QualityAnalysisError::ModuleAccess { module_id: s("module_123"), source: s("File not found") };
    let msg = module_error.message();
    assert!(msg.starts_with("Failed to get module module_123:"));
    assert!(msg.contains("File not found"));

    let not_found_error = QualityAnalysisError::ModuleNotFound(s("module_456"));
    assert_eq!(not_found_error.message(), "Module not found: module_456");
}

#[test]
fn test_create_smell_finding() {
    let finding = QualityAnalyzer::create_smell_finding(
        CodeSmellType::LongFunction,
        s("src/utils.ts"),
        Some(s("processData")),
        Some(42),
        Some(10),
        SmellSeverity::Warning,
        s("Function is too long"),
        Some(s("Break into smaller functions")),
        Some(150),
        Some(50),
    );
    match finding {
        Finding::CodeSmell { smell_type, location, symbol_name, line, column, severity, details } => {
            assert!(matches!(smell_type, CodeSmellType::LongFunction));
            assert_eq!(location, "src/utils.ts");
            assert_eq!(symbol_name, Some(s("processData")));
            assert_eq!(line, Some(42));
            assert_eq!(column, Some(10));
            assert!(matches!(severity, SmellSeverity::Warning));
            assert_eq!(details.message, "Function is too long");
            assert_eq!(details.recommendation, Some(s("Break into smaller functions")));
            assert_eq!(details.current_value, Some(150));
            assert_eq!(details.recommended_threshold, Some(50));
        }
        _ => panic!("Expected CodeSmell finding"),
    }
}

#[test]
fn long_functions_are_reported_with_their_measurements() {
    let config = CodeQualityConfig::default();
    let symbols = vec![
        function("short", Some("src/a.ts"), 50, 1),
        function("long", Some("src/a.ts"), 51, 1),
        function("generated", Some("virtual:x"), 500, 1),
    ];
    let findings = QualityAnalyzer::detect_long_functions(&symbols, &config).unwrap();
    assert_eq!(findings.len(), 1);
    match &findings[0] {
        Finding::CodeSmell { smell_type, location, symbol_name, line, column, severity, details } => {
            assert_eq!(*smell_type, CodeSmellType::LongFunction);
            assert_eq!(location, "src/a.ts");
            assert_eq!(symbol_name.as_deref(), Some("long"));
            assert_eq!(*line, Some(3));
            assert_eq!(*column, Some(7));
            assert_eq!(*severity, SmellSeverity::Warning);
            assert_eq!(details.message, "Function 'long' has 51 lines (recommended: 50)");
            assert_eq!(details.current_value, Some(51));
            assert_eq!(details.recommended_threshold, Some(50));
        }
        _ => panic!("Expected CodeSmell finding"),
    }
}

#[test]
fn too_many_parameters_reported() {
    let config = CodeQualityConfig::default();
    let symbols = vec![function("f", Some("src/b.ts"), 3, 5), function("g", Some("src/b.ts"), 3, 4)];
    let findings = QualityAnalyzer::detect_too_many_parameters(&symbols, &config).unwrap();
    assert_eq!(findings.len(), 1);
    match &findings[0] {
        Finding::CodeSmell { smell_type, details, .. } => {
            assert_eq!(*smell_type, CodeSmellType::TooManyParameters);
            assert_eq!(details.current_value, Some(5));
        }
        _ => panic!("Expected CodeSmell finding"),
    }
}

#[test]
fn missing_module_is_an_error() {
    let config = CodeQualityConfig::default();
    let symbols = vec![function("f", None, 300, 1)];
    let r = QualityAnalyzer::detect_long_functions(&symbols, &config);
    assert_eq!(r, Err(QualityAnalysisError::ModuleNotFound(s("m1"))));
    let none: Vec<SymbolMetrics> = vec![];
    assert_eq!(QualityAnalyzer::detect_magic_numbers(&none, &config), Ok(vec![]));
    assert_eq!(QualityAnalyzer::detect_message_chains(&symbols, &config), Ok(vec![]));
}

#[test]
fn test_quality_config_default_validation() {
    let config = CodeQualityConfig::default();
    assert!(config.validate().is_ok());
}

#[test]
fn test_quality_config_zero_validation() {
    let mut config = CodeQualityConfig::default();
    config.max_function_lines = 0;
    assert!(config.validate().is_err());
    assert_eq!(config.validate().unwrap_err(), "max_function_lines must be > 0");

    config = CodeQualityConfig::default();
    config.max_parameters = 0;
    assert!(config.validate().is_err());
    assert_eq!(config.validate().unwrap_err(), "max_parameters must be > 0");

    config = CodeQualityConfig::default();
    config.max_class_lines = 0;
    assert!(config.validate().is_err());
    assert_eq!(config.validate().unwrap_err(), "max_class_lines must be > 0");

    config = CodeQualityConfig::default();
    config.max_complexity = 0;
    assert!(config.validate().is_err());
    assert_eq!(config.validate().unwrap_err(), "max_complexity must be > 0");

    config = CodeQualityConfig::default();
    config.max_nesting = 0;
    assert!(config.validate().is_err());
    assert_eq!(config.validate().unwrap_err(), "max_nesting must be > 0");

    config = CodeQualityConfig::default();
    config.max_message_chain = 0;
    assert!(config.validate().is_err());
    assert_eq!(config.validate().unwrap_err(), "max_message_chain must be > 0");

    config = CodeQualityConfig::default();
    config.max_methods = 0;
    assert!(config.validate().is_err());
    assert_eq!(config.validate().unwrap_err(), "max_methods must be > 0");

    config = CodeQualityConfig::default();
    config.max_fields = 0;
    assert!(config.validate().is_err());
    assert_eq!(config.validate().unwrap_err(), "max_fields must be > 0");

    config = CodeQualityConfig::default();
    config.max_return_count = 0;
    assert!(config.validate().is_err());
    assert_eq!(config.validate().unwrap_err(), "max_return_count must be > 0");
}

#[test]
fn test_quality_config_upper_bound_validation() {
    let mut config = CodeQualityConfig::default();
    config.max_function_lines = 10001;
    assert!(config.validate().is_err());
    assert!(config.validate().unwrap_err().contains("max_function_lines unreasonably large"));

    config = CodeQualityConfig::default();
    config.max_parameters = 21;
    assert!(config.validate().is_err());
    assert!(config.validate().unwrap_err().contains("max_parameters unreasonably large"));

    config = CodeQualityConfig::default();
    config.max_class_lines = 50001;
    assert!(config.validate().is_err());
    assert!(config.validate().unwrap_err().contains("max_class_lines unreasonably large"));

    config = CodeQualityConfig::default();
    config.max_complexity = 101;
    assert!(config.validate().is_err());
    assert!(config.validate().unwrap_err().contains("max_complexity unreasonably large"));

    config = CodeQualityConfig::default();
    config.max_nesting = 21;
    assert!(config.validate().is_err());
    assert!(config.validate().unwrap_err().contains("max_nesting unreasonably large"));

    config = CodeQualityConfig::default();
    config.max_message_chain = 21;
    assert!(config.validate().is_err());
    assert!(config.validate().unwrap_err().contains("max_message_chain unreasonably large"));

    config = CodeQualityConfig::default();
    config.max_methods = 201;
    assert!(config.validate().is_err());
    assert!(config.validate().unwrap_err().contains("max_methods unreasonably large"));

    config = CodeQualityConfig::default();
    config.max_fields = 101;
    assert!(config.validate().is_err());
    assert!(config.validate().unwrap_err().contains("max_fields unreasonably large"));

    config = CodeQualityConfig::default();
    config.max_return_count = 21;
    assert!(config.validate().is_err());
    assert!(config.validate().unwrap_err().contains("max_return_count unreasonably large"));
}

#[test]
fn test_quality_config_custom_valid_values() {
    let config = CodeQualityConfig {
        max_function_lines: 100,
        max_parameters: 6,
        max_class_lines: 500,
        max_complexity: 15,
        max_nesting: 5,
        max_message_chain: 5,
        max_methods: 30,
        max_fields: 15,
        max_return_count: 5,
    };
    assert!(config.validate().is_ok());
}

#[test]
fn test_quality_config_boundary_values() {
    let config = CodeQualityConfig {
        max_function_lines: 10000,
        max_parameters: 20,
        max_class_lines: 50000,
        max_complexity: 100,
        max_nesting: 20,
        max_message_chain: 20,
        max_methods: 200,
        max_fields: 100,
        max_return_count: 20,
    };
    assert!(config.validate().is_ok());

    let config = CodeQualityConfig {
        max_function_lines: 1,
        max_parameters: 1,
        max_class_lines: 1,
        max_complexity: 1,
        max_nesting: 1,
        max_message_chain: 1,
        max_methods: 1,
        max_fields: 1,
        max_return_count: 1,
    };
    assert!(config.validate().is_ok());
}

#[test]
fn quality_config_reports_first_bad_field_exactly() {
    let mut config = CodeQualityConfig::default();
    config.max_nesting = 0;
    config.max_fields = 500;
    assert_eq!(config.validate(), Err(s("max_nesting must be > 0")));
    let mut config = CodeQualityConfig::default();
    config.max_fields = 500;
    assert_eq!(config.validate(), Err(s("max_fields unreasonably large (>100)")));
}

#[test]
fn test_valid_project_ids() {
    assert!(validate_project_id("my-project").is_ok());
    assert!(validate_project_id("project123").is_ok());
    assert!(validate_project_id("test-project-1").is_ok());
    assert!(validate_project_id("a").is_ok());
}

#[test]
fn test_invalid_project_ids() {
    assert!(validate_project_id("").is_err());
    assert!(validate_project_id("-leading").is_err());
    assert!(validate_project_id("trailing-").is_err());
    assert!(validate_project_id("has spaces").is_err());
    assert!(validate_project_id("has/slash").is_err());
    assert!(validate_project_id("has@special").is_err());
    assert!(validate_project_id(&"a".repeat(51)).is_err());
}

#[test]
fn project_id_error_carries_the_id() {
    assert_eq!(validate_project_id("bad id"), Err(SecurityError::InvalidProjectId(s("bad id"))));
    assert!(validate_project_id(&"a".repeat(50)).is_ok());
}

#[test]
fn test_valid_project_names() {
    assert!(validate_project_name("My Project").is_ok());
    assert!(validate_project_name("Project (2025)").is_ok());
    assert!(validate_project_name("Test-Project_123").is_ok());
}

#[test]
fn test_invalid_project_names() {
    assert!(validate_project_name("").is_err());
    assert!(validate_project_name(&"a".repeat(101)).is_err());
    assert!(validate_project_name("Has\nNewline").is_err());
    assert!(validate_project_name("Has\tTab").is_err());
}

#[test]
fn project_name_errors_are_exact() {
    assert_eq!(validate_project_name(""), Err(SecurityError::InvalidName));
    assert_eq!(validate_project_name(&"a".repeat(101)), Err(SecurityError::NameTooLong(101)));
    assert!(validate_project_name(&"a".repeat(100)).is_ok());
}

#[test]
fn test_workspace_member_config() {
    let config = WorkspaceMemberConfig { enabled_members: None, disabled_members: None };
    assert!(config.is_member_enabled("danny-cli"));
    assert!(config.is_member_enabled("danny-feed"));

    let config = WorkspaceMemberConfig { enabled_members: None, disabled_members: Some(vec![s("danny-desktop")]) };
    assert!(config.is_member_enabled("danny-cli"));
    assert!(!config.is_member_enabled("danny-desktop"));

    let config = WorkspaceMemberConfig {
        enabled_members: Some(vec![s("danny-cli"), s("danny-feed")]),
        disabled_members: None,
    };
    assert!(config.is_member_enabled("danny-cli"));
    assert!(config.is_member_enabled("danny-feed"));
    assert!(!config.is_member_enabled("danny-desktop"));

    let config = WorkspaceMemberConfig {
        enabled_members: Some(vec![s("danny-cli")]),
        disabled_members: Some(vec![s("danny-cli")]),
    };
    assert!(!config.is_member_enabled("danny-cli"));
}

fn project(id: &str, name: &str) -> Project {
    Project {
        id: s(id),
        name: s(name),
        path: s("relative/path"),
        enabled: true,
        last_checked: None,
        settings: None,
        workspace_members: None,
    }
}

#[test]
fn project_list_add_get_remove() {
    let mut manager = ConfigManager::new(s("/tmp/config.json"), DannyConfig::default());
    assert_eq!(manager.config().version, "1.0");
    assert!(manager.add_project(project("web", "Web"), Ok(s("/abs/web"))).is_ok());
    assert_eq!(manager.get_project("web").unwrap().path, "/abs/web");
    assert_eq!(
        manager.add_project(project("web", "Web again"), Ok(s("/abs/web2"))),
        Err(ConfigError::ProjectExists(s("web")))
    );
    assert_eq!(manager.list_projects().len(), 1);
    assert!(manager.add_project(project("api", "API"), Ok(s("/abs/api"))).is_ok());
    assert!(manager.disable_project("web").is_ok());
    let enabled: Vec<&str> = manager.list_enabled_projects().iter().map(|p| p.id.as_str()).collect();
    assert_eq!(enabled, vec!["api"]);
    assert!(manager.enable_project("web").is_ok());
    assert_eq!(manager.list_enabled_projects().len(), 2);
    let stamp = Timestamp { secs: 1_700_000_000, nanos: 5 };
    assert!(manager.update_last_checked("api", stamp).is_ok());
    assert_eq!(manager.get_project("api").unwrap().last_checked, Some(stamp));
    assert!(manager.remove_project("web").is_ok());
    assert!(manager.get_project("web").is_none());
    assert_eq!(manager.remove_project("web"), Err(ConfigError::ProjectNotFound(s("web"))));
    assert_eq!(manager.enable_project("nope"), Err(ConfigError::ProjectNotFound(s("nope"))));
}

#[test]
fn add_project_refusals() {
    let mut manager = ConfigManager::new(s("/tmp/config.json"), DannyConfig::default());
    assert!(matches!(
        manager.add_project(project("bad id", "Name"), Ok(s("/abs"))),
        Err(ConfigError::Security(SecurityError::InvalidProjectId(_)))
    ));
    assert_eq!(
        manager.add_project(project("ok", "Bad\nName"), Ok(s("/abs"))),
        Err(ConfigError::Security(SecurityError::InvalidName))
    );
    assert_eq!(
        manager.add_project(project("ok", "Name"), Err(SecurityError::PathDoesNotExist(s("/missing")))),
        Err(ConfigError::Security(SecurityError::PathDoesNotExist(s("/missing"))))
    );
    assert_eq!(manager.list_projects().len(), 0);
}
