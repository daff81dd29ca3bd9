use danny::braces::expand_braces;
use danny::category_kind::Category;
use danny::category_validation::{CategoryValidation, CategoryValidator};
use danny::config::{AnalysisTarget, FilesTarget, Framework, PackageTarget};
use danny::entry_points::{
    detect_framework_in, join_path, merge_entry_points, validate_entry_point, validate_path, validate_project_root,
    EntryPointDetector, TargetPlan,
};
use danny::error::Error;
use danny::format::{format_bytes, pad_number, sanitize_terminal_string};
use danny::ignore::{
    gitignore_to_glob_pattern, match_with_pattern, parse_gitignore_content, should_ignore, IgnorePatternBuilder,
};

fn s(x: &str) -> String {
    x.to_string()
}

fn package_target() -> AnalysisTarget {
    AnalysisTarget::Package(PackageTarget {
        root: s("/project"),
        entry_points: vec![],
        framework: None,
        has_node_modules: true,
    })
}

fn files_target(nearby: Option<&str>) -> AnalysisTarget {
    AnalysisTarget::Files(FilesTarget { files: vec![s("foo.ts")], working_dir: s("/project"), nearby_package: nearby.map(s) })
}

#[test]
fn test_validate_all_available_package_mode() {
    let validator = CategoryValidator::new(&package_target());
    match validator.validate(&[Category::Files, Category::Exports]) {
        CategoryValidation::AllAvailable { categories } => assert_eq!(categories.len(), 2),
        _ => panic!("Expected AllAvailable"),
    }
}

#[test]
fn test_validate_none_available_files_mode() {
    let validator = CategoryValidator::new(&files_target(None));
    match validator.validate(&[Category::Files, Category::Circular]) {
        CategoryValidation::NoneAvailable { unavailable, .. } => assert_eq!(unavailable.len(), 2),
        _ => panic!("Expected NoneAvailable"),
    }
}

#[test]
fn test_validate_partial_files_mode() {
    let validator = CategoryValidator::new(&files_target(Some("/project/package.json")));
    let result = validator.validate(&[Category::Symbols, Category::Files, Category::Quality]);
    assert!(result.requires_confirmation());
    match result {
        CategoryValidation::PartiallyAvailable { available, unavailable } => {
            assert_eq!(available.len(), 2);
            assert_eq!(unavailable.len(), 1);
        }
        _ => panic!("Expected PartiallyAvailable"),
    }
}

#[test]
fn test_defaults_package_mode() {
    let validator = CategoryValidator::new(&package_target());
    match validator.validate(&[]) {
        CategoryValidation::UseDefaults { categories } => {
            assert!(categories.contains(&Category::Files));
            assert!(categories.contains(&Category::Exports));
            assert!(categories.contains(&Category::Dependencies));
        }
        _ => panic!("Expected UseDefaults"),
    }
}

#[test]
fn test_defaults_files_mode() {
    let validator = CategoryValidator::new(&files_target(None));
    match validator.validate(&[]) {
        CategoryValidation::UseDefaults { categories } => {
            assert!(categories.contains(&Category::Symbols));
            assert!(categories.contains(&Category::Quality));
            assert!(!categories.contains(&Category::Files));
        }
        _ => panic!("Expected UseDefaults"),
    }
}

#[test]
fn package_without_framework_lacks_framework_category() {
    let validator = CategoryValidator::new(&package_target());
    match validator.validate(&[Category::Framework, Category::Files]) {
        CategoryValidation::PartiallyAvailable { available, unavailable } => {
            assert_eq!(available, vec![Category::Files]);
            assert_eq!(unavailable, vec![Category::Framework]);
        }
        _ => panic!("Expected PartiallyAvailable"),
    }
    let with_framework = AnalysisTarget::Package(PackageTarget {
        root: s("/p"),
        entry_points: vec![],
        framework: Some(Framework::React),
        has_node_modules: false,
    });
    assert!(with_framework.supports_category(Category::Framework));
    assert!(!with_framework.supports_category(Category::Dependencies));
}

#[test]
fn test_sanitize_terminal_string() {
    let malicious = "normal\x1b[31mtext";
    let sanitized = sanitize_terminal_string(malicious);
    assert!(!sanitized.contains('\x1b'));
    assert_eq!(sanitized, "normal[31mtext");
}

#[test]
fn sanitize_keeps_newlines_and_tabs() {
    assert_eq!(sanitize_terminal_string("a\nb\tc\u{7}d\u{9b}e"), "a\nb\tcde");
}

#[test]
fn test_pad_number() {
    assert_eq!(pad_number(5), "  5");
    assert_eq!(pad_number(42), " 42");
    assert_eq!(pad_number(123), "123");
}

#[test]
fn pad_number_wide_values_unpadded() {
    assert_eq!(pad_number(0), "  0");
    assert_eq!(pad_number(12345), "12345");
}

#[test]
fn tests_test_format_bytes() {
    assert_eq!(format_bytes(500), "500 bytes");
    assert_eq!(format_bytes(1024), "1.0 KB");
    assert_eq!(format_bytes(2048), "2.0 KB");
    assert_eq!(format_bytes(1024 * 1024), "1.00 MB");
    assert_eq!(format_bytes(1024 * 1024 * 2), "2.00 MB");
}

#[test]
fn format_bytes_matches_float_formatting() {
    let samples: Vec<usize> = vec![
        0, 1, 1023, 1024, 1075, 1076, 1100, 1126, 1127, 1536, 1587, 10239, 10240, 1048575, 1048576, 1053818,
        1058013, 5_000_000, 123_456_789, 9_999_999_999, 1 << 53, (1 << 53) + 1, (1 << 60) + 12345, usize::MAX,
    ];
    for b in samples {
        let expected = if b >= 1024 * 1024 {
            format!("{:.2} MB", b as f64 / (1024.0 * 1024.0))
        } else if b >= 1024 {
            format!("{:.1} KB", b as f64 / 1024.0)
        } else {
            format!("{} bytes", b)
        };
        assert_eq!(format_bytes(b), expected, "bytes = {}", b);
    }
}

#[test]
fn test_expand_braces_simple() {
    assert_eq!(expand_braces("file.{ts,js}"), vec!["file.ts", "file.js"]);
}

#[test]
fn test_expand_braces_multiple_extensions() {
    assert_eq!(expand_braces("page.{ts,tsx,js,jsx}"), vec!["page.ts", "page.tsx", "page.js", "page.jsx"]);
}

#[test]
fn test_expand_braces_with_path() {
    assert_eq!(expand_braces("**/app/**/page.{ts,tsx}"), vec!["**/app/**/page.ts", "**/app/**/page.tsx"]);
}

#[test]
fn test_expand_braces_no_braces() {
    assert_eq!(expand_braces("file.ts"), vec!["file.ts"]);
}

#[test]
fn test_expand_braces_nested() {
    assert_eq!(
        expand_braces("file.{ts,js}.{map,bak}"),
        vec!["file.ts.map", "file.ts.bak", "file.js.map", "file.js.bak"]
    );
}

#[test]
fn test_expand_braces_complex() {
    assert_eq!(
        expand_braces("**/src/app/**/page.{ts,tsx,js,jsx}"),
        vec!["**/src/app/**/page.ts", "**/src/app/**/page.tsx", "**/src/app/**/page.js", "**/src/app/**/page.jsx"]
    );
}

#[test]
fn expand_braces_unclosed_is_literal() {
    assert_eq!(expand_braces("file.{ts"), vec!["file.{ts"]);
}

#[test]
fn test_validate_project_root_rejects_root() {
    assert!(validate_project_root("/").is_err());
}

#[test]
fn test_validate_project_root_rejects_system_dirs() {
    assert!(validate_project_root("/bin").is_err());
    assert!(validate_project_root("/etc").is_err());
    assert!(validate_project_root("/usr").is_err());
}

#[test]
fn validate_project_root_messages() {
    assert_eq!(
        validate_project_root("/"),
        Err(Error::InvalidConfig { message: s("Refusing to scan filesystem root") })
    );
    assert_eq!(
        validate_project_root("/usr/local/src"),
        Err(Error::InvalidConfig { message: s("Refusing to scan system directory: /usr") })
    );
    assert!(validate_project_root("/home/me/project").is_ok());
    assert!(validate_project_root("/usrdata/project").is_ok());
}

#[test]
fn entry_point_checks() {
    assert_eq!(validate_entry_point("src/index.js", "/pkg"), Ok(s("/pkg/src/index.js")));
    assert_eq!(validate_entry_point("index.js", "/pkg/"), Ok(s("/pkg/index.js")));
    assert_eq!(
        validate_entry_point("/etc/passwd", "/pkg"),
        Err(Error::InvalidPath { path: s("/etc/passwd"), reason: s("Entry point cannot be an absolute path") })
    );
    assert_eq!(
        validate_entry_point("dist/*.js", "/pkg"),
        Err(Error::InvalidPath {
            path: s("dist/*.js"),
            reason: s("Entry point cannot contain glob patterns (*, ?, **)")
        })
    );
    assert_eq!(join_path("", "a.js"), "a.js");
    assert_eq!(merge_entry_points(Some(s("a.js")), Some(s("a.js"))), vec![s("a.js")]);
    assert_eq!(merge_entry_points(Some(s("a.js")), Some(s("b.mjs"))), vec![s("a.js"), s("b.mjs")]);
    assert_eq!(merge_entry_points(None, None), Vec::<String>::new());
}

#[test]
fn validate_path_outcomes() {
    assert!(validate_path("src/a.ts", "/p", &Ok(s("/p/src/a.ts")), &Ok(s("/p"))).is_ok());
    assert_eq!(
        validate_path("../x", "/p", &Ok(s("/x")), &Ok(s("/p"))),
        Err(Error::PathTraversal { attempted_path: s("../x"), project_root: s("/p") })
    );
    assert_eq!(
        validate_path("a", "/p", &Err(s("gone")), &Ok(s("/p"))),
        Err(Error::InvalidPath { path: s("a"), reason: s("Cannot canonicalize: gone") })
    );
    assert_eq!(
        validate_path("a", "/p", &Ok(s("/p/a")), &Err(s("gone"))),
        Err(Error::InvalidPath { path: s("/p"), reason: s("Cannot canonicalize project root: gone") })
    );
}

#[test]
fn framework_detection_order() {
    assert_eq!(detect_framework_in(r#"{"dependencies":{"next":"14","react":"18"}}"#), Some(Framework::NextJs));
    assert_eq!(detect_framework_in(r#"{"dependencies":{"react":"18"}}"#), Some(Framework::React));
    assert_eq!(detect_framework_in(r#"{"dependencies":{"@vue/core":"3"}}"#), Some(Framework::Vue));
    assert_eq!(detect_framework_in(r#"{"dependencies":{"svelte":"4"}}"#), Some(Framework::Svelte));
    assert_eq!(detect_framework_in(r#"{"dependencies":{}}"#), None);
}

#[test]
fn target_detection() {
    let d = EntryPointDetector::new(s("/work"));
    assert!(matches!(d.detect_target(&vec![], false, false), TargetPlan::PackageFromDirectory(p) if p == "/work"));
    assert!(matches!(d.detect_target(&vec![s("app")], false, true), TargetPlan::PackageFromDirectory(p) if p == "app"));
    assert!(matches!(d.detect_target(&vec![s("a.ts")], false, false), TargetPlan::Files(f) if f == vec![s("a.ts")]));
    assert!(matches!(d.detect_target(&vec![s("a.ts"), s("b.ts")], true, false), TargetPlan::PackageForPath(p) if p == "a.ts"));
    assert!(
        matches!(d.detect_target(&vec![s("a.ts"), s("b.ts")], false, true), TargetPlan::Files(f) if f.len() == 2)
    );
}

#[test]
fn test_default_patterns_match_node_modules() {
    let ignore_set = IgnorePatternBuilder::new().build().expect("Failed to build ignore set");
    assert!(should_ignore("node_modules/react/index.js", &ignore_set));
    assert!(should_ignore("project/node_modules/lodash/index.js", &ignore_set));
}

#[test]
fn test_default_patterns_match_build_dirs() {
    let ignore_set = IgnorePatternBuilder::new().build().expect("Failed to build ignore set");
    assert!(should_ignore(".next/static/foo.js", &ignore_set));
    assert!(should_ignore("dist/bundle.js", &ignore_set));
    assert!(should_ignore("build/output.js", &ignore_set));
}

#[test]
fn test_custom_patterns() {
    let ignore_set = IgnorePatternBuilder::new()
        .add_pattern("**/*.test.js")
        .expect("Failed to add pattern")
        .build()
        .expect("Failed to build ignore set");
    assert!(should_ignore("src/foo.test.js", &ignore_set));
    assert!(!should_ignore("src/foo.js", &ignore_set));
}

#[test]
fn test_no_defaults() {
    let ignore_set = IgnorePatternBuilder::new().no_defaults().build().expect("Failed to build ignore set");
    assert!(!should_ignore("node_modules/react/index.js", &ignore_set));
    assert!(!should_ignore(".next/foo.js", &ignore_set));
}

#[test]
fn test_user_patterns_do_not_match() {
    let ignore_set = IgnorePatternBuilder::new().build().expect("Failed to build ignore set");
    assert!(!should_ignore("src/index.js", &ignore_set));
    assert!(!should_ignore("pages/about.tsx", &ignore_set));
    assert!(!should_ignore("utils/helpers.ts", &ignore_set));
}

#[test]
fn test_build_with_metadata() {
    let (_ignore_set, pattern_infos) = IgnorePatternBuilder::new()
        .add_pattern("**/*.test.js")
        .expect("Failed to add pattern")
        .build_with_metadata()
        .expect("Failed to build with metadata");
    assert!(pattern_infos.len() > 1);
    assert!(pattern_infos.iter().any(|p| p.pattern == "**/*.test.js"));
}

#[test]
fn test_match_with_pattern() {
    let (ignore_set, pattern_infos) = IgnorePatternBuilder::new()
        .add_patterns(&vec![s("**/*.test.js"), s("**/dist/**")])
        .expect("Failed to add patterns")
        .build_with_metadata()
        .expect("Failed to build with metadata");

    let matched = match_with_pattern("src/foo.test.js", &ignore_set, &pattern_infos);
    assert!(matched.is_some());
    assert_eq!(matched.unwrap(), "**/*.test.js");

    let matched = match_with_pattern("dist/bundle.js", &ignore_set, &pattern_infos);
    assert!(matched.is_some());
    assert_eq!(matched.unwrap(), "**/dist/**");

    let matched = match_with_pattern("src/index.js", &ignore_set, &pattern_infos);
    assert!(matched.is_none());
}

#[test]
fn test_no_defaults_with_metadata() {
    let (ignore_set, pattern_infos) = IgnorePatternBuilder::new()
        .no_defaults()
        .add_pattern("**/*.foo")
        .expect("Failed to add pattern")
        .build_with_metadata()
        .expect("Failed to build with metadata");
    assert_eq!(pattern_infos.len(), 1);
    assert_eq!(pattern_infos[0].pattern, "**/*.foo");
    assert!(!should_ignore("node_modules/react/index.js", &ignore_set));
}

#[test]
fn metadata_lists_defaults_reversed_then_user_patterns() {
    let (_set, infos) = IgnorePatternBuilder::new()
        .add_pattern("**/*.snap")
        .expect("Failed to add pattern")
        .build_with_metadata()
        .expect("Failed to build with metadata");
    let defaults = danny::ignore::default_patterns();
    assert_eq!(infos.len(), defaults.len() + 1);
    for (k, info) in infos.iter().enumerate() {
        assert_eq!(info.index, k);
    }
    for k in 0..defaults.len() {
        assert_eq!(infos[k].pattern, defaults[defaults.len() - 1 - k]);
    }
    assert_eq!(infos[defaults.len()].pattern, "**/*.snap");
}

#[test]
fn invalid_pattern_is_refused() {
    assert!(IgnorePatternBuilder::new().add_pattern("a[").is_err());
}

#[test]
fn gitignore_conversion() {
    assert_eq!(gitignore_to_glob_pattern("node_modules/"), "**/node_modules");
    assert_eq!(gitignore_to_glob_pattern("  /build  "), "build");
    assert_eq!(gitignore_to_glob_pattern("src/gen"), "**/src/gen");
    assert_eq!(gitignore_to_glob_pattern("!keep.js"), "");
    let patterns = parse_gitignore_content("# comment\n\ncoverage/\n!keep.js\r\n*.log\n");
    assert_eq!(patterns, vec![s("**/coverage"), s(""), s("**/*.log")]);
}
