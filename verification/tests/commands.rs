use danny::analysis_run::{
    apply_ignore_patterns, backend_options, failed, ignore_builder_for, output_format, plan_categories, retain_categories, selects,
    CategoryPlan, OutputFormat,
};
use danny::capabilities::UnavailableReason;
use danny::capability_display::{format_reason, CapabilityDisplay, Segment, Style};
use danny::category_kind::Category;
use danny::category_validation::CategoryValidation;
use danny::config::{AnalysisTarget, FilesTarget, PackageTarget, Project, ProjectSettings, Timestamp};
use danny::config_commands::{
    accepts_continue, accepts_removal, default_project_id, default_project_name, list_lines, validate_lines,
};
use danny::findings::{AnalysisError, AnalysisResult, ErrorSeverity, ExportKind, Finding, Statistics};
use danny::ignore::{match_with_pattern, should_ignore, IgnorePatternBuilder};

fn s(x: &str) -> String {
    x.to_string()
}

fn unused_export(module: &str) -> Finding {
    Finding::UnusedExport {
        module: s(module),
        export_name: s("x"),
        kind: ExportKind::Named,
        span: None,
        is_type_only: false,
        explanation: None,
    }
}

fn unreachable_file(path: &str) -> Finding {
    Finding::UnreachableFile { path: s(path), size: 10, explanation: None }
}

fn texts(line: &[Segment]) -> Vec<(Style, String)> {
    line.iter().map(|seg| (seg.style, seg.text.clone())).collect()
}

fn project(id: &str, enabled: bool) -> Project {
    Project {
        id: s(id),
        name: s(id),
        path: format!("/work/{}", id),
        enabled,
        last_checked: None,
        settings: None,
        workspace_members: None,
    }
}

fn files_display(nearby: Option<&str>) -> CapabilityDisplay {
    CapabilityDisplay::new(
        AnalysisTarget::Files(FilesTarget {
            files: vec![s("foo.ts")],
            working_dir: s("/project"),
            nearby_package: nearby.map(s),
        }),
        false,
    )
}

#[test]
fn json_flag_overrides_format() {
    assert_eq!(output_format(true, OutputFormat::Human), OutputFormat::Json);
    assert_eq!(output_format(false, OutputFormat::Human), OutputFormat::Human);
    assert_eq!(output_format(false, OutputFormat::Json), OutputFormat::Json);
}

#[test]
fn category_plans() {
    let defaults = || CategoryValidation::UseDefaults { categories: vec![Category::Files, Category::Exports] };
    match plan_categories(defaults(), false) {
        CategoryPlan::Run { categories, announce_defaults } => {
            assert_eq!(categories, vec![Category::Files, Category::Exports]);
            assert!(announce_defaults);
        },
        other => panic!("unexpected plan {:?}", other),
    }
    match plan_categories(defaults(), true) {
        CategoryPlan::Run { announce_defaults, .. } => assert!(!announce_defaults),
        other => panic!("unexpected plan {:?}", other),
    }
    let partial = || CategoryValidation::PartiallyAvailable {
        available: vec![Category::Symbols],
        unavailable: vec![Category::Files],
    };
    match plan_categories(partial(), false) {
        CategoryPlan::Confirm { available, unavailable } => {
            assert_eq!(available, vec![Category::Symbols]);
            assert_eq!(unavailable, vec![Category::Files]);
        },
        other => panic!("unexpected plan {:?}", other),
    }
    match plan_categories(partial(), true) {
        CategoryPlan::Run { categories, announce_defaults } => {
            assert_eq!(categories, vec![Category::Symbols]);
            assert!(!announce_defaults);
        },
        other => panic!("unexpected plan {:?}", other),
    }
    let none = CategoryValidation::NoneAvailable { requested: vec![Category::Files], unavailable: vec![Category::Files] };
    assert!(matches!(plan_categories(none, true), CategoryPlan::Stop { .. }));
}

#[test]
fn backend_options_follow_categories() {
    let cats = vec![Category::Imports, Category::Symbols, Category::Files];
    assert!(selects(&cats, Category::Symbols));
    assert!(!selects(&cats, Category::Quality));
    let opts = backend_options(&cats);
    assert_eq!(opts, vec![(s("symbols"), Some(true)), (s("detect_import_patterns"), Some(true))]);
    let all = backend_options(&vec![Category::Dependencies, Category::Quality, Category::Symbols, Category::Imports]);
    let names: Vec<&str> = all.iter().map(|o| o.0.as_str()).collect();
    assert_eq!(names, vec!["symbols", "quality", "detect_npm_dependencies", "detect_import_patterns"]);
    assert!(backend_options(&vec![Category::Files]).is_empty());
}

#[test]
fn retain_keeps_selected_categories_in_order() {
    let findings = vec![unused_export("a.ts"), unreachable_file("b.ts"), unused_export("c.ts")];
    let kept = retain_categories(findings.clone(), &vec![Category::Exports]);
    assert_eq!(kept, vec![unused_export("a.ts"), unused_export("c.ts")]);
    let none = retain_categories(findings, &vec![Category::Quality]);
    assert!(none.is_empty());
}

#[test]
fn ignore_patterns_move_findings_and_recount() {
    let (set, infos) = IgnorePatternBuilder::new()
        .no_defaults()
        .add_pattern("**/*.test.ts")
        .expect("pattern")
        .build_with_metadata()
        .expect("build");
    let mut result = AnalysisResult {
        findings: vec![unused_export("src/a.ts"), unused_export("src/a.test.ts"), unreachable_file("src/b.test.ts")],
        statistics: Statistics::empty(),
        errors: vec![AnalysisError { file: s("a.ts"), message: s("boom"), severity: ErrorSeverity::Error }],
        ignored_findings: vec![],
    };
    apply_ignore_patterns(&mut result, &set, &infos);
    assert_eq!(result.findings, vec![unused_export("src/a.ts")]);
    assert_eq!(result.ignored_findings.len(), 2);
    assert_eq!(result.statistics.ignored_findings_count, 2);
    let breakdown = result.statistics.ignored_findings_breakdown.clone().expect("breakdown");
    assert_eq!(breakdown.unused_exports, 1);
    assert_eq!(breakdown.unreachable_files, 1);
    assert_eq!(result.statistics.unused_exports_count, 1);
    assert!(failed(&result));
    result.errors.clear();
    assert!(!failed(&result));
}

#[test]
fn reasons_in_words() {
    assert_eq!(format_reason(UnavailableReason::RequiresFullGraph), "requires full dependency graph");
    assert_eq!(format_reason(UnavailableReason::RequiresNodeModules), "node_modules not found (run npm install)");
    let d = files_display(None);
    assert_eq!(d.get_unavailable_reason(Category::Files), Some("requires full dependency graph"));
    assert_eq!(d.get_unavailable_reason(Category::Framework), Some("requires package.json context"));
    assert_eq!(d.get_unavailable_reason(Category::Symbols), None);
    assert!(!d.auto_confirms());
}

#[test]
fn package_suggestion_names_the_directory() {
    let d = files_display(Some("/project/package.json"));
    let line = d.get_package_suggestion().expect("suggestion");
    assert_eq!(
        texts(&line),
        vec![
            (Style::BrightBlue, s("To enable all categories, run:")),
            (Style::Plain, s("\n  ")),
            (Style::Cyan, s("danny /project")),
        ]
    );
    assert!(files_display(None).get_package_suggestion().is_none());
}

#[test]
fn category_list_in_files_mode() {
    let d = files_display(None);
    let lines = d.display_list_categories();
    assert_eq!(texts(&lines[0]), vec![(Style::BrightYellowBold, s("📄 File-Level Analysis Mode"))]);
    assert!(lines[1].is_empty());
    assert_eq!(texts(&lines[2]), vec![(Style::Bold, s("Available categories:"))]);
    assert_eq!(
        texts(&lines[3]),
        vec![
            (Style::Plain, s("  ")),
            (Style::Green, s("✓")),
            (Style::Plain, s(" ")),
            (Style::Cyan, s("symbols     ")),
            (Style::Plain, s(" ")),
            (Style::Plain, s("Dead code within files")),
        ]
    );
    // four available, a blank line, the heading, five unavailable
    assert_eq!(lines.len(), 3 + 4 + 2 + 5);
    assert_eq!(
        texts(&lines[9]),
        vec![
            (Style::Plain, s("  ")),
            (Style::Red, s("✗")),
            (Style::Plain, s(" ")),
            (Style::BrightBlack, s("files       ")),
            (Style::Plain, s(" ")),
            (Style::BrightBlack, s("requires full dependency graph")),
        ]
    );
}

#[test]
fn package_mode_header_and_defaults_notice() {
    let d = CapabilityDisplay::new(
        AnalysisTarget::Package(PackageTarget {
            root: s("/p"),
            entry_points: vec![],
            framework: None,
            has_node_modules: true,
        }),
        true,
    );
    let h = d.mode_header();
    assert_eq!((h.style, h.text.as_str()), (Style::BrightBlueBold, "📦 Package Mode Analysis"));
    assert!(d.auto_confirms());
    let notice = d.show_using_defaults(&[Category::Files, Category::Exports]);
    assert_eq!(notice.len(), 4);
    assert_eq!(texts(&notice[0]), vec![(Style::BrightBlue, s("Using default categories:"))]);
    assert_eq!(texts(&notice[2]), vec![(Style::Plain, s("  ")), (Style::Cyan, s("•")), (Style::Plain, s(" exports"))]);
    assert!(notice[3].is_empty());
}

#[test]
fn partial_and_none_warnings() {
    let d = files_display(None);
    let warning = d.show_partial_warning(&[Category::Symbols], &[Category::Files]);
    assert_eq!(
        texts(&warning[1]),
        vec![
            (Style::Yellow, s("⚠️ ")),
            (Style::Plain, s(" ")),
            (Style::YellowBold, s("Warning: Some categories unavailable")),
        ]
    );
    assert_eq!(texts(&warning[4]), vec![(Style::Plain, s("  ")), (Style::Green, s("✓")), (Style::Plain, s(" symbols"))]);
    assert_eq!(
        texts(&warning[7]),
        vec![
            (Style::Plain, s("  ")),
            (Style::Red, s("✗")),
            (Style::Plain, s(" files - requires full dependency graph")),
        ]
    );
    assert_eq!(warning.len(), 9);
    let none = d.show_none_available(&[Category::Files, Category::Circular], &[Category::Files, Category::Circular]);
    assert_eq!(
        texts(&none[1]),
        vec![
            (Style::Red, s("❌")),
            (Style::Plain, s(" ")),
            (Style::RedBold, s("Error: No requested categories are available")),
        ]
    );
    assert_eq!(none.len(), 4 + 2 + 1);
}

#[test]
fn default_project_names_and_ids() {
    assert_eq!(default_project_id(Some("My App_2")), "my-app-2");
    assert_eq!(default_project_id(Some("web-ui")), "web-ui");
    assert_eq!(default_project_id(None), "project");
    assert_eq!(default_project_name(Some("My App")), "My App");
    assert_eq!(default_project_name(None), "Project");
}

#[test]
fn prompt_answers() {
    assert!(accepts_continue(""));
    assert!(accepts_continue("  Y \n"));
    assert!(accepts_continue("yes"));
    assert!(accepts_continue("YES"));
    assert!(!accepts_continue("no"));
    assert!(!accepts_continue("yep"));
    assert!(accepts_removal("y"));
    assert!(accepts_removal(" Y\n"));
    assert!(!accepts_removal(""));
    assert!(!accepts_removal("yes"));
}

#[test]
fn list_of_projects() {
    assert_eq!(list_lines(&vec![], false), vec![s("No projects configured."), s("Add a project with: danny config add <path>")]);
    let mut a = project("alpha", true);
    a.last_checked = Some(Timestamp { secs: 0, nanos: 0 });
    a.settings = Some(ProjectSettings { fetch_changelogs: Some(true), include_dev_deps: None, registry_only: None });
    let b = project("beta", false);
    let lines = list_lines(&vec![a.clone(), b.clone()], false);
    assert_eq!(
        lines,
        vec![
            s("\nConfigured Projects:"),
            "=".repeat(60),
            s("\n✓ alpha (alpha)"),
            s("  Path: /work/alpha"),
            s("  Last checked: 1970-01-01 00:00:00"),
            s("  Settings: custom overrides"),
            s("\n✗ beta (beta)"),
            s("  Path: /work/beta"),
            s("\nTotal: 2 project(s)"),
        ]
    );
    let enabled = list_lines(&vec![a, b.clone()], true);
    assert_eq!(enabled.last().unwrap(), "\nTotal: 1 project(s)");
    assert_eq!(list_lines(&vec![b], true).len(), 2);
}

#[test]
fn validation_report() {
    let ps = vec![project("alpha", true), project("beta", false), project("gamma", true)];
    let lines = validate_lines("1.0", &ps, &vec![false, true, false]);
    assert_eq!(
        lines,
        vec![
            s("✓ Config is valid"),
            s("  Version: 1.0"),
            s("  Projects: 3"),
            s("  Enabled: 2"),
            s("\nWarning: Some project paths no longer exist:"),
            s("  - beta"),
        ]
    );
    assert_eq!(validate_lines("1.0", &ps, &vec![false, false, false]).len(), 4);
}

#[test]
fn reported_pattern_agrees_with_should_ignore() {
    let (set, infos) = IgnorePatternBuilder::new()
        .no_defaults()
        .add_pattern("**/*.test.ts")
        .expect("pattern")
        .add_pattern("dist/**")
        .expect("pattern")
        .build_with_metadata()
        .expect("build");
    for path in ["src/a.test.ts", "dist/x.js", "src/a.ts", "dist"] {
        let reported = match_with_pattern(path, &set, &infos);
        assert_eq!(reported.is_some(), should_ignore(path, &set), "{}", path);
    }
    assert_eq!(match_with_pattern("dist/a.test.ts", &set, &infos), Some(s("**/*.test.ts")));
}

#[test]
fn ignore_patterns_of_a_run() {
    let (set, infos) = ignore_builder_for(true, &vec![s("**/*.ts")], Some(vec![s("dist/")]))
        .ok()
        .expect("builder")
        .build_with_metadata()
        .expect("build");
    assert!(infos.is_empty());
    assert!(!should_ignore("node_modules/a.js", &set));
    let (set, infos) = ignore_builder_for(false, &vec![s("**/*.gen.ts")], Some(vec![s(""), s("**/dist/**")]))
        .ok()
        .expect("builder")
        .build_with_metadata()
        .expect("build");
    let user: Vec<&str> = infos.iter().rev().take(2).map(|i| i.pattern.as_str()).collect();
    assert_eq!(user, vec!["**/dist/**", "**/*.gen.ts"]);
    assert!(should_ignore("node_modules/a.js", &set));
    assert!(should_ignore("src/a.gen.ts", &set));
    match ignore_builder_for(false, &vec![s("a[")], None) {
        Err((_, from_gitignore)) => assert!(!from_gitignore),
        Ok(_) => panic!("invalid pattern accepted"),
    }
    match ignore_builder_for(false, &vec![], Some(vec![s("b[")])) {
        Err((_, from_gitignore)) => assert!(from_gitignore),
        Ok(_) => panic!("invalid pattern accepted"),
    }
}
