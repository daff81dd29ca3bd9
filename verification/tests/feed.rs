use danny::config::{GlobalSettings, Project, ProjectSettings, Timestamp, WorkspaceMemberConfig};
use danny::feed::{
    event_line, feed_project_lines, feed_projects, feed_settings, print_feed, print_feed_summary, summary_kind,
    ChangelogEntry, FeedCommand, FeedEvent, FeedSummary, FeedView, FeedViewCommand, FreshnessEntry, PackageEntry,
    SummaryKind, UpdateEntry, VelocityEntry,
};
use danny::monorepo::{
    print_monorepo_feed, FeedPackage, InternalDependency, MonorepoDisplayConfig, MonorepoFeed, SharedDependency,
    WorkspaceMemberFeed,
};
use danny::projects::{ConfigManager, DannyConfig};

fn s(x: &str) -> String {
    x.to_string()
}

fn package(name: &str, current: &str, latest: &str) -> FeedPackage {
    FeedPackage { name: s(name), current_version: s(current), latest_version: s(latest) }
}

fn empty_monorepo() -> MonorepoFeed {
    MonorepoFeed {
        project_name: s("test-monorepo"),
        ecosystem: s("Rust"),
        generated_at: Timestamp { secs: 0, nanos: 0 },
        workspace_members: vec![],
        shared_dependencies: vec![],
        internal_dependencies: vec![],
    }
}

fn project(id: &str, enabled: bool) -> Project {
    Project {
        id: s(id),
        name: s(id),
        path: format!("/work/{}", id),
        enabled,
        last_checked: None,
        settings: None,
        workspace_members: None,
    }
}

#[test]
fn test_print_empty_monorepo() {
    let feed = empty_monorepo();
    let config = MonorepoDisplayConfig::default();
    let output = print_monorepo_feed(&feed, &config).join("\n");
    assert!(output.contains("📦"));
    assert!(output.contains("(Monorepo)"));
    assert!(output.contains("Members: 0"));
}

#[test]
fn monorepo_view_in_full() {
    let mut feed = empty_monorepo();
    feed.workspace_members = vec![
        WorkspaceMemberFeed { name: s("core"), packages: vec![package("serde", "1.0", "1.1"), package("log", "0.4", "0.4")] },
        WorkspaceMemberFeed { name: s("cli"), packages: vec![] },
    ];
    feed.shared_dependencies = vec![SharedDependency {
        package: package("serde", "1.0", "1.1"),
        used_by_members: vec![s("core"), s("cli"), s("a"), s("b"), s("c"), s("d")],
    }];
    feed.internal_dependencies = vec![
        InternalDependency { from_member: s("web"), to_member: s("core"), version_spec: s("^1") },
        InternalDependency { from_member: s("cli"), to_member: s("core"), version_spec: s("*") },
        InternalDependency { from_member: s("web"), to_member: s("ui\u{1b}"), version_spec: s("^2") },
    ];
    let lines = print_monorepo_feed(&feed, &MonorepoDisplayConfig::default());
    let expected: Vec<String> = vec![
        s("┏━━━━━━━━━━━━━━━━━━━━━━━━━━━━━━━━━━━━━━━━━━━━━━━━━━━━━━━━━━━━━━━━━━━━━━━"),
        s("┃ 📦 test-monorepo (Monorepo)"),
        s("┃ Ecosystem: Rust │ Members: 2 │ Updated: 1970-01-01 00:00 UTC"),
        s("┗━━━━━━━━━━━━━━━━━━━━━━━━━━━━━━━━━━━━━━━━━━━━━━━━━━━━━━━━━━━━━━━━━━━━━━━"),
        s(""),
        s("╔═══ Workspace Summary ═══╗"),
        s("║ Members:                2 ║"),
        s("║ Shared Dependencies:    1 ║"),
        s("║ Internal Dependencies:   3 ║"),
        s("╚═════════════════════════╝"),
        s(""),
        s("🔗 Shared Dependencies (1):"),
        s(""),
        s("└─ 📤 serde (used by 6 members)"),
        s("     Current: 1.0 → Latest: 1.1"),
        s("     Used by: core, cli, a, ... and 3 more"),
        s(""),
        s("🔄 Internal Dependencies (3):"),
        s(""),
        s("├─ 📄 cli"),
        s("│  └─ → core (*)"),
        s("│"),
        s("└─ 📄 web"),
        s("    ├─ → core (^1)"),
        s("    └─ → ui (^2)"),
        s(""),
        s("📁 Workspace Members (2):"),
        s(""),
        s("├─ 📄 core (2 dependencies)"),
        s("│  ├─ 📤 serde → 1.1"),
        s("│  │   (current: 1.0)"),
        s("│  └─ ✓ log → 0.4"),
        s(""),
        s("└─ 📄 cli (0 dependencies)"),
        s("     (no external dependencies)"),
    ];
    assert_eq!(lines, expected);
    let compact = MonorepoDisplayConfig { show_shared_deps: false, show_internal_deps: false, show_member_details: true, compact_mode: true };
    let lines = print_monorepo_feed(&feed, &compact);
    assert_eq!(&lines[11..], &[s("📁 Workspace Members (2):"), s(""), s("├─ 📄 core (2 dependencies)"), s("└─ 📄 cli (0 dependencies)")]);
}

#[test]
fn feed_views_and_commands() {
    assert_eq!(FeedViewCommand::Changelogs.to_view(), FeedView::ChangelogRiver);
    assert_eq!(FeedViewCommand::Patches.to_view(), FeedView::PatchParadise);
    let cmd = FeedCommand { project_id: None, all: true, stream: false, view: None };
    assert_eq!(cmd.chosen_view(), FeedView::Updates);
    let cmd = FeedCommand { project_id: None, all: true, stream: false, view: Some(FeedViewCommand::Minor) };
    assert_eq!(cmd.chosen_view(), FeedView::MinorUpdates);
    assert_eq!(summary_kind(FeedView::Velocity), SummaryKind::Velocity);
    assert_eq!(summary_kind(FeedView::BreakingChanges), SummaryKind::Packages);
}

#[test]
fn projects_for_a_feed() {
    let mut config = DannyConfig::default_config();
    config.projects = vec![project("web", true), project("old", false), project("api", true)];
    let manager = ConfigManager::new(s("/c.toml"), config);
    let all = FeedCommand { project_id: None, all: true, stream: false, view: None };
    let (ps, warning) = feed_projects(&manager, &all).expect("projects");
    let ids: Vec<&str> = ps.iter().map(|p| p.id.as_str()).collect();
    assert_eq!(ids, vec!["web", "api"]);
    assert!(warning.is_none());
    let one = FeedCommand { project_id: Some(s("old")), all: false, stream: false, view: None };
    let (ps, warning) = feed_projects(&manager, &one).expect("project");
    assert_eq!(ps.len(), 1);
    assert_eq!(warning, Some(s("Warning: Project 'old' is disabled")));
    let missing = FeedCommand { project_id: Some(s("nope")), all: false, stream: false, view: None };
    assert_eq!(feed_projects(&manager, &missing).err(), Some(s("Project not found: nope")));
    let neither = FeedCommand { project_id: None, all: false, stream: false, view: None };
    assert_eq!(feed_projects(&manager, &neither).err(), Some(s("Please specify a project ID or use --all")));
    assert_eq!(feed_project_lines(&ps[0]), vec![s("\nold (old)"), s("  Path: /work/old")]);
}

#[test]
fn feed_settings_follow_overrides() {
    let global = GlobalSettings::default_settings();
    let mut p = project("web", true);
    let plain = feed_settings(&p, &global);
    assert_eq!(plain.fetch_changelogs, global.fetch_changelogs);
    assert_eq!(plain.include_dev_deps, global.include_dev_deps);
    assert!(plain.include_workspaces && !plain.updates_only);
    assert_eq!(plain.max_recent_updates, 10);
    p.settings = Some(ProjectSettings { fetch_changelogs: Some(!global.fetch_changelogs), include_dev_deps: None, registry_only: Some(false) });
    p.workspace_members = Some(WorkspaceMemberConfig { enabled_members: Some(vec![s("core")]), disabled_members: None });
    let custom = feed_settings(&p, &global);
    assert_eq!(custom.fetch_changelogs, !global.fetch_changelogs);
    assert_eq!(custom.include_dev_deps, global.include_dev_deps);
    assert!(!custom.registry_only);
    assert_eq!(custom.workspace_member_config.unwrap().enabled_members, Some(vec![s("core")]));
}

#[test]
fn progress_events() {
    let resolved = FeedEvent::PackageResolved {
        name: s("serde"),
        has_update: true,
        current_version: s("1.0"),
        latest_version: s("1.1"),
        index: 4,
        total: 12,
    };
    assert_eq!(event_line(&resolved), (false, s("  [  5/12] serde - UPDATE: 1.0 -> 1.1")));
    assert_eq!(
        event_line(&FeedEvent::Progress { completed: 3, total: 9, elapsed_ms: 250 }),
        (false, s("  Progress: 3/9 packages (250ms)"))
    );
    assert_eq!(
        event_line(&FeedEvent::PackageFailed { name: s("x"), error: s("timeout") }),
        (true, s("  Failed: x - timeout"))
    );
    assert_eq!(
        event_line(&FeedEvent::WorkspaceMemberStarted { name: s("core"), index: 0, total: 2 }),
        (false, s("  Workspace member [1/2]: core"))
    );
    assert_eq!(event_line(&FeedEvent::Completed { duration_ms: 40 }), (false, s("  Completed in 40ms")));
}

#[test]
fn feed_summaries() {
    let dashes = format!("  {}", "-".repeat(70));
    let changelog = FeedSummary::Changelog(vec![ChangelogEntry {
        package_name: s("serde"),
        version: s("1.1"),
        date: Some(Timestamp { secs: 86_400, nanos: 0 }),
        summary: Some("x".repeat(130)),
    }]);
    assert_eq!(
        print_feed_summary(&changelog),
        vec![
            s("  Changelog entries: 1"),
            s("\n  Recent Changes:"),
            dashes.clone(),
            s("\n  serde v1.1"),
            s("    Released: 1970-01-02"),
            format!("    {}", "x".repeat(120)),
        ]
    );
    let velocity = FeedSummary::Velocity(vec![VelocityEntry { package_name: s("tokio"), velocity: s("Very active"), releases_last_year: 24 }]);
    assert_eq!(print_feed_summary(&velocity)[2], "  tokio - Very active (24 releases/year)");
    let fresh = FeedSummary::Freshness(vec![FreshnessEntry { package_name: s("log"), latest_version: s("0.4"), days_since_release: 3 }]);
    assert_eq!(print_feed_summary(&fresh)[2], "  log v0.4 - 3 days ago");
    assert_eq!(
        print_feed_summary(&FeedSummary::Packages(vec![])),
        vec![s("  Packages: 0"), s("  No packages match this view.")]
    );
    let mut items = vec![PackageEntry {
        name: s("serde"),
        has_update: true,
        current_version: s("1.0"),
        latest_version: s("1.1"),
        update_type: Some(s("Minor update")),
        latest_update: Some(UpdateEntry { date: None, changelog_summary: Some(s("Fixes")) }),
    }];
    for k in 0..21 {
        items.push(PackageEntry {
            name: format!("p{}", k),
            has_update: false,
            current_version: s("1"),
            latest_version: s("1"),
            update_type: None,
            latest_update: None,
        });
    }
    let lines = print_feed_summary(&FeedSummary::Packages(items));
    assert_eq!(&lines[..8], &[
        s("  Packages: 22"),
        s("\n  Package Updates:"),
        dashes,
        s("\n  📦 serde"),
        s("     1.0 -> 1.1"),
        s("     Type: Minor update"),
        s("     Fixes"),
        s("\n  ✓ p0"),
    ]);
    assert_eq!(lines.last().unwrap(), "\n  ... and 2 more");
}

#[test]
fn feed_for_a_single_project() {
    let feed = empty_monorepo();
    let lines = print_feed("web", &feed, &FeedSummary::Packages(vec![]));
    assert_eq!(
        lines,
        vec![s("  Generated feed for web"), s("  Ecosystem: Rust"), s("  Packages: 0"), s("  No packages match this view.")]
    );
    let mut mono = empty_monorepo();
    mono.workspace_members = vec![WorkspaceMemberFeed { name: s("core"), packages: vec![] }];
    let lines = print_feed("web", &mono, &FeedSummary::Packages(vec![]));
    assert_eq!(lines[0], "");
    assert_eq!(lines[2], "┃ 📦 test-monorepo (Monorepo)");
}
