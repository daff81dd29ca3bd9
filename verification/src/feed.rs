//! The `feed` command: which projects a feed is made for, with which
//! settings, and what is printed of the feed and of its progress. The feed
//! itself is produced elsewhere; it reaches this module as plain values.
use vstd::prelude::*;
use crate::config::{GlobalSettings, Project, Timestamp, WorkspaceMemberConfig};
use crate::format::pad3;
use crate::ignore::texts;
use crate::monorepo::{member_names_of, monorepo_report, print_monorepo_feed, MonorepoDisplayConfig, MonorepoFeed};
use crate::projects::{first_index, ConfigManager};
use crate::report::{append_all, flatten_lines, lemma_flatten_push, one_line};
use crate::text::{chars_of, concat, decimal, push_str, string_from_chars, to_owned_string, u64_to_string};

verus! {

broadcast use vstd::seq_lib::group_seq_properties;

/// The views of a feed.
#[derive(Debug, Clone, Copy, PartialEq, Eq, Structural)]
pub enum FeedView {
    Updates,
    ChangelogRiver,
    BreakingChanges,
    Freshness,
    Velocity,
    Prereleases,
    MinorUpdates,
    PatchParadise,
    All,
}

/// The views as the command line names them.
#[derive(Debug, Clone, Copy, PartialEq, Eq, Structural)]
pub enum FeedViewCommand {
    /// Show all packages with updates available
    Updates,
    /// Chronological changelog feed (like a social feed)
    Changelogs,
    /// Only packages with breaking changes (major updates)
    Breaking,
    /// Packages sorted by freshness (most recently updated)
    Freshness,
    /// Packages sorted by release velocity
    Velocity,
    /// Only prerelease versions
    Prereleases,
    /// Only minor version updates (new features)
    Minor,
    /// Only patch updates (bug fixes)
    Patches,
    /// All tracked packages (default)
    All,
}

/// The view a command-line name stands for.
pub open spec fn view_of(c: FeedViewCommand) -> FeedView {
    match c {
        FeedViewCommand::Updates => FeedView::Updates,
        FeedViewCommand::Changelogs => FeedView::ChangelogRiver,
        FeedViewCommand::Breaking => FeedView::BreakingChanges,
        FeedViewCommand::Freshness => FeedView::Freshness,
        FeedViewCommand::Velocity => FeedView::Velocity,
        FeedViewCommand::Prereleases => FeedView::Prereleases,
        FeedViewCommand::Minor => FeedView::MinorUpdates,
        FeedViewCommand::Patches => FeedView::PatchParadise,
        FeedViewCommand::All => FeedView::All,
    }
}

impl FeedViewCommand {
    /// The view this command-line name stands for.
    pub fn to_view(&self) -> (r: FeedView)
        ensures
            r == view_of(*self),
    {
        match self {
            FeedViewCommand::Updates => FeedView::Updates,
            FeedViewCommand::Changelogs => FeedView::ChangelogRiver,
            FeedViewCommand::Breaking => FeedView::BreakingChanges,
            FeedViewCommand::Freshness => FeedView::Freshness,
            FeedViewCommand::Velocity => FeedView::Velocity,
            FeedViewCommand::Prereleases => FeedView::Prereleases,
            FeedViewCommand::Minor => FeedView::MinorUpdates,
            FeedViewCommand::Patches => FeedView::PatchParadise,
            FeedViewCommand::All => FeedView::All,
        }
    }
}

/// The `feed` command.
#[derive(Debug, Clone)]
pub struct FeedCommand {
    /// Project ID to generate feed for (omit to use --all)
    pub project_id: Option<String>,
    /// Generate feed for all enabled projects
    pub all: bool,
    /// Enable streaming output (real-time progress)
    pub stream: bool,
    pub view: Option<FeedViewCommand>,
}

impl FeedCommand {
    /// The view asked for; the updates when none is.
    pub fn chosen_view(&self) -> (r: FeedView)
        ensures
            r == match self.view {
                Some(c) => view_of(c),
                None => FeedView::Updates,
            },
    {
        match &self.view {
            Some(c) => c.to_view(),
            None => FeedView::Updates,
        }
    }
}

/// The projects a feed is made for, and the warning to give: all enabled
/// projects with `--all`; else the one named, warned about when disabled; else
/// nothing, and the request is refused.
pub fn feed_projects<'a>(manager: &'a ConfigManager, cmd: &FeedCommand) -> (r: Result<(Vec<&'a Project>, Option<String>), String>)
    ensures
        cmd.all ==> (r matches Ok((ps, w)) && w is None && ps@.len() == manager.config.projects@.filter(|p: Project| p.enabled).len()
            && forall|k: int| 0 <= k < ps@.len() ==> *ps@[k] == manager.config.projects@.filter(|p: Project| p.enabled)[k]),
        !cmd.all ==> match cmd.project_id {
            Some(id) => match first_index(manager.config.projects@, id@) {
                Some(i) => r matches Ok((ps, w)) && ps@.len() == 1 && *ps@[0] == manager.config.projects@[i] && if manager.config.projects@[i].enabled {
                    w is None
                } else {
                    w matches Some(t) && t@ == "Warning: Project '"@ + id@ + "' is disabled"@
                },
                None => r matches Err(m) && m@ == "Project not found: "@ + id@,
            },
            None => r matches Err(m) && m@ == "Please specify a project ID or use --all"@,
        },
{
    if cmd.all {
        return Ok((manager.list_enabled_projects(), None));
    }
    match &cmd.project_id {
        Some(id) => match manager.get_project(id.as_str()) {
            Some(p) => {
                let warning = if p.enabled {
                    None
                } else {
                    let mut t = concat("Warning: Project '", id.as_str());
                    push_str(&mut t, "' is disabled");
                    Some(t)
                };
                let mut ps: Vec<&Project> = Vec::new();
                ps.push(p);
                Ok((ps, warning))
            },
            None => Err(concat("Project not found: ", id.as_str())),
        },
        None => Err(to_owned_string("Please specify a project ID or use --all")),
    }
}

/// The texts of a list of member names, if there is one.
pub open spec fn name_list(v: Option<Vec<String>>) -> Option<Seq<Seq<char>>> {
    match v {
        Some(names) => Some(texts(names@)),
        None => None,
    }
}

/// The member lists of a workspace member configuration, as texts.
pub open spec fn member_lists(m: Option<WorkspaceMemberConfig>) -> Option<(Option<Seq<Seq<char>>>, Option<Seq<Seq<char>>>)> {
    match m {
        Some(w) => Some((name_list(w.enabled_members), name_list(w.disabled_members))),
        None => None,
    }
}

fn copy_names(v: &Option<Vec<String>>) -> (r: Option<Vec<String>>)
    ensures
        name_list(r) == name_list(*v),
{
    match v {
        None => None,
        Some(names) => {
            let mut out: Vec<String> = Vec::new();
            let mut i: usize = 0;
            while i < names.len()
                invariant
                    i <= names@.len(),
                    texts(out@) == texts(names@.take(i as int)),
                decreases names@.len() - i,
            {
                let ghost before = texts(out@);
                out.push(names[i].clone());
                proof {
                    assert(names@.take(i + 1) =~= names@.take(i as int).push(names@[i as int]));
                    assert(texts(out@) =~= before.push(names@[i as int]@));
                    assert(texts(names@.take(i + 1)) =~= texts(names@.take(i as int)).push(names@[i as int]@));
                }
                i = i + 1;
            }
            assert(names@.take(names@.len() as int) =~= names@);
            Some(out)
        },
    }
}

fn copy_members(m: &Option<WorkspaceMemberConfig>) -> (r: Option<WorkspaceMemberConfig>)
    ensures
        member_lists(r) == member_lists(*m),
{
    match m {
        None => None,
        Some(w) => Some(
            WorkspaceMemberConfig {
                enabled_members: copy_names(&w.enabled_members),
                disabled_members: copy_names(&w.disabled_members),
            },
        ),
    }
}

/// How a feed is generated for a project.
#[derive(Debug, Clone)]
pub struct FeedSettings {
    pub fetch_changelogs: bool,
    pub include_dev_deps: bool,
    pub registry_only: bool,
    pub include_workspaces: bool,
    pub max_recent_updates: usize,
    pub updates_only: bool,
    pub workspace_member_config: Option<WorkspaceMemberConfig>,
}

/// The feed settings of a project: each of its own overrides, else the
/// global setting; workspaces included, at most ten recent updates, all
/// packages, and the project's choice of workspace members.
pub fn feed_settings(project: &Project, global: &GlobalSettings) -> (r: FeedSettings)
    ensures
        r.fetch_changelogs == match project.settings {
            Some(s) => match s.fetch_changelogs {
                Some(b) => b,
                None => global.fetch_changelogs,
            },
            None => global.fetch_changelogs,
        },
        r.include_dev_deps == match project.settings {
            Some(s) => match s.include_dev_deps {
                Some(b) => b,
                None => global.include_dev_deps,
            },
            None => global.include_dev_deps,
        },
        r.registry_only == match project.settings {
            Some(s) => match s.registry_only {
                Some(b) => b,
                None => global.registry_only,
            },
            None => global.registry_only,
        },
        r.include_workspaces,
        r.max_recent_updates == 10,
        !r.updates_only,
        member_lists(r.workspace_member_config) == member_lists(project.workspace_members),
{
    let (f, d, g) = match project.settings {
        Some(s) => (
            match s.fetch_changelogs {
                Some(b) => b,
                None => global.fetch_changelogs,
            },
            match s.include_dev_deps {
                Some(b) => b,
                None => global.include_dev_deps,
            },
            match s.registry_only {
                Some(b) => b,
                None => global.registry_only,
            },
        ),
        None => (global.fetch_changelogs, global.include_dev_deps, global.registry_only),
    };
    FeedSettings {
        fetch_changelogs: f,
        include_dev_deps: d,
        registry_only: g,
        include_workspaces: true,
        max_recent_updates: 10,
        updates_only: false,
        workspace_member_config: copy_members(&project.workspace_members),
    }
}

/// The lines that introduce a project's feed.
pub fn feed_project_lines(project: &Project) -> (r: Vec<String>)
    ensures
        texts(r@) == seq!["\n"@ + project.name@ + " ("@ + project.id@ + ")"@, "  Path: "@ + project.path@],
{
    let mut a = concat("\n", project.name.as_str());
    push_str(&mut a, " (");
    push_str(&mut a, project.id.as_str());
    push_str(&mut a, ")");
    let b = concat("  Path: ", project.path.as_str());
    let mut r: Vec<String> = Vec::new();
    push_line(&mut r, a);
    push_line(&mut r, b);
    assert(texts(r@) =~= seq!["\n"@ + project.name@ + " ("@ + project.id@ + ")"@, "  Path: "@ + project.path@]);
    r
}

/// An event of a streamed feed generation, as plain values.
#[derive(Debug, Clone, PartialEq, Eq)]
pub enum FeedEvent {
    Started { total_packages: usize },
    PackageResolved {
        name: String,
        has_update: bool,
        current_version: String,
        latest_version: String,
        index: usize,
        total: usize,
    },
    Progress { completed: usize, total: usize, elapsed_ms: u64 },
    PackageFailed { name: String, error: String },
    WorkspaceMemberStarted { name: String, index: usize, total: usize },
    WorkspaceMemberCompleted { name: String, package_count: usize },
    Completed { duration_ms: u64 },
}

/// What is printed for an event, and whether it goes to standard error.
pub open spec fn event_text(e: FeedEvent) -> (bool, Seq<char>) {
    match e {
        FeedEvent::Started { total_packages } => (false, "  Starting analysis of "@ + decimal(total_packages as nat)
            + " packages..."@),
        FeedEvent::PackageResolved { name, has_update, current_version, latest_version, index, total } => (
            false,
            "  ["@ + pad3((index + 1) as nat) + "/"@ + decimal(total as nat) + "] "@ + name@ + " - "@ + if has_update {
                "UPDATE: "@ + current_version@ + " -> "@ + latest_version@
            } else {
                "up to date"@
            },
        ),
        FeedEvent::Progress { completed, total, elapsed_ms } => (false, "  Progress: "@ + decimal(completed as nat) + "/"@
            + decimal(total as nat) + " packages ("@ + decimal(elapsed_ms as nat) + "ms)"@),
        FeedEvent::PackageFailed { name, error } => (true, "  Failed: "@ + name@ + " - "@ + error@),
        FeedEvent::WorkspaceMemberStarted { name, index, total } => (false, "  Workspace member ["@ + decimal(
            (index + 1) as nat,
        ) + "/"@ + decimal(total as nat) + "]: "@ + name@),
        FeedEvent::WorkspaceMemberCompleted { name, package_count } => (false, "  Completed "@ + name@ + " ("@
            + decimal(package_count as nat) + " packages)"@),
        FeedEvent::Completed { duration_ms } => (false, "  Completed in "@ + decimal(duration_ms as nat) + "ms"@),
    }
}

fn push_line(lines: &mut Vec<String>, line: String)
    ensures
        texts(final(lines)@) == texts(old(lines)@).push(line@),
{
    let ghost before = texts(lines@);
    lines.push(line);
    assert(texts(lines@) =~= before.push(line@));
}

fn push_number(s: &mut String, n: u64)
    ensures
        final(s)@ == old(s)@ + decimal(n as nat),
{
    let d = u64_to_string(n);
    push_str(s, d.as_str());
}

fn with_number(text: &str, n: u64, rest: &str) -> (r: String)
    ensures
        r@ == text@ + decimal(n as nat) + rest@,
{
    let mut r = to_owned_string(text);
    let d = u64_to_string(n);
    push_str(&mut r, d.as_str());
    push_str(&mut r, rest);
    r
}

/// What is printed for an event of a streamed generation.
pub fn event_line(e: &FeedEvent) -> (r: (bool, String))
    requires
        e matches FeedEvent::PackageResolved { index, .. } ==> index < usize::MAX,
        e matches FeedEvent::WorkspaceMemberStarted { index, .. } ==> index < usize::MAX,
    ensures
        (r.0, r.1@) == event_text(*e),
{
    match e {
        FeedEvent::Started { total_packages } => (false, with_number("  Starting analysis of ", *total_packages as u64, " packages...")),
        FeedEvent::PackageResolved { name, has_update, current_version, latest_version, index, total } => {
            let mut r = to_owned_string("  [");
            let p = crate::format::pad_number(*index + 1);
            push_str(&mut r, p.as_str());
            push_str(&mut r, "/");
            let t = u64_to_string(*total as u64);
            push_str(&mut r, t.as_str());
            push_str(&mut r, "] ");
            push_str(&mut r, name.as_str());
            push_str(&mut r, " - ");
            if *has_update {
                push_str(&mut r, "UPDATE: ");
                push_str(&mut r, current_version.as_str());
                push_str(&mut r, " -> ");
                push_str(&mut r, latest_version.as_str());
            } else {
                push_str(&mut r, "up to date");
            }
            (false, r)
        },
        FeedEvent::Progress { completed, total, elapsed_ms } => {
            let mut r = with_number("  Progress: ", *completed as u64, "/");
            let t = with_number("", *total as u64, " packages (");
            proof {
                reveal_strlit("");
            }
            push_str(&mut r, t.as_str());
            let m = with_number("", *elapsed_ms, "ms)");
            push_str(&mut r, m.as_str());
            (false, r)
        },
        FeedEvent::PackageFailed { name, error } => {
            let mut r = concat("  Failed: ", name.as_str());
            push_str(&mut r, " - ");
            push_str(&mut r, error.as_str());
            (true, r)
        },
        FeedEvent::WorkspaceMemberStarted { name, index, total } => {
            let mut r = with_number("  Workspace member [", (*index + 1) as u64, "/");
            let t = with_number("", *total as u64, "]: ");
            proof {
                reveal_strlit("");
            }
            push_str(&mut r, t.as_str());
            push_str(&mut r, name.as_str());
            (false, r)
        },
        FeedEvent::WorkspaceMemberCompleted { name, package_count } => {
            let mut r = concat("  Completed ", name.as_str());
            let t = with_number(" (", *package_count as u64, " packages)");
            push_str(&mut r, t.as_str());
            (false, r)
        },
        FeedEvent::Completed { duration_ms } => (false, with_number("  Completed in ", *duration_ms, "ms")),
    }
}

/// An entry of the changelog river.
#[derive(Debug, Clone, PartialEq, Eq)]
pub struct ChangelogEntry {
    pub package_name: String,
    pub version: String,
    pub date: Option<Timestamp>,
    pub summary: Option<String>,
}

/// A package with how often it is released; `velocity` is the description of
/// its release velocity.
#[derive(Debug, Clone, PartialEq, Eq)]
pub struct VelocityEntry {
    pub package_name: String,
    pub velocity: String,
    pub releases_last_year: u64,
}

/// A package with how long ago its latest version was released.
#[derive(Debug, Clone, PartialEq, Eq)]
pub struct FreshnessEntry {
    pub package_name: String,
    pub latest_version: String,
    pub days_since_release: i64,
}

/// The latest update of a package.
#[derive(Debug, Clone, PartialEq, Eq)]
pub struct UpdateEntry {
    pub date: Option<Timestamp>,
    pub changelog_summary: Option<String>,
}

/// A package of a list view; `update_type` is the description of the kind of
/// update.
#[derive(Debug, Clone, PartialEq, Eq)]
pub struct PackageEntry {
    pub name: String,
    pub has_update: bool,
    pub current_version: String,
    pub latest_version: String,
    pub update_type: Option<String>,
    pub latest_update: Option<UpdateEntry>,
}

/// What a view of the feed lists.
#[derive(Debug, Clone)]
pub enum FeedSummary {
    Changelog(Vec<ChangelogEntry>),
    Velocity(Vec<VelocityEntry>),
    Freshness(Vec<FreshnessEntry>),
    Packages(Vec<PackageEntry>),
}

/// The kinds of listing a view asks for.
#[derive(Debug, Clone, Copy, PartialEq, Eq, Structural)]
pub enum SummaryKind {
    Changelog,
    Velocity,
    Freshness,
    Packages,
}

/// The listing of a view: the changelog river, the velocity and freshness
/// rankings, or the packages the view selects.
pub fn summary_kind(view: FeedView) -> (r: SummaryKind)
    ensures
        r == match view {
            FeedView::ChangelogRiver => SummaryKind::Changelog,
            FeedView::Velocity => SummaryKind::Velocity,
            FeedView::Freshness => SummaryKind::Freshness,
            _ => SummaryKind::Packages,
        },
{
    match view {
        FeedView::ChangelogRiver => SummaryKind::Changelog,
        FeedView::Velocity => SummaryKind::Velocity,
        FeedView::Freshness => SummaryKind::Freshness,
        _ => SummaryKind::Packages,
    }
}

/// The text `DateTime<Utc>::format("%Y-%m-%d")` gives for the instant `secs`
/// seconds and `nanos` nanoseconds after the Unix epoch, or `None` where chrono
/// has no such instant.
pub uninterp spec fn utc_date_text(secs: i64, nanos: u32) -> Option<Seq<char>>;

/// `chrono::DateTime::from_timestamp` then `format("%Y-%m-%d")`. The contract
/// names the result; the calendar arithmetic is not restated.
#[verifier::external_body]
fn format_date(t: Timestamp) -> (r: Option<String>)
    ensures
        match r {
            Some(s) => utc_date_text(t.secs, t.nanos) == Some(s@),
            None => utc_date_text(t.secs, t.nanos) is None,
        },
{
    chrono::DateTime::from_timestamp(t.secs, t.nanos).map(|d| d.format("%Y-%m-%d").to_string())
}

/// The first `n` characters of a text.
pub open spec fn preview(s: Seq<char>, n: nat) -> Seq<char> {
    if s.len() <= n {
        s
    } else {
        s.take(n as int)
    }
}

fn preview_text(s: &str, n: usize) -> (r: String)
    ensures
        r@ == preview(s@, n as nat),
{
    let cs = chars_of(s);
    let mut out: Vec<char> = Vec::new();
    let mut i: usize = 0;
    while i < cs.len() && i < n
        invariant
            i <= cs@.len(),
            i <= n,
            cs@ == s@,
            out@ == cs@.take(i as int),
        decreases cs@.len() - i,
    {
        out.push(cs[i]);
        assert(cs@.take(i + 1) =~= cs@.take(i as int).push(cs@[i as int]));
        i = i + 1;
    }
    if cs.len() <= n {
        assert(cs@.take(cs@.len() as int) =~= cs@);
    }
    string_from_chars(&out)
}

/// The release date line, when the date is known.
pub open spec fn released_lines(indent: Seq<char>, date: Option<Timestamp>) -> Seq<Seq<char>> {
    match date {
        Some(t) => match utc_date_text(t.secs, t.nanos) {
            Some(d) => seq![indent + "Released: "@ + d],
            None => Seq::empty(),
        },
        None => Seq::empty(),
    }
}

fn released_text(lines: &mut Vec<String>, indent: &str, date: Option<Timestamp>)
    ensures
        texts(final(lines)@) == texts(old(lines)@) + released_lines(indent@, date),
{
    if let Some(t) = date {
        if let Some(d) = format_date(t) {
            let mut l = concat(indent, "Released: ");
            push_str(&mut l, d.as_str());
            let ghost before = texts(lines@);
            lines.push(l);
            assert(texts(lines@) =~= before + released_lines(indent@, date));
            return;
        }
    }
    assert(texts(lines@) =~= texts(old(lines)@) + released_lines(indent@, date));
}

/// The lines of a changelog entry.
pub open spec fn changelog_entry(e: ChangelogEntry) -> Seq<Seq<char>> {
    seq!["\n  "@ + e.package_name@ + " v"@ + e.version@] + released_lines("    "@, e.date) + match e.summary {
        Some(t) => seq!["    "@ + preview(t@, 120)],
        None => Seq::empty(),
    }
}

/// The line of a velocity entry.
pub open spec fn velocity_entry(e: VelocityEntry) -> Seq<Seq<char>> {
    seq!["  "@ + e.package_name@ + " - "@ + e.velocity@ + " ("@ + decimal(e.releases_last_year as nat) + " releases/year)"@]
}

/// The line of a freshness entry.
pub open spec fn freshness_entry(e: FreshnessEntry) -> Seq<Seq<char>> {
    seq!["  "@ + e.package_name@ + " v"@ + e.latest_version@ + " - "@ + crate::report::signed_decimal(e.days_since_release as int)
        + " days ago"@]
}

/// The line naming the kind of update, when it is known.
pub open spec fn type_lines(t: Option<String>) -> Seq<Seq<char>> {
    match t {
        Some(t) => seq!["     Type: "@ + t@],
        None => Seq::empty(),
    }
}

/// The lines of a package in a list view.
pub open spec fn package_entry(e: PackageEntry) -> Seq<Seq<char>> {
    seq!["\n  "@ + (if e.has_update {
        "📦"@
    } else {
        "✓"@
    }) + " "@ + e.name@] + if e.has_update {
        seq!["     "@ + e.current_version@ + " -> "@ + e.latest_version@] + type_lines(e.update_type) + match e.latest_update {
            Some(u) => released_lines("     "@, u.date) + match u.changelog_summary {
                Some(t) => seq!["     "@ + preview(t@, 100)],
                None => Seq::empty(),
            },
            None => Seq::empty(),
        }
    } else {
        seq!["     Current: "@ + e.current_version@]
    }
}

/// The lines of changelog entries, one after the other.
pub open spec fn changelog_list(items: Seq<ChangelogEntry>) -> Seq<Seq<char>>
    decreases items.len(),
{
    if items.len() == 0 {
        Seq::empty()
    } else {
        changelog_list(items.drop_last()) + changelog_entry(items.last())
    }
}

/// The lines of velocity entries, one after the other.
pub open spec fn velocity_list(items: Seq<VelocityEntry>) -> Seq<Seq<char>>
    decreases items.len(),
{
    if items.len() == 0 {
        Seq::empty()
    } else {
        velocity_list(items.drop_last()) + velocity_entry(items.last())
    }
}

/// The lines of freshness entries, one after the other.
pub open spec fn freshness_list(items: Seq<FreshnessEntry>) -> Seq<Seq<char>>
    decreases items.len(),
{
    if items.len() == 0 {
        Seq::empty()
    } else {
        freshness_list(items.drop_last()) + freshness_entry(items.last())
    }
}

/// The lines of package entries, one after the other.
pub open spec fn package_list(items: Seq<PackageEntry>) -> Seq<Seq<char>>
    decreases items.len(),
{
    if items.len() == 0 {
        Seq::empty()
    } else {
        package_list(items.drop_last()) + package_entry(items.last())
    }
}

/// The first `limit` items, or all of them when there are fewer.
pub open spec fn first<A>(items: Seq<A>, limit: nat) -> Seq<A> {
    if items.len() <= limit {
        items
    } else {
        items.take(limit as int)
    }
}

/// A rule of seventy dashes, indented.
pub open spec fn dash_rule() -> Seq<char> {
    "  "@ + Seq::new(70, |i: int| '-')
}

/// What is printed of a view of the feed.
pub open spec fn summary_text(s: FeedSummary) -> Seq<Seq<char>> {
    match s {
        FeedSummary::Changelog(items) => seq![
            "  Changelog entries: "@ + decimal(items@.len()),
            "\n  Recent Changes:"@,
            dash_rule(),
        ] + changelog_list(first(items@, 15)),
        FeedSummary::Velocity(items) => seq!["  Packages by velocity:"@, dash_rule()] + velocity_list(first(items@, 20)),
        FeedSummary::Freshness(items) => seq!["  Recently updated packages:"@, dash_rule()] + freshness_list(first(items@, 20)),
        FeedSummary::Packages(items) => seq!["  Packages: "@ + decimal(items@.len())] + if items@.len() == 0 {
            seq!["  No packages match this view."@]
        } else {
            seq!["\n  Package Updates:"@, dash_rule()] + package_list(first(items@, 20))
                + if items@.len() > 20 {
                seq!["\n  ... and "@ + decimal((items@.len() - 20) as nat) + " more"@]
            } else {
                Seq::empty()
            }
        },
    }
}

fn dash_rule_text() -> (r: String)
    ensures
        r@ == dash_rule(),
{
    let mut cs: Vec<char> = Vec::new();
    cs.push(' ');
    cs.push(' ');
    let mut k: usize = 0;
    while k < 70
        invariant
            k <= 70,
            cs@ == seq![' ', ' '] + Seq::new(k as nat, |i: int| '-'),
        decreases 70 - k,
    {
        cs.push('-');
        assert(cs@ =~= seq![' ', ' '] + Seq::new((k + 1) as nat, |i: int| '-'));
        k = k + 1;
    }
    proof {
        reveal_strlit("  ");
        assert(cs@ =~= dash_rule());
    }
    string_from_chars(&cs)
}

fn changelog_entry_text(e: &ChangelogEntry) -> (r: Vec<String>)
    ensures
        texts(r@) == changelog_entry(*e),
{
    let mut l = concat("\n  ", e.package_name.as_str());
    push_str(&mut l, " v");
    push_str(&mut l, e.version.as_str());
    let mut r = one_line(l);
    released_text(&mut r, "    ", e.date);
    if let Some(t) = &e.summary {
        let p = preview_text(t.as_str(), 120);
        let ghost before = texts(r@);
        push_line(&mut r, concat("    ", p.as_str()));
        assert(texts(r@) =~= before.push("    "@ + preview(t@, 120)));
    }
    assert(texts(r@) =~= changelog_entry(*e));
    r
}

fn velocity_entry_text(e: &VelocityEntry) -> (r: Vec<String>)
    ensures
        texts(r@) == velocity_entry(*e),
{
    let mut l = concat("  ", e.package_name.as_str());
    push_str(&mut l, " - ");
    push_str(&mut l, e.velocity.as_str());
    push_str(&mut l, " (");
    push_number(&mut l, e.releases_last_year);
    push_str(&mut l, " releases/year)");
    let r = one_line(l);
    assert(texts(r@) =~= velocity_entry(*e));
    r
}

fn freshness_entry_text(e: &FreshnessEntry) -> (r: Vec<String>)
    ensures
        texts(r@) == freshness_entry(*e),
{
    let mut l = concat("  ", e.package_name.as_str());
    push_str(&mut l, " v");
    push_str(&mut l, e.latest_version.as_str());
    push_str(&mut l, " - ");
    let d = crate::report::i64_to_string(e.days_since_release);
    push_str(&mut l, d.as_str());
    push_str(&mut l, " days ago");
    let r = one_line(l);
    assert(texts(r@) =~= freshness_entry(*e));
    r
}

fn package_entry_text(e: &PackageEntry) -> (r: Vec<String>)
    ensures
        texts(r@) == package_entry(*e),
{
    let mut l = to_owned_string("\n  ");
    if e.has_update {
        push_str(&mut l, "📦");
    } else {
        push_str(&mut l, "✓");
    }
    push_str(&mut l, " ");
    push_str(&mut l, e.name.as_str());
    let mut r = one_line(l);
    let ghost head = texts(r@);
    if e.has_update {
        let mut v = concat("     ", e.current_version.as_str());
        push_str(&mut v, " -> ");
        push_str(&mut v, e.latest_version.as_str());
        push_line(&mut r, v);
        let ghost a = texts(r@);
        if let Some(t) = &e.update_type {
            push_line(&mut r, concat("     Type: ", t.as_str()));
        }
        let ghost b = texts(r@);
        if let Some(u) = &e.latest_update {
            released_text(&mut r, "     ", u.date);
            let ghost c = texts(r@);
            if let Some(t) = &u.changelog_summary {
                let p = preview_text(t.as_str(), 100);
                push_line(&mut r, concat("     ", p.as_str()));
                assert(texts(r@) =~= c.push("     "@ + preview(t@, 100)));
            }
            assert(texts(r@) =~= b + released_lines("     "@, u.date) + match u.changelog_summary {
                Some(t) => seq!["     "@ + preview(t@, 100)],
                None => Seq::<Seq<char>>::empty(),
            });
        }
        proof {
            assert(b =~= a + type_lines(e.update_type));
        }
    } else {
        push_line(&mut r, concat("     Current: ", e.current_version.as_str()));
    }
    assert(texts(r@) =~= package_entry(*e));
    r
}

/// What is printed of a view of the feed, as lines.
pub fn print_feed_summary(summary: &FeedSummary) -> (r: Vec<String>)
    ensures
        texts(r@) == summary_text(*summary),
{
    match summary {
        FeedSummary::Changelog(items) => {
            let mut c = to_owned_string("  Changelog entries: ");
            push_number(&mut c, items.len() as u64);
            let mut r = one_line(c);
            push_line(&mut r, to_owned_string("\n  Recent Changes:"));
            push_line(&mut r, dash_rule_text());
            let ghost head = texts(r@);
            assert(head =~= seq!["  Changelog entries: "@ + decimal(items@.len()), "\n  Recent Changes:"@, dash_rule()]);
            let mut i: usize = 0;
            while i < items.len() && i < 15
                invariant
                    i <= items@.len(),
                    i <= 15,
                    head == seq!["  Changelog entries: "@ + decimal(items@.len()), "\n  Recent Changes:"@, dash_rule()],
                    texts(r@) == head + changelog_list(items@.take(i as int)),
                decreases items@.len() - i,
            {
                let b = changelog_entry_text(&items[i]);
                proof {
                    assert(items@.take(i + 1).drop_last() =~= items@.take(i as int));
                    assert(items@.take(i + 1).last() == items@[i as int]);
                }
                append_all(&mut r, b);
                i = i + 1;
            }
            assert(first(items@, 15) =~= items@.take(i as int));
            assert(texts(r@) =~= summary_text(*summary));
            r
        },
        FeedSummary::Velocity(items) => {
            let mut r = one_line(to_owned_string("  Packages by velocity:"));
            push_line(&mut r, dash_rule_text());
            let ghost head = texts(r@);
            assert(head =~= seq!["  Packages by velocity:"@, dash_rule()]);
            let mut i: usize = 0;
            while i < items.len() && i < 20
                invariant
                    i <= items@.len(),
                    i <= 20,
                    head == seq!["  Packages by velocity:"@, dash_rule()],
                    texts(r@) == head + velocity_list(items@.take(i as int)),
                decreases items@.len() - i,
            {
                let b = velocity_entry_text(&items[i]);
                proof {
                    assert(items@.take(i + 1).drop_last() =~= items@.take(i as int));
                    assert(items@.take(i + 1).last() == items@[i as int]);
                }
                append_all(&mut r, b);
                i = i + 1;
            }
            assert(first(items@, 20) =~= items@.take(i as int));
            assert(texts(r@) =~= summary_text(*summary));
            r
        },
        FeedSummary::Freshness(items) => {
            let mut r = one_line(to_owned_string("  Recently updated packages:"));
            push_line(&mut r, dash_rule_text());
            let ghost head = texts(r@);
            assert(head =~= seq!["  Recently updated packages:"@, dash_rule()]);
            let mut i: usize = 0;
            while i < items.len() && i < 20
                invariant
                    i <= items@.len(),
                    i <= 20,
                    head == seq!["  Recently updated packages:"@, dash_rule()],
                    texts(r@) == head + freshness_list(items@.take(i as int)),
                decreases items@.len() - i,
            {
                let b = freshness_entry_text(&items[i]);
                proof {
                    assert(items@.take(i + 1).drop_last() =~= items@.take(i as int));
                    assert(items@.take(i + 1).last() == items@[i as int]);
                }
                append_all(&mut r, b);
                i = i + 1;
            }
            assert(first(items@, 20) =~= items@.take(i as int));
            assert(texts(r@) =~= summary_text(*summary));
            r
        },
        FeedSummary::Packages(items) => {
            let mut c = to_owned_string("  Packages: ");
            push_number(&mut c, items.len() as u64);
            let mut r = one_line(c);
            if items.len() == 0 {
                push_line(&mut r, to_owned_string("  No packages match this view."));
                assert(texts(r@) =~= summary_text(*summary));
                return r;
            }
            push_line(&mut r, to_owned_string("\n  Package Updates:"));
            push_line(&mut r, dash_rule_text());
            let ghost head = texts(r@);
            assert(head =~= seq!["  Packages: "@ + decimal(items@.len()), "\n  Package Updates:"@, dash_rule()]);
            let mut i: usize = 0;
            while i < items.len() && i < 20
                invariant
                    i <= items@.len(),
                    i <= 20,
                    head == seq!["  Packages: "@ + decimal(items@.len()), "\n  Package Updates:"@, dash_rule()],
                    texts(r@) == head + package_list(items@.take(i as int)),
                decreases items@.len() - i,
            {
                let b = package_entry_text(&items[i]);
                proof {
                    assert(items@.take(i + 1).drop_last() =~= items@.take(i as int));
                    assert(items@.take(i + 1).last() == items@[i as int]);
                }
                append_all(&mut r, b);
                i = i + 1;
            }
            let ghost body = texts(r@);
            if items.len() > 20 {
                let mut m = to_owned_string("\n  ... and ");
                push_number(&mut m, (items.len() - 20) as u64);
                push_str(&mut m, " more");
                push_line(&mut r, m);
            }
            assert(first(items@, 20) =~= items@.take(i as int));
            assert(texts(r@) =~= summary_text(*summary));
            r
        },
    }
}

/// What is printed of a project's feed: the monorepo view when the project
/// has workspace members, else the project, its ecosystem and the view.
pub open spec fn feed_report(project_name: Seq<char>, feed: MonorepoFeed, summary: FeedSummary, ms: Seq<Seq<char>>) -> Seq<Seq<char>> {
    if feed.workspace_members@.len() > 0 {
        seq![""@] + monorepo_report(
            feed,
            MonorepoDisplayConfig {
                show_shared_deps: true,
                show_internal_deps: true,
                show_member_details: true,
                compact_mode: false,
            },
            ms,
        )
    } else {
        seq!["  Generated feed for "@ + project_name, "  Ecosystem: "@ + feed.ecosystem@] + summary_text(summary)
    }
}

/// What is printed of a project's feed, as lines.
pub fn print_feed(project_name: &str, feed: &MonorepoFeed, summary: &FeedSummary) -> (r: Vec<String>)
    ensures
        exists|ms: Seq<Seq<char>>|
            #![trigger feed_report(project_name@, *feed, *summary, ms)]
            (feed.workspace_members@.len() > 0 ==> member_names_of(feed.internal_dependencies@, ms)) && texts(r@)
                == feed_report(project_name@, *feed, *summary, ms),
{
    if feed.workspace_members.len() > 0 {
        let config = MonorepoDisplayConfig::default();
        let mut r = one_line(to_owned_string(""));
        let lines = print_monorepo_feed(feed, &config);
        let ghost lv = texts(lines@);
        append_all(&mut r, lines);
        proof {
            reveal_strlit("");
            let ms = choose|ms: Seq<Seq<char>>|
                (config.show_internal_deps ==> member_names_of(feed.internal_dependencies@, ms)) && lv
                    == monorepo_report(*feed, config, ms);
            assert(texts(r@) =~= feed_report(project_name@, *feed, *summary, ms));
            assert(member_names_of(feed.internal_dependencies@, ms));
        }
        r
    } else {
        let mut r = one_line(concat("  Generated feed for ", project_name));
        push_line(&mut r, concat("  Ecosystem: ", feed.ecosystem.as_str()));
        let lines = print_feed_summary(summary);
        let ghost head = texts(r@);
        append_all(&mut r, lines);
        let ghost w = Seq::<Seq<char>>::empty();
        assert(texts(r@) =~= feed_report(project_name@, *feed, *summary, w));
        assert((feed.workspace_members@.len() > 0 ==> member_names_of(feed.internal_dependencies@, w)) && texts(r@)
            == feed_report(project_name@, *feed, *summary, w));
        r
    }
}

} // verus!
