//! The `config` subcommands: the names a new project gets by default, the
//! answers to the prompts, and what `list`, `validate` and the other
//! subcommands report.
use vstd::prelude::*;
use crate::backends::{eq_ignore_case, same_ignoring_ascii_case};
use crate::capability_display::accepts;
use crate::config::{Project, Timestamp};
use crate::entry_points::{join_path, joined_path};
use crate::paths::{is_absolute, is_absolute_path, path_file_name, path_file_name_of};
use crate::ignore::{trim_text, trimmed};
use crate::ignore::texts;
use crate::security::{char_is_alphanumeric, unicode_alphanumeric};
use crate::text::{chars_of, decimal, push_str, string_from_chars, to_owned_string, u64_to_string};

verus! {

broadcast use vstd::seq_lib::group_seq_properties;

/// The `config` subcommands.
#[derive(Debug, Clone, PartialEq, Eq)]
pub enum ConfigCommand {
    /// Initialize the config file.
    Init,
    /// Add a project to the config.
    Add { path: String, name: Option<String>, id: Option<String> },
    /// List all projects.
    List { enabled_only: bool },
    /// Enable a project.
    Enable { project_id: String },
    /// Disable a project.
    Disable { project_id: String },
    /// Remove a project from the config.
    Remove { project_id: String, yes: bool },
    /// Show the config file path.
    Path,
    /// Validate the config file.
    Validate,
}

/// The text `str::to_lowercase` gives: each character replaced by its Unicode
/// lower-case mapping.
pub uninterp spec fn lowercase_text(s: Seq<char>) -> Seq<char>;

/// `str::to_lowercase`. The contract names the result and does not restate
/// the Unicode case tables.
#[verifier::external_body]
fn to_lowercase(s: &str) -> (r: String)
    ensures
        r@ == lowercase_text(s@),
{
    s.to_lowercase()
}

/// A character kept in a generated project id: letters, digits and hyphens.
pub open spec fn id_char(c: char) -> char {
    if unicode_alphanumeric(c) || c == '-' {
        c
    } else {
        '-'
    }
}

/// The id a project gets when none is given: its directory name in lower
/// case with every character other than a letter, digit or hyphen replaced by
/// a hyphen; "project" when the path has no usable name.
pub open spec fn generated_id(dir_name: Option<Seq<char>>) -> Seq<char> {
    match dir_name {
        Some(n) => lowercase_text(n).map_values(|c: char| id_char(c)),
        None => "project"@,
    }
}

/// The id a project gets when none is given.
pub fn default_project_id(dir_name: Option<&str>) -> (r: String)
    ensures
        r@ == generated_id(match dir_name {
            Some(n) => Some(n@),
            None => None,
        }),
{
    match dir_name {
        None => to_owned_string("project"),
        Some(n) => {
            let lower = to_lowercase(n);
            let cs = chars_of(lower.as_str());
            let mut out: Vec<char> = Vec::new();
            let mut i: usize = 0;
            while i < cs.len()
                invariant
                    i <= cs@.len(),
                    cs@ == lowercase_text(n@),
                    out@ == cs@.take(i as int).map_values(|c: char| id_char(c)),
                decreases cs@.len() - i,
            {
                let c = cs[i];
                if char_is_alphanumeric(c) || c == '-' {
                    out.push(c);
                } else {
                    out.push('-');
                }
                assert(cs@.take(i + 1) =~= cs@.take(i as int).push(c));
                i = i + 1;
            }
            assert(cs@.take(cs@.len() as int) =~= cs@);
            string_from_chars(&out)
        },
    }
}

/// The name a project gets when none is given: its directory name, or
/// "Project" when the path has no usable name.
pub fn default_project_name(dir_name: Option<&str>) -> (r: String)
    ensures
        r@ == match dir_name {
            Some(n) => n@,
            None => "Project"@,
        },
{
    match dir_name {
        Some(n) => to_owned_string(n),
        None => to_owned_string("Project"),
    }
}

/// The absolute form of a path given on the command line: itself when it is
/// absolute, otherwise joined onto the current directory.
pub open spec fn resolved_path(path: Seq<char>, cwd: Seq<char>) -> Seq<char> {
    if is_absolute_path(path) {
        path
    } else {
        joined_path(cwd, path)
    }
}

/// Resolves a path given on the command line against the current directory.
pub fn resolve_path(path: &str, cwd: &str) -> (r: String)
    ensures
        r@ == resolved_path(path@, cwd@),
{
    if is_absolute(path) {
        to_owned_string(path)
    } else {
        join_path(cwd, path)
    }
}

/// The project `config add` registers for an absolute path: the id and name
/// given, or else ones derived from the path's final component; enabled, never
/// checked, and without overrides.
pub fn new_project(abs_path: String, name: Option<String>, id: Option<String>) -> (p: Project)
    ensures
        p.id@ == match id {
            Some(i) => i@,
            None => generated_id(path_file_name_of(abs_path@)),
        },
        p.name@ == match name {
            Some(n) => n@,
            None => match path_file_name_of(abs_path@) {
                Some(n) => n,
                None => "Project"@,
            },
        },
        p.path == abs_path,
        p.enabled,
        p.last_checked is None,
        p.settings is None,
        p.workspace_members is None,
{
    let dir_name = path_file_name(abs_path.as_str());
    let dir: Option<&str> = match &dir_name {
        Some(n) => Some(n.as_str()),
        None => None,
    };
    let project_id = match id {
        Some(i) => i,
        None => default_project_id(dir),
    };
    let project_name = match name {
        Some(n) => n,
        None => default_project_name(dir),
    };
    Project {
        id: project_id,
        name: project_name,
        path: abs_path,
        enabled: true,
        last_checked: None,
        settings: None,
        workspace_members: None,
    }
}

/// Whether the answer to "Continue with available categories? [Y/n]" accepts:
/// trimmed and in lower case, it is empty, "y" or "yes".
pub fn accepts_continue(answer: &str) -> (r: bool)
    ensures
        r == accepts(lowercase_text(trimmed(answer@))),
{
    let t = trim_text(answer);
    let lower = to_lowercase(t.as_str());
    let cs = chars_of(lower.as_str());
    proof {
        reveal_strlit("y");
        reveal_strlit("yes");
    }
    if cs.len() == 0 {
        return true;
    }
    crate::text::str_eq(lower.as_str(), "y") || crate::text::str_eq(lower.as_str(), "yes")
}

/// Whether the answer to "Continue? [y/N]" before removing a project accepts:
/// trimmed, it is "y" in either case.
pub fn accepts_removal(answer: &str) -> (r: bool)
    ensures
        r == same_ignoring_ascii_case(trimmed(answer@), "y"@),
{
    let t = trim_text(answer);
    eq_ignore_case(t.as_str(), "y")
}

/// The text `DateTime<Utc>::format("%Y-%m-%d %H:%M:%S")` gives for the instant
/// `secs` seconds and `nanos` nanoseconds after the Unix epoch, or `None` where
/// chrono has no such instant.
pub uninterp spec fn utc_text(secs: i64, nanos: u32) -> Option<Seq<char>>;

/// `chrono::DateTime::from_timestamp` then `format("%Y-%m-%d %H:%M:%S")`.
/// The contract names the result; the calendar arithmetic is not restated.
#[verifier::external_body]
fn format_timestamp(t: Timestamp) -> (r: Option<String>)
    ensures
        match r {
            Some(s) => utc_text(t.secs, t.nanos) == Some(s@),
            None => utc_text(t.secs, t.nanos) is None,
        },
{
    chrono::DateTime::from_timestamp(t.secs, t.nanos).map(|d| d.format("%Y-%m-%d %H:%M:%S").to_string())
}

/// The lines that describe one project in the list.
pub open spec fn project_lines(p: Project) -> Seq<Seq<char>> {
    seq![
        "\n"@ + (if p.enabled { "✓"@ } else { "✗"@ }) + " "@ + p.name@ + " ("@ + p.id@ + ")"@,
        "  Path: "@ + p.path@,
    ] + match p.last_checked {
        Some(t) => match utc_text(t.secs, t.nanos) {
            Some(text) => seq!["  Last checked: "@ + text],
            None => Seq::empty(),
        },
        None => Seq::empty(),
    } + match p.settings {
        Some(s) => if s.fetch_changelogs is Some || s.include_dev_deps is Some {
            seq!["  Settings: custom overrides"@]
        } else {
            Seq::empty()
        },
        None => Seq::empty(),
    }
}

/// The lines of the projects, one after the other.
pub open spec fn projects_lines(ps: Seq<Project>) -> Seq<Seq<char>>
    decreases ps.len(),
{
    if ps.len() == 0 {
        Seq::empty()
    } else {
        projects_lines(ps.drop_last()) + project_lines(ps.last())
    }
}

/// The projects `list` shows: all of them, or the enabled ones.
pub open spec fn listed(ps: Seq<Project>, enabled_only: bool) -> Seq<Project> {
    if enabled_only {
        ps.filter(|p: Project| p.enabled)
    } else {
        ps
    }
}

/// What `config list` prints.
pub open spec fn list_report(ps: Seq<Project>, enabled_only: bool) -> Seq<Seq<char>> {
    let shown = listed(ps, enabled_only);
    if shown.len() == 0 {
        seq!["No projects configured."@, "Add a project with: danny config add <path>"@]
    } else {
        seq!["\nConfigured Projects:"@, Seq::new(60, |i: int| '=')] + projects_lines(shown) + seq![
            "\nTotal: "@ + decimal(shown.len()) + " project(s)"@,
        ]
    }
}

fn project_line_texts(p: &Project) -> (r: Vec<String>)
    ensures
        texts(r@) == project_lines(*p),
{
    let mut first = to_owned_string("\n");
    if p.enabled {
        push_str(&mut first, "✓");
    } else {
        push_str(&mut first, "✗");
    }
    push_str(&mut first, " ");
    push_str(&mut first, p.name.as_str());
    push_str(&mut first, " (");
    push_str(&mut first, p.id.as_str());
    push_str(&mut first, ")");
    let mut path = to_owned_string("  Path: ");
    push_str(&mut path, p.path.as_str());
    let mut lines: Vec<String> = Vec::new();
    lines.push(first);
    lines.push(path);
    let ghost a = texts(lines@);
    match p.last_checked {
        Some(t) => match format_timestamp(t) {
            Some(text) => {
                let mut l = to_owned_string("  Last checked: ");
                push_str(&mut l, text.as_str());
                lines.push(l);
            },
            None => {},
        },
        None => {},
    }
    let ghost b = texts(lines@);
    match p.settings {
        Some(s) => {
            if s.fetch_changelogs.is_some() || s.include_dev_deps.is_some() {
                lines.push(to_owned_string("  Settings: custom overrides"));
            }
        },
        None => {},
    }
    proof {
        let lc = match p.last_checked {
            Some(t) => match utc_text(t.secs, t.nanos) {
                Some(text) => seq!["  Last checked: "@ + text],
                None => Seq::<Seq<char>>::empty(),
            },
            None => Seq::<Seq<char>>::empty(),
        };
        assert(b =~= a + lc);
        assert(texts(lines@) =~= project_lines(*p));
    }
    lines
}

/// What `config list` prints, as lines.
pub fn list_lines(projects: &Vec<Project>, enabled_only: bool) -> (r: Vec<String>)
    ensures
        texts(r@) == list_report(projects@, enabled_only),
{
    let ghost ps = projects@;
    let ghost shown = listed(ps, enabled_only);
    let mut body: Vec<String> = Vec::new();
    let mut count: usize = 0;
    let mut i: usize = 0;
    while i < projects.len()
        invariant
            i <= ps.len(),
            ps == projects@,
            count == listed(ps.take(i as int), enabled_only).len(),
            count <= i,
            texts(body@) == projects_lines(listed(ps.take(i as int), enabled_only)),
        decreases ps.len() - i,
    {
        let p = &projects[i];
        let ghost pre = ps.take(i as int);
        assert(ps.take(i + 1).drop_last() =~= pre);
        assert(ps.take(i + 1).last() == *p);
        proof {
            reveal_with_fuel(Seq::filter, 1);
        }
        if !enabled_only || p.enabled {
            let more = project_line_texts(p);
            let ghost before = texts(body@);
            let mut more = more;
            let ghost mv = more@;
            body.append(&mut more);
            proof {
                assert(texts(body@) =~= before + texts(mv));
                let l0 = listed(pre, enabled_only);
                assert(listed(ps.take(i + 1), enabled_only) =~= l0.push(*p));
                assert(l0.push(*p).drop_last() =~= l0);
            }
            count = count + 1;
        } else {
            assert(listed(ps.take(i + 1), enabled_only) =~= listed(pre, enabled_only));
        }
        i = i + 1;
    }
    assert(ps.take(ps.len() as int) =~= ps);
    let mut lines: Vec<String> = Vec::new();
    if count == 0 {
        lines.push(to_owned_string("No projects configured."));
        lines.push(to_owned_string("Add a project with: danny config add <path>"));
        assert(texts(lines@) =~= list_report(ps, enabled_only));
        return lines;
    }
    lines.push(to_owned_string("\nConfigured Projects:"));
    let mut rule: Vec<char> = Vec::new();
    let mut k: usize = 0;
    while k < 60
        invariant
            k <= 60,
            rule@ == Seq::new(k as nat, |j: int| '='),
        decreases 60 - k,
    {
        rule.push('=');
        assert(rule@ =~= Seq::new((k + 1) as nat, |j: int| '='));
        k = k + 1;
    }
    lines.push(string_from_chars(&rule));
    let ghost head = texts(lines@);
    let ghost bv = body@;
    lines.append(&mut body);
    let mut total = to_owned_string("\nTotal: ");
    let d = u64_to_string(count as u64);
    push_str(&mut total, d.as_str());
    push_str(&mut total, " project(s)");
    lines.push(total);
    assert(texts(lines@) =~= head + texts(bv) + seq![total@]);
    lines
}

/// What `config validate` prints, given which projects' paths no longer exist.
pub open spec fn validate_report(version: Seq<char>, ps: Seq<Project>, missing: Seq<bool>) -> Seq<Seq<char>> {
    let gone = Seq::new(ps.len(), |i: int| (ps[i], missing[i])).filter(|e: (Project, bool)| e.1);
    seq![
        "✓ Config is valid"@,
        "  Version: "@ + version,
        "  Projects: "@ + decimal(ps.len()),
        "  Enabled: "@ + decimal(ps.filter(|p: Project| p.enabled).len()),
    ] + if gone.len() > 0 {
        seq!["\nWarning: Some project paths no longer exist:"@] + gone.map_values(|e: (Project, bool)| "  - "@ + e.0.id@)
    } else {
        Seq::empty()
    }
}

/// What `config validate` prints, as lines; `missing` says for each project
/// whether its path no longer exists.
pub fn validate_lines(version: &str, projects: &Vec<Project>, missing: &Vec<bool>) -> (r: Vec<String>)
    requires
        missing@.len() == projects@.len(),
    ensures
        texts(r@) == validate_report(version@, projects@, missing@),
{
    let ghost ps = projects@;
    let ghost ms = missing@;
    let ghost pairs = Seq::new(ps.len(), |i: int| (ps[i], ms[i]));
    let mut enabled: usize = 0;
    let mut gone: Vec<String> = Vec::new();
    let mut i: usize = 0;
    while i < projects.len()
        invariant
            i <= ps.len(),
            ps == projects@,
            ms == missing@,
            ms.len() == ps.len(),
            pairs == Seq::new(ps.len(), |i: int| (ps[i], ms[i])),
            enabled == ps.take(i as int).filter(|p: Project| p.enabled).len(),
            enabled <= i,
            texts(gone@) == pairs.take(i as int).filter(|e: (Project, bool)| e.1).map_values(|e: (Project, bool)| "  - "@ + e.0.id@),
        decreases ps.len() - i,
    {
        let p = &projects[i];
        proof {
            assert(ps.take(i + 1).drop_last() =~= ps.take(i as int));
            assert(pairs.take(i + 1).drop_last() =~= pairs.take(i as int));
            assert(pairs.take(i + 1).last() == (ps[i as int], ms[i as int]));
            reveal_with_fuel(Seq::filter, 1);
        }
        if p.enabled {
            enabled = enabled + 1;
        }
        if missing[i] {
            let mut l = to_owned_string("  - ");
            push_str(&mut l, p.id.as_str());
            let ghost before = texts(gone@);
            gone.push(l);
            proof {
                let f0 = pairs.take(i as int).filter(|e: (Project, bool)| e.1);
                assert(pairs.take(i + 1).filter(|e: (Project, bool)| e.1) =~= f0.push((ps[i as int], ms[i as int])));
                assert(texts(gone@) =~= before.push(l@));
                assert(f0.push((ps[i as int], ms[i as int])).map_values(|e: (Project, bool)| "  - "@ + e.0.id@) =~= f0.map_values(|e: (Project, bool)| "  - "@ + e.0.id@).push(l@));
            }
        }
        i = i + 1;
    }
    assert(ps.take(ps.len() as int) =~= ps);
    assert(pairs.take(pairs.len() as int) =~= pairs);
    let mut lines: Vec<String> = Vec::new();
    lines.push(to_owned_string("✓ Config is valid"));
    let mut v = to_owned_string("  Version: ");
    push_str(&mut v, version);
    lines.push(v);
    let mut p = to_owned_string("  Projects: ");
    let d = u64_to_string(projects.len() as u64);
    push_str(&mut p, d.as_str());
    lines.push(p);
    let mut e = to_owned_string("  Enabled: ");
    let d2 = u64_to_string(enabled as u64);
    push_str(&mut e, d2.as_str());
    lines.push(e);
    let ghost head = texts(lines@);
    if gone.len() > 0 {
        lines.push(to_owned_string("\nWarning: Some project paths no longer exist:"));
        let ghost h2 = texts(lines@);
        let ghost gv = gone@;
        lines.append(&mut gone);
        assert(texts(lines@) =~= h2 + texts(gv));
    }
    assert(texts(lines@) =~= validate_report(version@, ps, ms));
    lines
}

} // verus!
