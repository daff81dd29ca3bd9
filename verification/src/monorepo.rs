//! The monorepo view of a package feed: a header, a summary box, the shared
//! and internal dependencies and the workspace members, drawn as trees. The
//! feed is held as plain values; the text comes as lines.
use vstd::prelude::*;
use crate::config::Timestamp;
use crate::discovery::{agree_below, lemma_first_difference};
use crate::format::{pad3, pad_number, sanitize_terminal_string, terminal_safe};
use crate::ignore::texts;
use crate::report::{append_all, flatten_lines, join_texts, joined, lemma_flatten_push, one_line};
use crate::text::{decimal, push_str, str_eq, to_owned_string, u64_to_string};

verus! {

broadcast use vstd::seq_lib::group_seq_properties;

/// Configuration for monorepo display.
#[derive(Debug, Clone, Copy, PartialEq, Eq, Structural)]
pub struct MonorepoDisplayConfig {
    pub show_shared_deps: bool,
    pub show_internal_deps: bool,
    pub show_member_details: bool,
    pub compact_mode: bool,
}

impl Default for MonorepoDisplayConfig {
    /// Every section shown, in full.
    fn default() -> (c: Self)
        ensures
            c.show_shared_deps && c.show_internal_deps && c.show_member_details && !c.compact_mode,
    {
        MonorepoDisplayConfig {
            show_shared_deps: true,
            show_internal_deps: true,
            show_member_details: true,
            compact_mode: false,
        }
    }
}

/// A package of the feed, with the version in use and the latest one.
#[derive(Debug, Clone, PartialEq, Eq)]
pub struct FeedPackage {
    pub name: String,
    pub current_version: String,
    pub latest_version: String,
}

/// A dependency that several workspace members use.
#[derive(Debug, Clone, PartialEq, Eq)]
pub struct SharedDependency {
    pub package: FeedPackage,
    pub used_by_members: Vec<String>,
}

/// A workspace member that depends on another.
#[derive(Debug, Clone, PartialEq, Eq)]
pub struct InternalDependency {
    pub from_member: String,
    pub to_member: String,
    pub version_spec: String,
}

/// A workspace member and its external packages.
#[derive(Debug, Clone, PartialEq, Eq)]
pub struct WorkspaceMemberFeed {
    pub name: String,
    pub packages: Vec<FeedPackage>,
}

/// What the monorepo view shows of a package feed. `ecosystem` is the
/// ecosystem as `{:?}` shows it.
#[derive(Debug, Clone, PartialEq, Eq)]
pub struct MonorepoFeed {
    pub project_name: String,
    pub ecosystem: String,
    pub generated_at: Timestamp,
    pub workspace_members: Vec<WorkspaceMemberFeed>,
    pub shared_dependencies: Vec<SharedDependency>,
    pub internal_dependencies: Vec<InternalDependency>,
}

/// The text `DateTime<Utc>::format("%Y-%m-%d %H:%M UTC")` gives for the
/// instant `secs` seconds and `nanos` nanoseconds after the Unix epoch, or
/// `None` where chrono has no such instant.
pub uninterp spec fn utc_minute_text(secs: i64, nanos: u32) -> Option<Seq<char>>;

/// `chrono::DateTime::from_timestamp` then `format("%Y-%m-%d %H:%M UTC")`.
/// The contract names the result; the calendar arithmetic is not restated.
#[verifier::external_body]
fn format_minute(t: Timestamp) -> (r: Option<String>)
    ensures
        match r {
            Some(s) => utc_minute_text(t.secs, t.nanos) == Some(s@),
            None => utc_minute_text(t.secs, t.nanos) is None,
        },
{
    chrono::DateTime::from_timestamp(t.secs, t.nanos).map(|d| d.format("%Y-%m-%d %H:%M UTC").to_string())
}

/// A text without the control characters a terminal would act on.
pub open spec fn safe(s: Seq<char>) -> Seq<char> {
    s.filter(|c: char| terminal_safe(c))
}

/// The branch drawn before an entry of a tree.
pub open spec fn branch(is_last: bool) -> Seq<char> {
    if is_last {
        "└─"@
    } else {
        "├─"@
    }
}

/// What continues below an entry of a tree.
pub open spec fn continuation(is_last: bool) -> Seq<char> {
    if is_last {
        "  "@
    } else {
        "│"@
    }
}

/// The mark of a package: an update is available, or it is up to date.
pub open spec fn update_mark(p: FeedPackage) -> Seq<char> {
    if p.current_version@ != p.latest_version@ {
        "📤"@
    } else {
        "✓"@
    }
}

fn branch_text(is_last: bool) -> (r: &'static str)
    ensures
        r@ == branch(is_last),
{
    if is_last {
        "└─"
    } else {
        "├─"
    }
}

fn continuation_text(is_last: bool) -> (r: &'static str)
    ensures
        r@ == continuation(is_last),
{
    if is_last {
        "  "
    } else {
        "│"
    }
}

fn update_mark_text(p: &FeedPackage) -> (r: &'static str)
    ensures
        r@ == update_mark(*p),
{
    if !str_eq(p.current_version.as_str(), p.latest_version.as_str()) {
        "📤"
    } else {
        "✓"
    }
}

/// The header: the project, its ecosystem, how many members, and when the
/// feed was generated.
pub open spec fn header_lines(feed: MonorepoFeed) -> Seq<Seq<char>> {
    seq![
        "┏━━━━━━━━━━━━━━━━━━━━━━━━━━━━━━━━━━━━━━━━━━━━━━━━━━━━━━━━━━━━━━━━━━━━━━━"@,
        "┃ 📦 "@ + feed.project_name@ + " (Monorepo)"@,
        "┃ Ecosystem: "@ + feed.ecosystem@ + " │ Members: "@ + decimal(feed.workspace_members@.len())
            + " │ Updated: "@ + match utc_minute_text(feed.generated_at.secs, feed.generated_at.nanos) {
            Some(t) => t,
            None => ""@,
        },
        "┗━━━━━━━━━━━━━━━━━━━━━━━━━━━━━━━━━━━━━━━━━━━━━━━━━━━━━━━━━━━━━━━━━━━━━━━"@,
    ]
}

/// The summary box: the number of members, shared and internal dependencies.
pub open spec fn summary_lines(feed: MonorepoFeed) -> Seq<Seq<char>> {
    seq![
        "╔═══ Workspace Summary ═══╗"@,
        "║ Members:              "@ + pad3(feed.workspace_members@.len()) + " ║"@,
        "║ Shared Dependencies:  "@ + pad3(feed.shared_dependencies@.len()) + " ║"@,
        "║ Internal Dependencies: "@ + pad3(feed.internal_dependencies@.len()) + " ║"@,
        "╚═════════════════════════╝"@,
    ]
}

fn header_text(feed: &MonorepoFeed) -> (r: Vec<String>)
    ensures
        texts(r@) == header_lines(*feed),
{
    let mut r: Vec<String> = Vec::new();
    r.push(to_owned_string("┏━━━━━━━━━━━━━━━━━━━━━━━━━━━━━━━━━━━━━━━━━━━━━━━━━━━━━━━━━━━━━━━━━━━━━━━"));
    let mut l = to_owned_string("┃ 📦 ");
    push_str(&mut l, feed.project_name.as_str());
    push_str(&mut l, " (Monorepo)");
    r.push(l);
    let mut e = to_owned_string("┃ Ecosystem: ");
    push_str(&mut e, feed.ecosystem.as_str());
    push_str(&mut e, " │ Members: ");
    let n = u64_to_string(feed.workspace_members.len() as u64);
    push_str(&mut e, n.as_str());
    push_str(&mut e, " │ Updated: ");
    match format_minute(feed.generated_at) {
        Some(t) => push_str(&mut e, t.as_str()),
        None => {
            proof {
                reveal_strlit("");
            }
            push_str(&mut e, "");
        },
    }
    r.push(e);
    r.push(to_owned_string("┗━━━━━━━━━━━━━━━━━━━━━━━━━━━━━━━━━━━━━━━━━━━━━━━━━━━━━━━━━━━━━━━━━━━━━━━"));
    assert(texts(r@) =~= header_lines(*feed));
    r
}

fn boxed_count(label: &str, n: usize) -> (r: String)
    ensures
        r@ == label@ + pad3(n as nat) + " ║"@,
{
    let mut l = to_owned_string(label);
    let p = pad_number(n);
    push_str(&mut l, p.as_str());
    push_str(&mut l, " ║");
    l
}

fn summary_text(feed: &MonorepoFeed) -> (r: Vec<String>)
    ensures
        texts(r@) == summary_lines(*feed),
{
    let mut r: Vec<String> = Vec::new();
    r.push(to_owned_string("╔═══ Workspace Summary ═══╗"));
    r.push(boxed_count("║ Members:              ", feed.workspace_members.len()));
    r.push(boxed_count("║ Shared Dependencies:  ", feed.shared_dependencies.len()));
    r.push(boxed_count("║ Internal Dependencies: ", feed.internal_dependencies.len()));
    r.push(to_owned_string("╚═════════════════════════╝"));
    assert(texts(r@) =~= summary_lines(*feed));
    r
}

/// The sanitized texts of the first `n` names.
pub open spec fn safe_names(names: Seq<String>, n: int) -> Seq<Seq<char>> {
    texts(names.take(n)).map_values(|m: Seq<char>| safe(m))
}

fn safe_first(names: &Vec<String>, n: usize) -> (r: Vec<String>)
    requires
        n <= names@.len(),
    ensures
        texts(r@) == safe_names(names@, n as int),
{
    let mut r: Vec<String> = Vec::new();
    let mut i: usize = 0;
    while i < n
        invariant
            i <= n <= names@.len(),
            texts(r@) == safe_names(names@, i as int),
        decreases n - i,
    {
        let ghost before = texts(r@);
        r.push(sanitize_terminal_string(names[i].as_str()));
        proof {
            assert(names@.take(i + 1) =~= names@.take(i as int).push(names@[i as int]));
            assert(texts(names@.take(i + 1)) =~= texts(names@.take(i as int)).push(names@[i as int]@));
            assert(texts(r@) =~= before.push(safe(names@[i as int]@)));
            assert(safe_names(names@, i + 1) =~= safe_names(names@, i as int).push(safe(names@[i as int]@)));
        }
        i = i + 1;
    }
    r
}

/// Who uses a shared dependency: every member when there are at most five,
/// else the first three and how many more there are.
pub open spec fn users_text(used: Seq<String>) -> Seq<char> {
    if used.len() <= 5 {
        joined(safe_names(used, used.len() as int), ", "@)
    } else {
        joined(safe_names(used, 3), ", "@) + ", ... and "@ + decimal((used.len() - 3) as nat) + " more"@
    }
}

fn users_string(used: &Vec<String>) -> (r: String)
    ensures
        r@ == users_text(used@),
{
    let n = used.len();
    if n <= 5 {
        let names = safe_first(used, n);
        join_texts(&names, ", ")
    } else {
        let names = safe_first(used, 3);
        let mut r = join_texts(&names, ", ");
        push_str(&mut r, ", ... and ");
        let d = u64_to_string((n - 3) as u64);
        push_str(&mut r, d.as_str());
        push_str(&mut r, " more");
        r
    }
}

/// The lines of one shared dependency.
pub open spec fn shared_block(dep: SharedDependency, is_last: bool) -> Seq<Seq<char>> {
    seq![
        branch(is_last) + " "@ + update_mark(dep.package) + " "@ + safe(dep.package.name@) + " (used by "@ + decimal(
            dep.used_by_members@.len(),
        ) + " members)"@,
        continuation(is_last) + "   Current: "@ + safe(dep.package.current_version@) + " → Latest: "@ + safe(
            dep.package.latest_version@,
        ),
        continuation(is_last) + "   Used by: "@ + users_text(dep.used_by_members@),
    ] + if is_last {
        Seq::<Seq<char>>::empty()
    } else {
        seq![continuation(is_last)]
    }
}

/// The shared dependencies, as a tree.
pub open spec fn shared_lines(deps: Seq<SharedDependency>) -> Seq<Seq<char>> {
    seq!["🔗 Shared Dependencies ("@ + decimal(deps.len()) + "):"@, ""@] + flatten_lines(
        Seq::new(deps.len(), |i: int| shared_block(deps[i], i == deps.len() - 1)),
    )
}

fn shared_block_text(dep: &SharedDependency, is_last: bool) -> (r: Vec<String>)
    ensures
        texts(r@) == shared_block(*dep, is_last),
{
    let b = branch_text(is_last);
    let c = continuation_text(is_last);
    let mut l1 = to_owned_string(b);
    push_str(&mut l1, " ");
    push_str(&mut l1, update_mark_text(&dep.package));
    push_str(&mut l1, " ");
    let name = sanitize_terminal_string(dep.package.name.as_str());
    push_str(&mut l1, name.as_str());
    push_str(&mut l1, " (used by ");
    let n = u64_to_string(dep.used_by_members.len() as u64);
    push_str(&mut l1, n.as_str());
    push_str(&mut l1, " members)");
    let mut l2 = to_owned_string(c);
    push_str(&mut l2, "   Current: ");
    let cur = sanitize_terminal_string(dep.package.current_version.as_str());
    push_str(&mut l2, cur.as_str());
    push_str(&mut l2, " → Latest: ");
    let latest = sanitize_terminal_string(dep.package.latest_version.as_str());
    push_str(&mut l2, latest.as_str());
    let mut l3 = to_owned_string(c);
    push_str(&mut l3, "   Used by: ");
    let users = users_string(&dep.used_by_members);
    push_str(&mut l3, users.as_str());
    let mut r: Vec<String> = Vec::new();
    r.push(l1);
    r.push(l2);
    r.push(l3);
    if !is_last {
        r.push(to_owned_string(c));
    }
    assert(texts(r@) =~= shared_block(*dep, is_last));
    r
}

fn heading_text(title: &str, n: usize) -> (r: Vec<String>)
    ensures
        texts(r@) == seq![title@ + decimal(n as nat) + "):"@, ""@],
{
    let mut h = to_owned_string(title);
    let d = u64_to_string(n as u64);
    push_str(&mut h, d.as_str());
    push_str(&mut h, "):");
    let mut r: Vec<String> = Vec::new();
    r.push(h);
    r.push(to_owned_string(""));
    assert(texts(r@) =~= seq![title@ + decimal(n as nat) + "):"@, ""@]);
    r
}

fn shared_text(deps: &Vec<SharedDependency>) -> (r: Vec<String>)
    ensures
        texts(r@) == shared_lines(deps@),
{
    let ghost ds = deps@;
    let ghost blocks = Seq::new(ds.len(), |i: int| shared_block(ds[i], i == ds.len() - 1));
    let mut r = heading_text("🔗 Shared Dependencies (", deps.len());
    let ghost head = texts(r@);
    let mut i: usize = 0;
    while i < deps.len()
        invariant
            i <= ds.len(),
            ds == deps@,
            blocks == Seq::new(ds.len(), |i: int| shared_block(ds[i], i == ds.len() - 1)),
            texts(r@) == head + flatten_lines(blocks.take(i as int)),
        decreases ds.len() - i,
    {
        let b = shared_block_text(&deps[i], i == deps.len() - 1);
        proof {
            lemma_flatten_push(blocks.take(i as int), blocks[i as int]);
            assert(blocks.take(i + 1) =~= blocks.take(i as int).push(blocks[i as int]));
        }
        append_all(&mut r, b);
        i = i + 1;
    }
    assert(blocks.take(ds.len() as int) =~= blocks);
    r
}

/// The lines of a member's package, under the member's continuation `c`.
pub open spec fn package_lines(p: FeedPackage, is_last: bool, c: Seq<char>) -> Seq<Seq<char>> {
    seq![c + "  "@ + branch(is_last) + " "@ + update_mark(p) + " "@ + safe(p.name@) + " → "@ + safe(p.latest_version@)]
        + if p.current_version@ != p.latest_version@ {
        seq![c + "  "@ + continuation(is_last) + "   (current: "@ + safe(p.current_version@) + ")"@]
    } else {
        Seq::<Seq<char>>::empty()
    }
}

/// The lines of a workspace member: its name and package count, then (unless
/// compact) its packages.
pub open spec fn member_block(m: WorkspaceMemberFeed, is_last: bool, compact: bool) -> Seq<Seq<char>> {
    seq![branch(is_last) + " 📄 "@ + safe(m.name@) + " ("@ + decimal(m.packages@.len()) + " dependencies)"@] + if compact {
        Seq::<Seq<char>>::empty()
    } else if m.packages@.len() == 0 {
        seq![continuation(is_last) + "   (no external dependencies)"@]
    } else {
        flatten_lines(
            Seq::new(
                m.packages@.len(),
                |k: int| package_lines(m.packages@[k], k == m.packages@.len() - 1, continuation(is_last)),
            ),
        )
    }
}

/// A member's lines, followed by a blank line unless it is the last or the
/// view is compact.
pub open spec fn member_entry(m: WorkspaceMemberFeed, is_last: bool, compact: bool) -> Seq<Seq<char>> {
    member_block(m, is_last, compact) + if !is_last && !compact {
        seq![""@]
    } else {
        Seq::<Seq<char>>::empty()
    }
}

/// The workspace members, as a tree.
pub open spec fn members_lines(ms: Seq<WorkspaceMemberFeed>, compact: bool) -> Seq<Seq<char>> {
    seq!["📁 Workspace Members ("@ + decimal(ms.len()) + "):"@, ""@] + flatten_lines(
        Seq::new(ms.len(), |i: int| member_entry(ms[i], i == ms.len() - 1, compact)),
    )
}

fn package_text(p: &FeedPackage, is_last: bool, c: &str) -> (r: Vec<String>)
    ensures
        texts(r@) == package_lines(*p, is_last, c@),
{
    let mut l = to_owned_string(c);
    push_str(&mut l, "  ");
    push_str(&mut l, branch_text(is_last));
    push_str(&mut l, " ");
    push_str(&mut l, update_mark_text(p));
    push_str(&mut l, " ");
    let name = sanitize_terminal_string(p.name.as_str());
    push_str(&mut l, name.as_str());
    push_str(&mut l, " → ");
    let latest = sanitize_terminal_string(p.latest_version.as_str());
    push_str(&mut l, latest.as_str());
    let mut r: Vec<String> = Vec::new();
    r.push(l);
    if !str_eq(p.current_version.as_str(), p.latest_version.as_str()) {
        let mut m = to_owned_string(c);
        push_str(&mut m, "  ");
        push_str(&mut m, continuation_text(is_last));
        push_str(&mut m, "   (current: ");
        let cur = sanitize_terminal_string(p.current_version.as_str());
        push_str(&mut m, cur.as_str());
        push_str(&mut m, ")");
        r.push(m);
    }
    assert(texts(r@) =~= package_lines(*p, is_last, c@));
    r
}

fn member_block_text(m: &WorkspaceMemberFeed, is_last: bool, compact: bool) -> (r: Vec<String>)
    ensures
        texts(r@) == member_block(*m, is_last, compact),
{
    let mut l = to_owned_string(branch_text(is_last));
    push_str(&mut l, " 📄 ");
    let name = sanitize_terminal_string(m.name.as_str());
    push_str(&mut l, name.as_str());
    push_str(&mut l, " (");
    let n = u64_to_string(m.packages.len() as u64);
    push_str(&mut l, n.as_str());
    push_str(&mut l, " dependencies)");
    let mut r = one_line(l);
    if compact {
        assert(texts(r@) =~= member_block(*m, is_last, compact));
        return r;
    }
    let c = continuation_text(is_last);
    if m.packages.len() == 0 {
        let mut e = to_owned_string(c);
        push_str(&mut e, "   (no external dependencies)");
        r.push(e);
        assert(texts(r@) =~= member_block(*m, is_last, compact));
        return r;
    }
    let ghost ps = m.packages@;
    let ghost blocks = Seq::new(ps.len(), |k: int| package_lines(ps[k], k == ps.len() - 1, continuation(is_last)));
    let ghost head = texts(r@);
    let mut k: usize = 0;
    while k < m.packages.len()
        invariant
            k <= ps.len(),
            ps == m.packages@,
            c@ == continuation(is_last),
            blocks == Seq::new(ps.len(), |k: int| package_lines(ps[k], k == ps.len() - 1, continuation(is_last))),
            texts(r@) == head + flatten_lines(blocks.take(k as int)),
        decreases ps.len() - k,
    {
        let b = package_text(&m.packages[k], k == m.packages.len() - 1, c);
        proof {
            lemma_flatten_push(blocks.take(k as int), blocks[k as int]);
            assert(blocks.take(k + 1) =~= blocks.take(k as int).push(blocks[k as int]));
        }
        append_all(&mut r, b);
        k = k + 1;
    }
    assert(blocks.take(ps.len() as int) =~= blocks);
    assert(texts(r@) =~= member_block(*m, is_last, compact));
    r
}

fn members_text(ms: &Vec<WorkspaceMemberFeed>, compact: bool) -> (r: Vec<String>)
    ensures
        texts(r@) == members_lines(ms@, compact),
{
    let ghost ds = ms@;
    let ghost blocks = Seq::new(ds.len(), |i: int| member_entry(ds[i], i == ds.len() - 1, compact));
    let mut r = heading_text("📁 Workspace Members (", ms.len());
    let ghost head = texts(r@);
    let mut i: usize = 0;
    while i < ms.len()
        invariant
            i <= ds.len(),
            ds == ms@,
            blocks == Seq::new(ds.len(), |i: int| member_entry(ds[i], i == ds.len() - 1, compact)),
            texts(r@) == head + flatten_lines(blocks.take(i as int)),
        decreases ds.len() - i,
    {
        let is_last = i == ms.len() - 1;
        let mut b = member_block_text(&ms[i], is_last, compact);
        if !is_last && !compact {
            b.push(to_owned_string(""));
        }
        proof {
            assert(texts(b@) =~= member_entry(ds[i as int], is_last, compact));
            lemma_flatten_push(blocks.take(i as int), blocks[i as int]);
            assert(blocks.take(i + 1) =~= blocks.take(i as int).push(blocks[i as int]));
        }
        append_all(&mut r, b);
        i = i + 1;
    }
    assert(blocks.take(ds.len() as int) =~= blocks);
    r
}

/// Text order: character by character in code-point order, a proper prefix
/// first (the order of `str`).
pub open spec fn text_before(a: Seq<char>, b: Seq<char>) -> bool {
    exists|k: int|
        #![trigger agree_below(a, b, k)]
        agree_below(a, b, k) && ((k == a.len() && k < b.len()) || (k < a.len() && k < b.len() && (a[k] as int)
            < (b[k] as int)))
}

proof fn lemma_text_before_at(a: Seq<char>, b: Seq<char>, d: int)
    requires
        agree_below(a, b, d),
        d == a.len() || d == b.len() || a[d] != b[d],
    ensures
        text_before(a, b) <==> ((d == a.len() && d < b.len()) || (d < a.len() && d < b.len() && (a[d] as int)
            < (b[d] as int))),
{
    if text_before(a, b) {
        let k = choose|k: int|
            #![trigger agree_below(a, b, k)]
            agree_below(a, b, k) && ((k == a.len() && k < b.len()) || (k < a.len() && k < b.len() && (a[k] as int)
                < (b[k] as int)));
        if k < d {
            assert(a[k] == b[k]);
        } else if d < k {
            assert(a[d] == b[d]);
        }
    }
    if (d == a.len() && d < b.len()) || (d < a.len() && d < b.len() && (a[d] as int) < (b[d] as int)) {
        assert(agree_below(a, b, d));
    }
}

/// Text order is a strict total order.
pub proof fn lemma_text_order(a: Seq<char>, b: Seq<char>, c: Seq<char>)
    ensures
        !text_before(a, a),
        a != b ==> text_before(a, b) || text_before(b, a),
        text_before(a, b) ==> !text_before(b, a),
        text_before(a, b) && text_before(b, c) ==> text_before(a, c),
{
    assert(agree_below(a, a, 0));
    let e = lemma_first_difference(a, a, 0);
    lemma_text_before_at(a, a, e);
    assert(agree_below(a, b, 0));
    let d = lemma_first_difference(a, b, 0);
    lemma_text_before_at(a, b, d);
    assert(agree_below(b, a, d));
    lemma_text_before_at(b, a, d);
    if d == a.len() && d == b.len() {
        assert(a =~= b);
    } else if d < a.len() && d < b.len() {
        assert(a[d] as int != b[d] as int);
    }
    if text_before(a, b) && text_before(b, c) {
        assert(agree_below(b, c, 0));
        let d2 = lemma_first_difference(b, c, 0);
        lemma_text_before_at(b, c, d2);
        let m = if d < d2 { d } else { d2 };
        assert(agree_below(a, c, m));
        if d != d2 {
            lemma_text_before_at(a, c, m);
        } else {
            let f = lemma_first_difference(a, c, m);
            lemma_text_before_at(a, c, f);
        }
    }
}

/// Whether `a` comes before `b` in text order.
pub fn str_less(a: &str, b: &str) -> (r: bool)
    ensures
        r == text_before(a@, b@),
{
    let x = crate::text::chars_of(a);
    let y = crate::text::chars_of(b);
    let mut i: usize = 0;
    while i < x.len() && i < y.len() && x[i] == y[i]
        invariant
            i <= x@.len(),
            i <= y@.len(),
            x@ == a@,
            y@ == b@,
            agree_below(a@, b@, i as int),
        decreases x@.len() - i,
    {
        i = i + 1;
    }
    proof {
        lemma_text_before_at(a@, b@, i as int);
    }
    if i == x.len() {
        i < y.len()
    } else if i == y.len() {
        false
    } else {
        x[i] < y[i]
    }
}

/// `ms` holds each member that depends on another exactly once, in text order.
pub open spec fn member_names_of(deps: Seq<InternalDependency>, ms: Seq<Seq<char>>) -> bool {
    &&& forall|i: int, j: int| 0 <= i < j < ms.len() ==> text_before(#[trigger] ms[i], #[trigger] ms[j])
    &&& forall|x: Seq<char>| ms.contains(x) <==> exists|i: int| 0 <= i < deps.len() && #[trigger] deps[i].from_member@ == x
}

fn sorted_members(deps: &Vec<InternalDependency>) -> (r: Vec<String>)
    ensures
        member_names_of(deps@, texts(r@)),
{
    let ghost ds = deps@;
    let mut out: Vec<String> = Vec::new();
    let mut i: usize = 0;
    while i < deps.len()
        invariant
            i <= ds.len(),
            ds == deps@,
            forall|a: int, b: int| 0 <= a < b < texts(out@).len() ==> text_before(#[trigger] texts(out@)[a], #[trigger] texts(out@)[b]),
            forall|x: Seq<char>| texts(out@).contains(x) <==> exists|k: int| 0 <= k < i && #[trigger] ds[k].from_member@ == x,
        decreases ds.len() - i,
    {
        let name = &deps[i].from_member;
        let ghost os = texts(out@);
        let mut j: usize = 0;
        while j < out.len() && str_less(out[j].as_str(), name.as_str())
            invariant
                j <= out@.len(),
                os == texts(out@),
                forall|k: int| 0 <= k < j ==> text_before(#[trigger] os[k], name@),
            decreases out@.len() - j,
        {
            j = j + 1;
        }
        let present = j < out.len() && str_eq(out[j].as_str(), name.as_str());
        if !present {
            proof {
                if j < os.len() {
                    lemma_text_order(name@, os[j as int], os[j as int]);
                }
            }
            out.insert(j, name.clone());
            proof {
                let ns = texts(out@);
                assert(ns =~= os.insert(j as int, name@));
                assert forall|a: int, b: int| 0 <= a < b < ns.len() implies text_before(#[trigger] ns[a], #[trigger] ns[b]) by {
                    if b < j {
                        assert(ns[a] == os[a] && ns[b] == os[b]);
                    } else if b == j {
                        assert(ns[a] == os[a]);
                    } else if a < j {
                        assert(ns[a] == os[a] && ns[b] == os[b - 1]);
                        lemma_text_order(os[a], name@, os[j as int]);
                        if b - 1 > j {
                            lemma_text_order(os[a], os[j as int], os[b - 1]);
                        }
                    } else if a == j {
                        assert(ns[b] == os[b - 1]);
                        if b - 1 > j {
                            lemma_text_order(name@, os[j as int], os[b - 1]);
                        }
                    } else {
                        assert(ns[a] == os[a - 1] && ns[b] == os[b - 1]);
                    }
                }
                assert forall|x: Seq<char>| ns.contains(x) <==> exists|k: int| 0 <= k < i + 1 && #[trigger] ds[k].from_member@ == x by {
                    if ns.contains(x) {
                        let k = choose|k: int| 0 <= k < ns.len() && ns[k] == x;
                        if k < j {
                            assert(os[k] == x);
                            assert(os.contains(x));
                        } else if k > j {
                            assert(os[k - 1] == x);
                            assert(os.contains(x));
                        } else {
                            assert(ds[i as int].from_member@ == x);
                        }
                    }
                    if exists|k: int| 0 <= k < i + 1 && #[trigger] ds[k].from_member@ == x {
                        let k = choose|k: int| 0 <= k < i + 1 && #[trigger] ds[k].from_member@ == x;
                        if k < i {
                            assert(os.contains(x));
                            let q = choose|q: int| 0 <= q < os.len() && os[q] == x;
                            if q < j {
                                assert(ns[q] == x);
                            } else {
                                assert(ns[q + 1] == x);
                            }
                        } else {
                            assert(ns[j as int] == x);
                        }
                    }
                }
            }
        } else {
            proof {
                assert(os[j as int] == name@);
                assert forall|x: Seq<char>| os.contains(x) <==> exists|k: int| 0 <= k < i + 1 && #[trigger] ds[k].from_member@ == x by {
                    if exists|k: int| 0 <= k < i + 1 && #[trigger] ds[k].from_member@ == x {
                        let k = choose|k: int| 0 <= k < i + 1 && #[trigger] ds[k].from_member@ == x;
                        if k == i {
                            assert(os[j as int] == x);
                        }
                    }
                }
            }
        }
        i = i + 1;
    }
    out
}

/// The internal dependencies of one member, in order.
pub open spec fn deps_from(deps: Seq<InternalDependency>, m: Seq<char>) -> Seq<InternalDependency> {
    deps.filter(|d: InternalDependency| d.from_member@ == m)
}

/// The line of one internal dependency.
pub open spec fn dep_line(d: InternalDependency, member_last: bool, dep_last: bool) -> Seq<char> {
    continuation(member_last) + "  "@ + branch(dep_last) + " → "@ + safe(d.to_member@) + " ("@ + safe(d.version_spec@)
        + ")"@
}

/// The lines of one member's internal dependencies.
pub open spec fn member_group(deps: Seq<InternalDependency>, m: Seq<char>, is_last: bool) -> Seq<Seq<char>> {
    let ds = deps_from(deps, m);
    seq![branch(is_last) + " 📄 "@ + safe(m)] + Seq::new(ds.len(), |k: int| dep_line(ds[k], is_last, k == ds.len() - 1))
        + if is_last {
        Seq::<Seq<char>>::empty()
    } else {
        seq!["│"@]
    }
}

/// The internal dependencies, grouped by the member that depends, the members
/// in the order `ms` gives.
pub open spec fn internal_lines(deps: Seq<InternalDependency>, ms: Seq<Seq<char>>) -> Seq<Seq<char>> {
    seq!["🔄 Internal Dependencies ("@ + decimal(deps.len()) + "):"@, ""@] + flatten_lines(
        Seq::new(ms.len(), |j: int| member_group(deps, ms[j], j == ms.len() - 1)),
    )
}

fn member_group_text(deps: &Vec<InternalDependency>, m: &str, is_last: bool) -> (r: Vec<String>)
    ensures
        texts(r@) == member_group(deps@, m@, is_last),
{
    let ghost all = deps@;
    let ghost ds = deps_from(all, m@);
    let mut mine: Vec<&InternalDependency> = Vec::new();
    let mut i: usize = 0;
    while i < deps.len()
        invariant
            i <= all.len(),
            all == deps@,
            mine@.len() == deps_from(all.take(i as int), m@).len(),
            forall|k: int| 0 <= k < mine@.len() ==> *mine@[k] == deps_from(all.take(i as int), m@)[k],
        decreases all.len() - i,
    {
        if str_eq(deps[i].from_member.as_str(), m) {
            mine.push(&deps[i]);
        }
        proof {
            assert(all.take(i + 1).drop_last() =~= all.take(i as int));
            reveal_with_fuel(Seq::filter, 1);
        }
        i = i + 1;
    }
    assert(all.take(all.len() as int) =~= all);
    let mut head = to_owned_string(branch_text(is_last));
    push_str(&mut head, " 📄 ");
    let name = sanitize_terminal_string(m);
    push_str(&mut head, name.as_str());
    let mut r = one_line(head);
    let ghost first = texts(r@);
    let c = continuation_text(is_last);
    let mut k: usize = 0;
    while k < mine.len()
        invariant
            k <= mine@.len(),
            mine@.len() == ds.len(),
            ds == deps_from(all, m@),
            forall|q: int| 0 <= q < mine@.len() ==> *mine@[q] == ds[q],
            c@ == continuation(is_last),
            texts(r@) == first + Seq::new(k as nat, |q: int| dep_line(ds[q], is_last, q == ds.len() - 1)),
        decreases mine@.len() - k,
    {
        let d = mine[k];
        let mut l = to_owned_string(c);
        push_str(&mut l, "  ");
        push_str(&mut l, branch_text(k == mine.len() - 1));
        push_str(&mut l, " → ");
        let to = sanitize_terminal_string(d.to_member.as_str());
        push_str(&mut l, to.as_str());
        push_str(&mut l, " (");
        let spec_text = sanitize_terminal_string(d.version_spec.as_str());
        push_str(&mut l, spec_text.as_str());
        push_str(&mut l, ")");
        let ghost before = texts(r@);
        r.push(l);
        proof {
            assert(texts(r@) =~= before.push(l@));
            assert(Seq::new((k + 1) as nat, |q: int| dep_line(ds[q], is_last, q == ds.len() - 1)) =~= Seq::new(
                k as nat,
                |q: int| dep_line(ds[q], is_last, q == ds.len() - 1),
            ).push(dep_line(ds[k as int], is_last, k == ds.len() - 1)));
        }
        k = k + 1;
    }
    if !is_last {
        r.push(to_owned_string("│"));
    }
    assert(texts(r@) =~= member_group(all, m@, is_last));
    r
}

fn internal_text(deps: &Vec<InternalDependency>) -> (r: Vec<String>)
    ensures
        exists|ms: Seq<Seq<char>>| member_names_of(deps@, ms) && texts(r@) == internal_lines(deps@, ms),
{
    let names = sorted_members(deps);
    let ghost ms = texts(names@);
    let ghost blocks = Seq::new(ms.len(), |j: int| member_group(deps@, ms[j], j == ms.len() - 1));
    let mut r = heading_text("🔄 Internal Dependencies (", deps.len());
    let ghost head = texts(r@);
    let mut j: usize = 0;
    while j < names.len()
        invariant
            j <= ms.len(),
            ms == texts(names@),
            blocks == Seq::new(ms.len(), |j: int| member_group(deps@, ms[j], j == ms.len() - 1)),
            texts(r@) == head + flatten_lines(blocks.take(j as int)),
        decreases ms.len() - j,
    {
        let b = member_group_text(deps, names[j].as_str(), j == names.len() - 1);
        proof {
            lemma_flatten_push(blocks.take(j as int), blocks[j as int]);
            assert(blocks.take(j + 1) =~= blocks.take(j as int).push(blocks[j as int]));
        }
        append_all(&mut r, b);
        j = j + 1;
    }
    assert(blocks.take(ms.len() as int) =~= blocks);
    assert(texts(r@) == internal_lines(deps@, ms));
    r
}

/// The monorepo view: the header, the summary box, then the shared
/// dependencies, the internal dependencies (members in the order `ms` gives)
/// and the workspace members, each as the configuration asks and when there is
/// something to show, separated by blank lines.
pub open spec fn monorepo_report(feed: MonorepoFeed, config: MonorepoDisplayConfig, ms: Seq<Seq<char>>) -> Seq<Seq<char>> {
    header_lines(feed) + seq![""@] + summary_lines(feed) + seq![""@] + (if config.show_shared_deps
        && feed.shared_dependencies@.len() > 0 {
        shared_lines(feed.shared_dependencies@) + seq![""@]
    } else {
        Seq::empty()
    }) + (if config.show_internal_deps && feed.internal_dependencies@.len() > 0 {
        internal_lines(feed.internal_dependencies@, ms) + seq![""@]
    } else {
        Seq::empty()
    }) + (if config.show_member_details {
        members_lines(feed.workspace_members@, config.compact_mode)
    } else {
        Seq::empty()
    })
}

/// The monorepo view of a feed, as lines; the members with internal
/// dependencies come in text order.
pub fn print_monorepo_feed(feed: &MonorepoFeed, config: &MonorepoDisplayConfig) -> (r: Vec<String>)
    ensures
        exists|ms: Seq<Seq<char>>|
            (config.show_internal_deps ==> member_names_of(feed.internal_dependencies@, ms)) && texts(r@)
                == monorepo_report(*feed, *config, ms),
{
    let mut r = header_text(feed);
    let blank = one_line(to_owned_string(""));
    append_all(&mut r, blank);
    let summary = summary_text(feed);
    append_all(&mut r, summary);
    let blank = one_line(to_owned_string(""));
    append_all(&mut r, blank);
    let ghost a = texts(r@);
    if config.show_shared_deps && feed.shared_dependencies.len() > 0 {
        let mut shared = shared_text(&feed.shared_dependencies);
        shared.push(to_owned_string(""));
        append_all(&mut r, shared);
    }
    let ghost b = texts(r@);
    let ghost mut ms_witness: Seq<Seq<char>> = Seq::empty();
    if config.show_internal_deps && feed.internal_dependencies.len() > 0 {
        let mut internal = internal_text(&feed.internal_dependencies);
        let ghost ms = choose|ms: Seq<Seq<char>>|
            member_names_of(feed.internal_dependencies@, ms) && texts(internal@) == internal_lines(feed.internal_dependencies@, ms);
        proof {
            ms_witness = ms;
        }
        internal.push(to_owned_string(""));
        append_all(&mut r, internal);
    }
    let ghost c = texts(r@);
    if config.show_member_details {
        let members = members_text(&feed.workspace_members, config.compact_mode);
        append_all(&mut r, members);
    }
    proof {
        if config.show_internal_deps && feed.internal_dependencies@.len() == 0 {
            assert(member_names_of(feed.internal_dependencies@, Seq::empty()));
        }
    }
    assert(texts(r@) =~= monorepo_report(*feed, *config, ms_witness));
    r
}

} // verus!
