//! Properties that hold across the library's operations: what a lookup finds
//! after the project list changes, how requests and findings are split, and
//! how names and patterns are matched.
use vstd::prelude::*;
use crate::backends::{first_where, same_ignoring_ascii_case, BackendInfo};
use crate::capabilities::AnalysisCapabilities;
use crate::category_kind::{cli_name_of, parsed_cli_name, Category};
use crate::category_validation::{not_offered, offered};
use crate::circular::{has_name, imports_transitively, is_module, reports_cycles};
use crate::findings::CircularDependency;
use crate::config::Project;
use crate::filtering::{breakdown_of, breakdown_total, count_where, ignoring_pattern, split_by_patterns};
use crate::findings::{Finding, IgnoredFinding, SmellSeverity};
use crate::graph_report::{severity_count, smell_severity_of};
use crate::ignore::{first_matching, glob_matches, matched_pattern, IgnorePatternBuilder, IgnoreSet, PatternInfo};
use crate::projects::{first_index, ids_unique};

verus! {

/// The name of a category on the command line parses back to that category.
pub proof fn law_cli_name_round_trip(c: Category, r: Option<Category>)
    requires
        parsed_cli_name(cli_name_of(c), r),
    ensures
        r == Some(c),
{
    reveal_strlit("files");
    reveal_strlit("exports");
    reveal_strlit("symbols");
    reveal_strlit("types");
    reveal_strlit("dependencies");
    reveal_strlit("imports");
    reveal_strlit("circular");
    reveal_strlit("quality");
    reveal_strlit("framework");
    if let Some(d) = r {
        assert(cli_name_of(d)[0] == cli_name_of(c)[0] && cli_name_of(d)[1] == cli_name_of(c)[1]);
    }
}

/// Every requested category is either offered or not offered, never both, and
/// the two lists together are exactly as long as the request.
pub proof fn law_request_split(caps: AnalysisCapabilities, requested: Seq<Category>)
    ensures
        offered(caps, requested).len() + not_offered(caps, requested).len() == requested.len(),
        forall|c: Category|
            requested.contains(c) <==> (offered(caps, requested).contains(c) || not_offered(
                caps,
                requested,
            ).contains(c)),
        forall|c: Category| !(offered(caps, requested).contains(c) && not_offered(caps, requested).contains(c)),
    decreases requested.len(),
{
    let p = |c: Category| caps.available_set().contains(c);
    let q = |c: Category| !caps.available_set().contains(c);
    assert forall|c: Category| #[trigger] requested.filter(p).contains(c) implies p(c) && requested.contains(c) by {
        lemma_filtered_from(requested, p, c);
    }
    assert forall|c: Category| #[trigger] requested.filter(q).contains(c) implies q(c) && requested.contains(c) by {
        lemma_filtered_from(requested, q, c);
    }
    if requested.len() > 0 {
        let init = requested.drop_last();
        let x = requested.last();
        law_request_split(caps, init);
        reveal_with_fuel(Seq::filter, 1);
        assert(requested.filter(p) == if p(x) { init.filter(p).push(x) } else { init.filter(p) });
        assert(requested.filter(q) == if q(x) { init.filter(q).push(x) } else { init.filter(q) });
        assert forall|c: Category| requested.contains(c) implies (offered(caps, requested).contains(c)
            || not_offered(caps, requested).contains(c)) by {
            let k = choose|k: int| 0 <= k < requested.len() && requested[k] == c;
            if k < init.len() {
                assert(init[k] == c);
                assert(init.contains(c));
                if init.filter(p).contains(c) {
                    let m = choose|m: int| 0 <= m < init.filter(p).len() && init.filter(p)[m] == c;
                    if p(x) {
                        assert(requested.filter(p)[m] == c);
                    } else {
                        assert(requested.filter(p)[m] == c);
                    }
                } else {
                    assert(init.filter(q).contains(c));
                    let m = choose|m: int| 0 <= m < init.filter(q).len() && init.filter(q)[m] == c;
                    assert(requested.filter(q)[m] == c);
                }
            } else {
                assert(c == x);
                if p(x) {
                    assert(requested.filter(p)[init.filter(p).len() as int] == x);
                } else {
                    assert(requested.filter(q)[init.filter(q).len() as int] == x);
                }
            }
        }
    } else {
        assert(requested.filter(p) =~= Seq::<Category>::empty()) by {
            reveal_with_fuel(Seq::filter, 1);
        }
        assert(requested.filter(q) =~= Seq::<Category>::empty()) by {
            reveal_with_fuel(Seq::filter, 1);
        }
    }
}

/// What a filter keeps comes from the sequence and satisfies the predicate.
proof fn lemma_filtered_from<A>(s: Seq<A>, p: spec_fn(A) -> bool, c: A)
    requires
        s.filter(p).contains(c),
    ensures
        p(c),
        s.contains(c),
    decreases s.len(),
{
    reveal_with_fuel(Seq::filter, 1);
    if s.len() > 0 {
        let init = s.drop_last();
        if init.filter(p).contains(c) {
            lemma_filtered_from(init, p, c);
            let k = choose|k: int| 0 <= k < init.len() && init[k] == c;
            assert(s[k] == c);
        } else {
            let f = init.filter(p);
            assert(p(s.last()));
            let k = choose|k: int| 0 <= k < f.push(s.last()).len() && f.push(s.last())[k] == c;
            assert(k == f.len());
            assert(s[s.len() - 1] == c);
        }
    }
}

/// A project added under an id that no project has is the one found by that id.
pub proof fn law_added_project_is_found(ps: Seq<Project>, p: Project)
    requires
        first_index(ps, p.id@) is None,
    ensures
        first_index(ps.push(p), p.id@) == Some(ps.len() as int),
{
    let qs = ps.push(p);
    assert(qs[ps.len() as int].id@ == p.id@);
    assert(forall|j: int| 0 <= j < ps.len() ==> #[trigger] qs[j].id@ != p.id@) by {
        assert forall|j: int| 0 <= j < ps.len() implies #[trigger] qs[j].id@ != p.id@ by {
            assert(qs[j] == ps[j]);
            if ps[j].id@ == p.id@ {
                assert(exists|i: int| 0 <= i < ps.len() && #[trigger] ps[i].id@ == p.id@);
            }
        }
    }
    let k = choose|k: int|
        0 <= k < qs.len() && #[trigger] qs[k].id@ == p.id@ && forall|j: int| 0 <= j < k ==> #[trigger] qs[j].id@ != p.id@;
    assert(0 <= k < qs.len() && qs[k].id@ == p.id@);
    assert(k == ps.len());
}

/// Adding a project under an id that no project has keeps the ids unique.
pub proof fn law_add_keeps_ids_unique(ps: Seq<Project>, p: Project)
    requires
        ids_unique(ps),
        first_index(ps, p.id@) is None,
    ensures
        ids_unique(ps.push(p)),
{
    let qs = ps.push(p);
    assert forall|i: int, j: int| 0 <= i < j < qs.len() implies qs[i].id@ != qs[j].id@ by {
        if j == ps.len() {
            assert(qs[i] == ps[i]);
            if ps[i].id@ == p.id@ {
                assert(exists|k: int| 0 <= k < ps.len() && #[trigger] ps[k].id@ == p.id@);
            }
        } else {
            assert(qs[i] == ps[i] && qs[j] == ps[j]);
        }
    }
}

/// With unique ids, once the project found by an id is removed, no project
/// has that id any more, and the remaining ids stay unique.
pub proof fn law_removed_project_is_gone(ps: Seq<Project>, id: Seq<char>)
    requires
        ids_unique(ps),
        first_index(ps, id) is Some,
    ensures
        first_index(ps.remove(first_index(ps, id).unwrap()), id) is None,
        ids_unique(ps.remove(first_index(ps, id).unwrap())),
{
    let i = first_index(ps, id).unwrap();
    let qs = ps.remove(i);
    assert(ps[i].id@ == id);
    assert forall|k: int| 0 <= k < qs.len() implies #[trigger] qs[k].id@ != id by {
        if k < i {
            assert(qs[k] == ps[k]);
        } else {
            assert(qs[k] == ps[k + 1]);
        }
    }
    assert forall|a: int, b: int| 0 <= a < b < qs.len() implies qs[a].id@ != qs[b].id@ by {
        let a2 = if a < i { a } else { a + 1 };
        let b2 = if b < i { b } else { b + 1 };
        assert(qs[a] == ps[a2] && qs[b] == ps[b2]);
    }
}

/// Replacing a project by one with the same id (enabling or disabling it, or
/// recording when it was checked) leaves every lookup by id unchanged.
pub proof fn law_update_keeps_lookup(ps: Seq<Project>, i: int, q: Project, id: Seq<char>)
    requires
        0 <= i < ps.len(),
        q.id@ == ps[i].id@,
    ensures
        first_index(ps.update(i, q), id) == first_index(ps, id),
{
    let qs = ps.update(i, q);
    assert(forall|k: int| 0 <= k < ps.len() ==> (#[trigger] qs[k].id@ == id) == (ps[k].id@ == id));
    if exists|k: int| 0 <= k < ps.len() && #[trigger] ps[k].id@ == id {
        let w = choose|k: int| 0 <= k < ps.len() && #[trigger] ps[k].id@ == id;
        assert(qs[w].id@ == id);
        let a = choose|k: int|
            0 <= k < ps.len() && #[trigger] ps[k].id@ == id && forall|j: int| 0 <= j < k ==> #[trigger] ps[j].id@ != id;
        let b = choose|k: int|
            0 <= k < qs.len() && #[trigger] qs[k].id@ == id && forall|j: int| 0 <= j < k ==> #[trigger] qs[j].id@ != id;
        lemma_first_exists(ps, id, w);
        lemma_first_exists(qs, id, w);
        if a < b {
            assert(qs[a].id@ == id);
        } else if b < a {
            assert(ps[b].id@ == id);
        }
    } else {
        assert(!exists|k: int| 0 <= k < qs.len() && #[trigger] qs[k].id@ == id);
    }
}

/// Some position holds the first project with an id that occurs.
proof fn lemma_first_exists(ps: Seq<Project>, id: Seq<char>, w: int)
    requires
        0 <= w < ps.len(),
        ps[w].id@ == id,
    ensures
        exists|k: int| 0 <= k < ps.len() && #[trigger] ps[k].id@ == id && forall|j: int| 0 <= j < k ==> #[trigger] ps[j].id@ != id,
    decreases w,
{
    if exists|j: int| 0 <= j < w && #[trigger] ps[j].id@ == id {
        let j = choose|j: int| 0 <= j < w && #[trigger] ps[j].id@ == id;
        lemma_first_exists(ps, id, j);
    } else {
        assert(forall|j: int| 0 <= j < w ==> #[trigger] ps[j].id@ != id);
    }
}

/// Filtering by ignore patterns neither loses nor duplicates findings: the kept
/// and the ignored findings together are exactly as many as the findings, no
/// pattern matches a kept finding, each ignored finding carries the pattern
/// that matches it, and framework and npm-dependency findings, which have no
/// path, are always kept.
pub proof fn law_filtering_conserves_findings(
    findings: Seq<Finding>,
    kept: Seq<Finding>,
    ignored: Seq<IgnoredFinding>,
    s: IgnoreSet,
    infos: Seq<PatternInfo>,
)
    requires
        split_by_patterns(findings, kept, ignored, s, infos),
    ensures
        kept.len() + ignored.len() == findings.len(),
        forall|i: int| 0 <= i < kept.len() ==> ignoring_pattern(#[trigger] kept[i], s, infos) is None,
        forall|i: int|
            0 <= i < ignored.len() ==> ignoring_pattern((#[trigger] ignored[i]).finding, s, infos) == Some(
                ignored[i].matched_pattern,
            ),
        forall|i: int|
            0 <= i < ignored.len() ==> !((#[trigger] ignored[i]).finding is Framework) && !(
            ignored[i].finding is UnusedNpmDependency),
    decreases findings.len(),
{
    if findings.len() > 0 {
        let f = findings.last();
        match ignoring_pattern(f, s, infos) {
            Some(m) => {
                law_filtering_conserves_findings(findings.drop_last(), kept, ignored.drop_last(), s, infos);
                assert forall|i: int| 0 <= i < ignored.len() implies ignoring_pattern(
                    (#[trigger] ignored[i]).finding,
                    s,
                    infos,
                ) == Some(ignored[i].matched_pattern) by {
                    if i < ignored.len() - 1 {
                        assert(ignored[i] == ignored.drop_last()[i]);
                    }
                }
            },
            None => {
                law_filtering_conserves_findings(findings.drop_last(), kept.drop_last(), ignored, s, infos);
                assert forall|i: int| 0 <= i < kept.len() implies ignoring_pattern(#[trigger] kept[i], s, infos) is None by {
                    if i < kept.len() - 1 {
                        assert(kept[i] == kept.drop_last()[i]);
                    }
                }
            },
        }
    }
}

/// Without the defaults, the built set holds exactly the user patterns, in the
/// order they were added.
pub proof fn law_no_defaults_keeps_user_patterns(b: IgnorePatternBuilder)
    requires
        !b.uses_defaults(),
    ensures
        b.effective_patterns() == b.user_patterns(),
{
}

/// The counts of the ignore breakdown never exceed the number of ignored
/// findings.
pub proof fn law_breakdown_within_ignored(ignored: Seq<IgnoredFinding>)
    ensures
        breakdown_total(breakdown_of(ignored)) <= ignored.len(),
    decreases ignored.len(),
{
    if ignored.len() > 0 {
        law_breakdown_within_ignored(ignored.drop_last());
    }
}

/// The counts of code smells by severity add up to the number of code smells.
pub proof fn law_severity_counts_add_up(fs: Seq<Finding>)
    ensures
        severity_count(fs, SmellSeverity::Info) + severity_count(fs, SmellSeverity::Warning) + severity_count(
            fs,
            SmellSeverity::Error,
        ) == count_where(fs, |f: Finding| f is CodeSmell),
    decreases fs.len(),
{
    if fs.len() > 0 {
        law_severity_counts_add_up(fs.drop_last());
        assert(smell_severity_of(fs.last()) is Some <==> fs.last() is CodeSmell);
    }
}

/// Looking a backend up by name ignores ASCII case: two names that differ only
/// in the case of ASCII letters find the same backend.
pub proof fn law_name_lookup_ignores_case(backends: Seq<BackendInfo>, a: Seq<char>, b: Seq<char>)
    requires
        same_ignoring_ascii_case(a, b),
    ensures
        first_where(backends, |x: BackendInfo| same_ignoring_ascii_case(x.name@, a)) == first_where(
            backends,
            |x: BackendInfo| same_ignoring_ascii_case(x.name@, b),
        ),
{
    let pa = |x: BackendInfo| same_ignoring_ascii_case(x.name@, a);
    let pb = |x: BackendInfo| same_ignoring_ascii_case(x.name@, b);
    assert forall|x: BackendInfo| #[trigger] pa(x) == pb(x) by {
        if pa(x) {
            assert forall|i: int| 0 <= i < x.name@.len() implies crate::backends::ascii_lower_code(
                #[trigger] x.name@[i],
            ) == crate::backends::ascii_lower_code(b[i]) by {
                assert(crate::backends::ascii_lower_code(a[i]) == crate::backends::ascii_lower_code(b[i]));
            }
        }
        if pb(x) {
            assert forall|i: int| 0 <= i < x.name@.len() implies crate::backends::ascii_lower_code(
                #[trigger] x.name@[i],
            ) == crate::backends::ascii_lower_code(a[i]) by {
                assert(crate::backends::ascii_lower_code(a[i]) == crate::backends::ascii_lower_code(b[i]));
            }
        }
    }
    assert(pa =~= pb);
}

/// Some glob of the set numbered at most `k` is the lowest-numbered one that
/// matches the path.
proof fn lemma_lowest_match(s: IgnoreSet, path: Seq<char>, k: int)
    requires
        0 <= k < s.patterns().len(),
        glob_matches(s.patterns()[k], path),
    ensures
        exists|j: int| first_matching(s, path, j),
    decreases k,
{
    if exists|j: int| 0 <= j < k && glob_matches(#[trigger] s.patterns()[j], path) {
        let j = choose|j: int| 0 <= j < k && glob_matches(#[trigger] s.patterns()[j], path);
        lemma_lowest_match(s, path, j);
    } else {
        assert(first_matching(s, path, k));
    }
}

/// With the pattern metadata built alongside the glob set, a path is reported
/// with a pattern exactly when the set matches it (when `should_ignore` holds),
/// and the pattern reported matches the path.
pub proof fn law_reported_pattern_matches(s: IgnoreSet, infos: Seq<PatternInfo>, path: Seq<char>)
    requires
        infos.len() == s.patterns().len(),
        forall|i: int| 0 <= i < infos.len() ==> (#[trigger] infos[i]).pattern@ == s.patterns()[i],
    ensures
        matched_pattern(s, infos, path) is Some <==> exists|k: int|
            0 <= k < s.patterns().len() && glob_matches(#[trigger] s.patterns()[k], path),
        matched_pattern(s, infos, path) matches Some(m) ==> glob_matches(m@, path),
{
    if exists|k: int| 0 <= k < s.patterns().len() && glob_matches(#[trigger] s.patterns()[k], path) {
        let k = choose|k: int| 0 <= k < s.patterns().len() && glob_matches(#[trigger] s.patterns()[k], path);
        lemma_lowest_match(s, path, k);
        let j = choose|j: int| first_matching(s, path, j);
        assert(first_matching(s, path, j) && j < infos.len());
    }
    if matched_pattern(s, infos, path) is Some {
        let j = choose|j: int| first_matching(s, path, j) && j < infos.len();
        assert(infos[j].pattern@ == s.patterns()[j]);
    }
}

/// A module is listed in at most one place over all reported cycles: two
/// places that name it are the same place.
proof fn lemma_listed_once(g: Seq<(String, Vec<String>)>, cs: Seq<CircularDependency>, m: Seq<char>, k1: int, k2: int)
    requires
        reports_cycles(g, cs),
        0 <= k1 < cs.len(),
        0 <= k2 < cs.len(),
        has_name(cs[k1].cycle@, m),
        has_name(cs[k2].cycle@, m),
    ensures
        k1 == k2,
{
    let j1 = choose|x: int| 0 <= x < cs[k1].cycle@.len() && #[trigger] cs[k1].cycle@[x]@ == m;
    let j2 = choose|x: int| 0 <= x < cs[k2].cycle@.len() && #[trigger] cs[k2].cycle@[x]@ == m;
    if k1 != k2 {
        assert(cs[k1].cycle@[j1]@ != cs[k2].cycle@[j2]@);
    }
}

/// A module listed with `a` in a cycle of one report is listed with `a` in
/// the cycle of the other report that holds `a`.
proof fn lemma_member_carries_over(
    g: Seq<(String, Vec<String>)>,
    c1: Seq<CircularDependency>,
    c2: Seq<CircularDependency>,
    k1: int,
    k2: int,
    a: Seq<char>,
    m: Seq<char>,
)
    requires
        reports_cycles(g, c1),
        reports_cycles(g, c2),
        0 <= k1 < c1.len(),
        0 <= k2 < c2.len(),
        has_name(c1[k1].cycle@, a),
        has_name(c2[k2].cycle@, a),
        has_name(c1[k1].cycle@, m),
    ensures
        has_name(c2[k2].cycle@, m),
{
    if m != a {
        let ja = choose|x: int| 0 <= x < c1[k1].cycle@.len() && #[trigger] c1[k1].cycle@[x]@ == a;
        let jm = choose|x: int| 0 <= x < c1[k1].cycle@.len() && #[trigger] c1[k1].cycle@[x]@ == m;
        assert(imports_transitively(g, c1[k1].cycle@[ja]@, c1[k1].cycle@[jm]@));
        assert(imports_transitively(g, c1[k1].cycle@[jm]@, c1[k1].cycle@[ja]@));
        assert(is_module(g, c1[k1].cycle@[ja]@));
        assert(is_module(g, c1[k1].cycle@[jm]@));
        let k = choose|k: int| 0 <= k < c2.len() && #[trigger] has_name(c2[k].cycle@, a) && has_name(c2[k].cycle@, m);
        lemma_listed_once(g, c2, a, k, k2);
    }
}

/// Two reports of the cycles of one graph agree up to order: each cycle of the
/// one lists the same modules as some cycle of the other. Since the detector
/// reports exactly the cycles of its graph, two calls on one graph find the
/// same cycles.
pub proof fn law_cycle_reports_agree(g: Seq<(String, Vec<String>)>, c1: Seq<CircularDependency>, c2: Seq<CircularDependency>, k1: int)
    requires
        reports_cycles(g, c1),
        reports_cycles(g, c2),
        0 <= k1 < c1.len(),
    ensures
        exists|k2: int|
            0 <= k2 < c2.len() && forall|m: Seq<char>|
                #[trigger] has_name(c1[k1].cycle@, m) == has_name(#[trigger] c2[k2].cycle@, m),
{
    let cyc = c1[k1].cycle@;
    assert(cyc.len() >= 2);
    let a = cyc[0]@;
    let b = cyc[1]@;
    assert(a != b);
    assert(imports_transitively(g, cyc[0]@, cyc[1]@));
    assert(imports_transitively(g, cyc[1]@, cyc[0]@));
    assert(is_module(g, cyc[0]@));
    assert(is_module(g, cyc[1]@));
    let k2 = choose|k: int| 0 <= k < c2.len() && #[trigger] has_name(c2[k].cycle@, a) && has_name(c2[k].cycle@, b);
    assert(has_name(cyc, a));
    assert forall|m: Seq<char>| #[trigger] has_name(c1[k1].cycle@, m) == has_name(c2[k2].cycle@, m) by {
        if has_name(c1[k1].cycle@, m) {
            lemma_member_carries_over(g, c1, c2, k1, k2, a, m);
        }
        if has_name(c2[k2].cycle@, m) {
            lemma_member_carries_over(g, c2, c1, k2, k1, a, m);
        }
    }
}

} // verus!
