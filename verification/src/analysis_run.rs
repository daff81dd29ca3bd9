//! The decisions of an analysis run on the command line: which categories
//! run, which backend options they switch on, how ignore patterns and the
//! category selection filter the findings, and how the result is shown.
use vstd::prelude::*;
use crate::category_kind::Category;
use crate::category_validation::CategoryValidation;
use crate::filtering::{
    breakdown_of, calculate_ignore_statistics, count_where, filter_findings_with_tracking, recalculate_statistics,
    split_by_patterns,
};
use crate::findings::{finding_category, AnalysisResult, Finding, Statistics};
use crate::ignore::{glob_accepts, texts, IgnoreError, IgnorePatternBuilder, IgnoreSet, PatternInfo};
use crate::text::to_owned_string;

verus! {

broadcast use vstd::seq_lib::group_seq_properties;

/// Output format for results.
#[derive(Debug, Clone, Copy, PartialEq, Eq, Structural)]
pub enum OutputFormat {
    Human,
    Json,
}

/// Options for running analysis.
#[derive(Debug, Clone)]
pub struct AnalysisRunOptions {
    pub paths: Vec<String>,
    pub categories: Vec<Category>,
    pub list_categories: bool,
    pub force_package_mode: bool,
    pub yes: bool,
    pub config: Option<String>,
    pub follow_external: bool,
    pub max_depth: Option<usize>,
    pub no_ignore: bool,
    pub no_gitignore: bool,
    pub ignore_patterns: Vec<String>,
    pub verbose: u8,
    pub json: bool,
    pub format: OutputFormat,
}

/// `--json` stands for `--output json`; otherwise the chosen format holds.
pub fn output_format(json: bool, format: OutputFormat) -> (r: OutputFormat)
    ensures
        r == if json {
            OutputFormat::Json
        } else {
            format
        },
{
    if json {
        OutputFormat::Json
    } else {
        format
    }
}

/// What to do about the categories after validation.
#[derive(Debug, Clone)]
pub enum CategoryPlan {
    /// Run these categories; `announce_defaults` says to list them as the
    /// defaults first.
    Run { categories: Vec<Category>, announce_defaults: bool },
    /// Warn that some categories are unavailable and ask whether to run the
    /// available ones.
    Confirm { available: Vec<Category>, unavailable: Vec<Category> },
    /// Report that none of the requested categories is available and stop.
    Stop { requested: Vec<Category>, unavailable: Vec<Category> },
}

/// Settles the categories to run: the defaults (announced unless `yes`), all
/// requested ones, the available ones (after a confirmation unless `yes`), or
/// none when nothing requested is available.
pub fn plan_categories(validation: CategoryValidation, yes: bool) -> (r: CategoryPlan)
    ensures
        match validation {
            CategoryValidation::UseDefaults { categories } => r matches CategoryPlan::Run {
                categories: c,
                announce_defaults: a,
            } && c@ == categories@ && a == !yes,
            CategoryValidation::AllAvailable { categories } => r matches CategoryPlan::Run {
                categories: c,
                announce_defaults: a,
            } && c@ == categories@ && !a,
            CategoryValidation::PartiallyAvailable { available, unavailable } => if yes {
                r matches CategoryPlan::Run { categories: c, announce_defaults: a } && c@ == available@ && !a
            } else {
                r matches CategoryPlan::Confirm { available: av, unavailable: un } && av@ == available@ && un@
                    == unavailable@
            },
            CategoryValidation::NoneAvailable { requested, unavailable } => r matches CategoryPlan::Stop {
                requested: q,
                unavailable: un,
            } && q@ == requested@ && un@ == unavailable@,
        },
{
    match validation {
        CategoryValidation::UseDefaults { categories } => CategoryPlan::Run { categories, announce_defaults: !yes },
        CategoryValidation::AllAvailable { categories } => CategoryPlan::Run { categories, announce_defaults: false },
        CategoryValidation::PartiallyAvailable { available, unavailable } => if yes {
            CategoryPlan::Run { categories: available, announce_defaults: false }
        } else {
            CategoryPlan::Confirm { available, unavailable }
        },
        CategoryValidation::NoneAvailable { requested, unavailable } => CategoryPlan::Stop { requested, unavailable },
    }
}

/// Whether a category is among the selected ones.
pub fn selects(categories: &Vec<Category>, c: Category) -> (r: bool)
    ensures
        r == categories@.contains(c),
{
    let mut i: usize = 0;
    while i < categories.len()
        invariant
            i <= categories@.len(),
            forall|j: int| 0 <= j < i ==> categories@[j] != c,
        decreases categories@.len() - i,
    {
        if categories[i] == c {
            return true;
        }
        i = i + 1;
    }
    false
}

/// The backend options the selected categories switch on, in this order:
/// symbols, quality, npm dependencies, import patterns.
pub open spec fn backend_options_for(categories: Seq<Category>) -> Seq<(Seq<char>, Option<bool>)> {
    (if categories.contains(Category::Symbols) {
        seq![("symbols"@, Some(true))]
    } else {
        Seq::empty()
    }) + (if categories.contains(Category::Quality) {
        seq![("quality"@, Some(true))]
    } else {
        Seq::empty()
    }) + (if categories.contains(Category::Dependencies) {
        seq![("detect_npm_dependencies"@, Some(true))]
    } else {
        Seq::empty()
    }) + (if categories.contains(Category::Imports) {
        seq![("detect_import_patterns"@, Some(true))]
    } else {
        Seq::empty()
    })
}

/// The view of a list of backend options.
pub open spec fn option_texts(options: Seq<(String, Option<bool>)>) -> Seq<(Seq<char>, Option<bool>)> {
    options.map_values(|o: (String, Option<bool>)| (o.0@, o.1))
}

/// The backend options for the selected categories (the analyses of the
/// other categories always run).
pub fn backend_options(categories: &Vec<Category>) -> (r: Vec<(String, Option<bool>)>)
    ensures
        option_texts(r@) == backend_options_for(categories@),
{
    let mut r: Vec<(String, Option<bool>)> = Vec::new();
    let ghost c = categories@;
    if selects(categories, Category::Symbols) {
        r.push((to_owned_string("symbols"), Some(true)));
    }
    let ghost a = option_texts(r@);
    if selects(categories, Category::Quality) {
        r.push((to_owned_string("quality"), Some(true)));
    }
    let ghost b = option_texts(r@);
    if selects(categories, Category::Dependencies) {
        r.push((to_owned_string("detect_npm_dependencies"), Some(true)));
    }
    let ghost d = option_texts(r@);
    if selects(categories, Category::Imports) {
        r.push((to_owned_string("detect_import_patterns"), Some(true)));
    }
    proof {
        let sa = if c.contains(Category::Symbols) { seq![("symbols"@, Some(true))] } else { Seq::empty() };
        let sb = if c.contains(Category::Quality) { seq![("quality"@, Some(true))] } else { Seq::empty() };
        let sd = if c.contains(Category::Dependencies) { seq![("detect_npm_dependencies"@, Some(true))] } else { Seq::empty() };
        let si = if c.contains(Category::Imports) { seq![("detect_import_patterns"@, Some(true))] } else { Seq::empty() };
        assert(a =~= sa);
        assert(b =~= sa + sb);
        assert(d =~= sa + sb + sd);
        assert(option_texts(r@) =~= sa + sb + sd + si);
    }
    r
}

/// Drops the findings outside the selected categories, keeping the order.
pub fn retain_categories(findings: Vec<Finding>, categories: &Vec<Category>) -> (r: Vec<Finding>)
    ensures
        r@ == findings@.filter(|f: Finding| categories@.contains(finding_category(f))),
{
    let ghost fs = findings@;
    let mut out: Vec<Finding> = Vec::new();
    for f in it: findings
        invariant
            fs == it.seq(),
            out@ == fs.take(it.index() as int).filter(|f: Finding| categories@.contains(finding_category(f))),
    {
        proof {
            assert(fs.take(it.index() + 1).drop_last() =~= fs.take(it.index() as int));
            reveal_with_fuel(Seq::filter, 1);
        }
        let c = f.category();
        if selects(categories, c) {
            out.push(f);
        }
    }
    assert(fs.take(fs.len() as int) =~= fs);
    out
}

/// Applies the ignore patterns to the result: the findings they match move
/// to the ignored findings (with the pattern and path that matched), the
/// ignored count and its breakdown are recorded, and the unused export,
/// unreachable module and framework export counts are recounted from the
/// findings that remain.
pub fn apply_ignore_patterns(result: &mut AnalysisResult, ignore_set: &IgnoreSet, pattern_infos: &Vec<PatternInfo>)
    ensures
        split_by_patterns(old(result).findings@, final(result).findings@, final(result).ignored_findings@, *ignore_set, pattern_infos@),
        final(result).errors == old(result).errors,
        final(result).statistics == (Statistics {
            ignored_findings_count: final(result).ignored_findings@.len() as usize,
            ignored_findings_breakdown: Some(breakdown_of(final(result).ignored_findings@)),
            unused_exports_count: count_where(final(result).findings@, |f: Finding| f is UnusedExport) as usize,
            unreachable_modules_count: count_where(final(result).findings@, |f: Finding| f is UnreachableModule) as usize,
            framework_exports_count: count_where(final(result).findings@, |f: Finding| f is FrameworkExport) as usize,
            ..old(result).statistics
        }),
{
    let mut findings: Vec<Finding> = Vec::new();
    std::mem::swap(&mut findings, &mut result.findings);
    let split = filter_findings_with_tracking(findings, ignore_set, pattern_infos);
    result.findings = split.kept;
    result.ignored_findings = split.ignored;
    let breakdown = calculate_ignore_statistics(&result.ignored_findings);
    result.statistics.ignored_findings_count = result.ignored_findings.len();
    result.statistics.ignored_findings_breakdown = Some(breakdown);
    recalculate_statistics(result);
}

/// An analysis that reported errors ends the run with a failure status.
pub fn failed(result: &AnalysisResult) -> (r: bool)
    ensures
        r == (result.errors@.len() > 0),
{
    result.errors.len() > 0
}

/// The non-empty patterns, in order.
pub open spec fn nonempty_patterns(ps: Seq<Seq<char>>) -> Seq<Seq<char>> {
    ps.filter(|p: Seq<char>| p.len() > 0)
}

/// The texts of the patterns read, if any were.
pub open spec fn pattern_texts(patterns: Option<Vec<String>>) -> Option<Seq<Seq<char>>> {
    match patterns {
        Some(g) => Some(texts(g@)),
        None => None,
    }
}

/// The patterns an analysis run adds after the defaults: those given with
/// `--ignore`, then the non-empty ones read from .gitignore files.
pub open spec fn run_patterns(user_patterns: Seq<Seq<char>>, gitignore_patterns: Option<Seq<Seq<char>>>) -> Seq<Seq<char>> {
    user_patterns + match gitignore_patterns {
        Some(g) => nonempty_patterns(g),
        None => Seq::empty(),
    }
}

/// The ignore patterns of an analysis run. With `--no-ignore` there are none,
/// not even the defaults. Otherwise the defaults are used, then the patterns
/// given with `--ignore`, then the non-empty patterns of the .gitignore files
/// (`gitignore_patterns` is `None` when they were not read). The run fails on
/// the first pattern that is not a valid glob, saying whether it came from a
/// .gitignore file.
pub fn ignore_builder_for(no_ignore: bool, user_patterns: &Vec<String>, gitignore_patterns: Option<Vec<String>>) -> (r: Result<IgnorePatternBuilder, (IgnoreError, bool)>)
    ensures
        no_ignore ==> (r matches Ok(b) && !b.uses_defaults() && b.user_patterns() == Seq::<Seq<char>>::empty()),
        !no_ignore ==> match r {
            Ok(b) => b.uses_defaults() && b.user_patterns() == run_patterns(texts(user_patterns@), pattern_texts(gitignore_patterns)),
            Err((e, from_gitignore)) => e is InvalidPattern && if from_gitignore {
                (forall|i: int| 0 <= i < user_patterns@.len() ==> glob_accepts(#[trigger] user_patterns@[i]@))
                    && gitignore_patterns is Some && exists|p: Seq<char>| nonempty_patterns(texts(gitignore_patterns.unwrap()@)).contains(p) && !glob_accepts(p)
            } else {
                exists|i: int| 0 <= i < user_patterns@.len() && !glob_accepts(#[trigger] user_patterns@[i]@)
            },
        },
        !no_ignore ==> (r is Ok <==> forall|p: Seq<char>| #[trigger] run_patterns(texts(user_patterns@), pattern_texts(gitignore_patterns)).contains(p) ==> glob_accepts(p)),
{
    if no_ignore {
        return Ok(IgnorePatternBuilder::new().no_defaults());
    }
    let ghost us = texts(user_patterns@);
    let ghost gs = pattern_texts(gitignore_patterns);
    let mut builder = IgnorePatternBuilder::new();
    if user_patterns.len() > 0 {
        builder = match builder.add_patterns(user_patterns) {
            Ok(b) => b,
            Err(e) => {
                proof {
                    let i = choose|i: int| 0 <= i < user_patterns@.len() && !glob_accepts(#[trigger] user_patterns@[i]@);
                    assert(run_patterns(us, gs)[i] == user_patterns@[i]@);
                    assert(run_patterns(us, gs).contains(user_patterns@[i]@));
                }
                return Err((e, false));
            },
        };
    } else {
        assert(us =~= Seq::<Seq<char>>::empty());
    }
    assert(builder.user_patterns() == us);
    assert forall|p: Seq<char>| us.contains(p) implies glob_accepts(p) by {
        let i = choose|i: int| 0 <= i < us.len() && us[i] == p;
        assert(glob_accepts(user_patterns@[i]@));
    }
    match gitignore_patterns {
        None => {
            assert(run_patterns(us, gs) =~= us);
            Ok(builder)
        },
        Some(g) => {
            let mut kept: Vec<String> = Vec::new();
            let mut i: usize = 0;
            while i < g.len()
                invariant
                    i <= g@.len(),
                    texts(kept@) == nonempty_patterns(texts(g@).take(i as int)),
                decreases g@.len() - i,
            {
                proof {
                    let t = texts(g@);
                    assert(t.take(i + 1).drop_last() =~= t.take(i as int));
                    assert(t.take(i + 1).last() == g@[i as int]@);
                    reveal_with_fuel(Seq::filter, 1);
                }
                if crate::text::chars_of(g[i].as_str()).len() > 0 {
                    let ghost before = texts(kept@);
                    kept.push(g[i].clone());
                    assert(texts(kept@) =~= before.push(g@[i as int]@));
                }
                i = i + 1;
            }
            assert(texts(g@).take(g@.len() as int) =~= texts(g@));
            if kept.len() == 0 {
                assert(run_patterns(us, gs) =~= us);
                return Ok(builder);
            }
            match builder.add_patterns(&kept) {
                Ok(b) => {
                    proof {
                        assert(run_patterns(us, gs) =~= us + texts(kept@));
                        assert forall|p: Seq<char>| #[trigger] run_patterns(us, gs).contains(p) implies glob_accepts(p) by {
                            let k = choose|k: int| 0 <= k < run_patterns(us, gs).len() && run_patterns(us, gs)[k] == p;
                            if k < us.len() {
                                assert(us.contains(p));
                            } else {
                                assert(glob_accepts(kept@[k - us.len()]@));
                            }
                        }
                    }
                    Ok(b)
                },
                Err(e) => {
                    proof {
                        let j = choose|j: int| 0 <= j < kept@.len() && !glob_accepts(#[trigger] kept@[j]@);
                        assert(texts(kept@)[j] == kept@[j]@);
                        assert(nonempty_patterns(texts(g@)).contains(kept@[j]@));
                        assert(run_patterns(us, gs) =~= us + texts(kept@));
                        assert(run_patterns(us, gs)[us.len() + j] == kept@[j]@);
                        assert(run_patterns(us, gs).contains(kept@[j]@));
                    }
                    Err((e, true))
                },
            }
        },
    }
}

} // verus!
