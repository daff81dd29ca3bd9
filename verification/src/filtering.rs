//! Filtering of findings by ignore patterns, and the statistics that depend
//! on which findings were kept or ignored.
use vstd::prelude::*;
use crate::findings::{AnalysisResult, Finding, IgnoredFinding, IgnoredFindingsBreakdown, Statistics};
use crate::ignore::{match_with_pattern, matched_pattern, IgnoreSet, PatternInfo};

verus! {

/// The path an ignore pattern is checked against: the finding's module or
/// file, the first module of a cycle or chain, and none for frameworks and
/// npm dependencies.
pub open spec fn finding_path(f: Finding) -> Option<String> {
    match f {
        Finding::Module { path, .. } => Some(path),
        Finding::Dependency { from, .. } => Some(from),
        Finding::Pattern { location, .. } => Some(location),
        Finding::Framework { .. } => None,
        Finding::UnusedExport { module, .. } => Some(module),
        Finding::UnreachableModule { path, .. } => Some(path),
        Finding::UnreachableFile { path, .. } => Some(path),
        Finding::UnusedSymbol { module, .. } => Some(module),
        Finding::FrameworkExport { module, .. } => Some(module),
        Finding::DynamicImport(info) => Some(info.from),
        Finding::CircularDependency(circ) => if circ.cycle@.len() > 0 {
            Some(circ.cycle@[0])
        } else {
            None
        },
        Finding::UnusedPrivateClassMember { module, .. } => Some(module),
        Finding::UnusedPublicClassMember { module, .. } => Some(module),
        Finding::UnusedEnumMember { module, .. } => Some(module),
        Finding::UnusedNpmDependency { .. } => None,
        Finding::SideEffectOnlyImport { module, .. } => Some(module),
        Finding::NamespaceImport { module, .. } => Some(module),
        Finding::TypeOnlyImport { module, .. } => Some(module),
        Finding::DeadCodeModule { path, .. } => Some(path),
        Finding::DependencyChain { chain, .. } => if chain@.len() > 0 {
            Some(chain@[0])
        } else {
            None
        },
        Finding::CodeSmell { location, .. } => Some(location),
    }
}

/// The path of a finding that ignore patterns are checked against.
pub fn path_to_check(f: &Finding) -> (r: Option<String>)
    ensures
        r == finding_path(*f),
{
    match f {
        Finding::Module { path, .. } => Some(path.clone()),
        Finding::Dependency { from, .. } => Some(from.clone()),
        Finding::Pattern { location, .. } => Some(location.clone()),
        Finding::Framework { .. } => None,
        Finding::UnusedExport { module, .. } => Some(module.clone()),
        Finding::UnreachableModule { path, .. } => Some(path.clone()),
        Finding::UnreachableFile { path, .. } => Some(path.clone()),
        Finding::UnusedSymbol { module, .. } => Some(module.clone()),
        Finding::FrameworkExport { module, .. } => Some(module.clone()),
        Finding::DynamicImport(info) => Some(info.from.clone()),
        Finding::CircularDependency(circ) => if circ.cycle.len() > 0 {
            Some(circ.cycle[0].clone())
        } else {
            None
        },
        Finding::UnusedPrivateClassMember { module, .. } => Some(module.clone()),
        Finding::UnusedPublicClassMember { module, .. } => Some(module.clone()),
        Finding::UnusedEnumMember { module, .. } => Some(module.clone()),
        Finding::UnusedNpmDependency { .. } => None,
        Finding::SideEffectOnlyImport { module, .. } => Some(module.clone()),
        Finding::NamespaceImport { module, .. } => Some(module.clone()),
        Finding::TypeOnlyImport { module, .. } => Some(module.clone()),
        Finding::DeadCodeModule { path, .. } => Some(path.clone()),
        Finding::DependencyChain { chain, .. } => if chain.len() > 0 {
            Some(chain[0].clone())
        } else {
            None
        },
        Finding::CodeSmell { location, .. } => Some(location.clone()),
    }
}

/// Result of filtering findings.
#[derive(Debug)]
pub struct FilterResult {
    /// Findings that passed the filter.
    pub kept: Vec<Finding>,
    /// Findings that were filtered out, with the pattern and path that matched.
    pub ignored: Vec<IgnoredFinding>,
}

/// The pattern that ignores a finding, if any: the matched pattern of its path.
pub open spec fn ignoring_pattern(f: Finding, s: IgnoreSet, infos: Seq<PatternInfo>) -> Option<String> {
    match finding_path(f) {
        Some(p) => matched_pattern(s, infos, p@),
        None => None,
    }
}

/// `kept` and `ignored` split `findings` in order: a finding whose path an
/// ignore pattern matches is ignored, with that pattern and path; every other
/// finding is kept.
pub open spec fn split_by_patterns(
    findings: Seq<Finding>,
    kept: Seq<Finding>,
    ignored: Seq<IgnoredFinding>,
    s: IgnoreSet,
    infos: Seq<PatternInfo>,
) -> bool
    decreases findings.len(),
{
    if findings.len() == 0 {
        kept.len() == 0 && ignored.len() == 0
    } else {
        let f = findings.last();
        match ignoring_pattern(f, s, infos) {
            Some(m) => {
                &&& ignored.len() > 0
                &&& ignored.last() == (IgnoredFinding {
                    finding: f,
                    matched_pattern: m,
                    matched_path: finding_path(f).unwrap(),
                })
                &&& split_by_patterns(findings.drop_last(), kept, ignored.drop_last(), s, infos)
            },
            None => {
                &&& kept.len() > 0
                &&& kept.last() == f
                &&& split_by_patterns(findings.drop_last(), kept.drop_last(), ignored, s, infos)
            },
        }
    }
}

/// Filters findings by the ignore patterns and records what was ignored.
pub fn filter_findings_with_tracking(
    findings: Vec<Finding>,
    ignore_set: &IgnoreSet,
    pattern_infos: &Vec<PatternInfo>,
) -> (r: FilterResult)
    ensures
        split_by_patterns(findings@, r.kept@, r.ignored@, *ignore_set, pattern_infos@),
{
    let ghost input = findings@;
    let mut kept: Vec<Finding> = Vec::new();
    let mut ignored: Vec<IgnoredFinding> = Vec::new();
    for finding in it: findings
        invariant
            input == it.seq(),
            split_by_patterns(input.take(it.index() as int), kept@, ignored@, *ignore_set, pattern_infos@),
    {
        let ghost k = it.index() as int;
        proof {
            assert(input.take(k + 1).drop_last() =~= input.take(k));
            assert(input.take(k + 1).last() == input[k]);
        }
        let ghost kept0 = kept@;
        let ghost ignored0 = ignored@;
        match path_to_check(&finding) {
            Some(path) => {
                match match_with_pattern(path.as_str(), ignore_set, pattern_infos) {
                    Some(matched) => {
                        ignored.push(IgnoredFinding { finding, matched_pattern: matched, matched_path: path });
                        proof {
                            assert(ignored@.drop_last() =~= ignored0);
                        }
                    },
                    None => {
                        kept.push(finding);
                        proof {
                            assert(kept@.drop_last() =~= kept0);
                        }
                    },
                }
            },
            None => {
                kept.push(finding);
                proof {
                    assert(kept@.drop_last() =~= kept0);
                }
            },
        }
    }
    proof {
        assert(input.take(input.len() as int) =~= input);
    }
    FilterResult { kept, ignored }
}

/// Counts of ignored findings by type; findings of other types are not counted.
pub open spec fn breakdown_of(ignored: Seq<IgnoredFinding>) -> IgnoredFindingsBreakdown
    decreases ignored.len(),
{
    if ignored.len() == 0 {
        IgnoredFindingsBreakdown {
            unused_exports: 0,
            unreachable_modules: 0,
            unreachable_files: 0,
            unused_symbols: 0,
            framework_exports: 0,
            modules: 0,
            dependencies: 0,
            patterns: 0,
        }
    } else {
        let b = breakdown_of(ignored.drop_last());
        match ignored.last().finding {
            Finding::UnusedExport { .. } => IgnoredFindingsBreakdown { unused_exports: (b.unused_exports + 1) as usize, ..b },
            Finding::UnreachableModule { .. } => IgnoredFindingsBreakdown { unreachable_modules: (b.unreachable_modules + 1) as usize, ..b },
            Finding::UnreachableFile { .. } => IgnoredFindingsBreakdown { unreachable_files: (b.unreachable_files + 1) as usize, ..b },
            Finding::UnusedSymbol { .. } => IgnoredFindingsBreakdown { unused_symbols: (b.unused_symbols + 1) as usize, ..b },
            Finding::FrameworkExport { .. } => IgnoredFindingsBreakdown { framework_exports: (b.framework_exports + 1) as usize, ..b },
            Finding::Module { .. } => IgnoredFindingsBreakdown { modules: (b.modules + 1) as usize, ..b },
            Finding::Dependency { .. } => IgnoredFindingsBreakdown { dependencies: (b.dependencies + 1) as usize, ..b },
            Finding::Pattern { .. } => IgnoredFindingsBreakdown { patterns: (b.patterns + 1) as usize, ..b },
            _ => b,
        }
    }
}

/// The sum of the counts of a breakdown.
pub open spec fn breakdown_total(b: IgnoredFindingsBreakdown) -> int {
    b.unused_exports + b.unreachable_modules + b.unreachable_files + b.unused_symbols
        + b.framework_exports + b.modules + b.dependencies + b.patterns
}

proof fn lemma_breakdown_total(ignored: Seq<IgnoredFinding>)
    ensures
        breakdown_total(breakdown_of(ignored)) <= ignored.len(),
    decreases ignored.len(),
{
    if ignored.len() > 0 {
        lemma_breakdown_total(ignored.drop_last());
    }
}

/// Counts the ignored findings of each type.
pub fn calculate_ignore_statistics(ignored: &Vec<IgnoredFinding>) -> (r: IgnoredFindingsBreakdown)
    ensures
        r == breakdown_of(ignored@),
{
    let mut b = IgnoredFindingsBreakdown {
        unused_exports: 0,
        unreachable_modules: 0,
        unreachable_files: 0,
        unused_symbols: 0,
        framework_exports: 0,
        modules: 0,
        dependencies: 0,
        patterns: 0,
    };
    let mut i: usize = 0;
    while i < ignored.len()
        invariant
            i <= ignored@.len(),
            b == breakdown_of(ignored@.take(i as int)),
        decreases ignored@.len() - i,
    {
        proof {
            assert(ignored@.take(i + 1).drop_last() =~= ignored@.take(i as int));
            lemma_breakdown_total(ignored@.take(i as int));
        }
        match ignored[i].finding {
            Finding::UnusedExport { .. } => b.unused_exports = b.unused_exports + 1,
            Finding::UnreachableModule { .. } => b.unreachable_modules = b.unreachable_modules + 1,
            Finding::UnreachableFile { .. } => b.unreachable_files = b.unreachable_files + 1,
            Finding::UnusedSymbol { .. } => b.unused_symbols = b.unused_symbols + 1,
            Finding::FrameworkExport { .. } => b.framework_exports = b.framework_exports + 1,
            Finding::Module { .. } => b.modules = b.modules + 1,
            Finding::Dependency { .. } => b.dependencies = b.dependencies + 1,
            Finding::Pattern { .. } => b.patterns = b.patterns + 1,
            _ => {},
        }
        i = i + 1;
    }
    proof {
        assert(ignored@.take(ignored@.len() as int) =~= ignored@);
    }
    b
}

/// The number of findings that satisfy `p`.
pub open spec fn count_where(findings: Seq<Finding>, p: spec_fn(Finding) -> bool) -> nat
    decreases findings.len(),
{
    if findings.len() == 0 {
        0
    } else {
        count_where(findings.drop_last(), p) + if p(findings.last()) {
            1nat
        } else {
            0nat
        }
    }
}

pub(crate) proof fn lemma_count_where_bound(findings: Seq<Finding>, p: spec_fn(Finding) -> bool)
    ensures
        count_where(findings, p) <= findings.len(),
    decreases findings.len(),
{
    if findings.len() > 0 {
        lemma_count_where_bound(findings.drop_last(), p);
    }
}

/// Recounts the unused export, unreachable module and framework export
/// statistics from the findings that remain; nothing else changes.
pub fn recalculate_statistics(result: &mut AnalysisResult)
    ensures
        final(result).findings == old(result).findings,
        final(result).errors == old(result).errors,
        final(result).ignored_findings == old(result).ignored_findings,
        final(result).statistics == (Statistics {
            unused_exports_count: count_where(old(result).findings@, |f: Finding| f is UnusedExport) as usize,
            unreachable_modules_count: count_where(old(result).findings@, |f: Finding| f is UnreachableModule) as usize,
            framework_exports_count: count_where(old(result).findings@, |f: Finding| f is FrameworkExport) as usize,
            ..old(result).statistics
        }),
{
    let ghost fs = result.findings@;
    let ghost pe = |f: Finding| f is UnusedExport;
    let ghost pm = |f: Finding| f is UnreachableModule;
    let ghost pf = |f: Finding| f is FrameworkExport;
    let mut unused_exports: usize = 0;
    let mut unreachable_modules: usize = 0;
    let mut framework_exports: usize = 0;
    let mut i: usize = 0;
    while i < result.findings.len()
        invariant
            fs == result.findings@,
            i <= fs.len(),
            unused_exports == count_where(fs.take(i as int), pe),
            unreachable_modules == count_where(fs.take(i as int), pm),
            framework_exports == count_where(fs.take(i as int), pf),
            pe == (|f: Finding| f is UnusedExport),
            pm == (|f: Finding| f is UnreachableModule),
            pf == (|f: Finding| f is FrameworkExport),
        decreases fs.len() - i,
    {
        proof {
            assert(fs.take(i + 1).drop_last() =~= fs.take(i as int));
            lemma_count_where_bound(fs.take(i as int), pe);
            lemma_count_where_bound(fs.take(i as int), pm);
            lemma_count_where_bound(fs.take(i as int), pf);
        }
        match &result.findings[i] {
            Finding::UnusedExport { .. } => unused_exports = unused_exports + 1,
            Finding::UnreachableModule { .. } => unreachable_modules = unreachable_modules + 1,
            Finding::FrameworkExport { .. } => framework_exports = framework_exports + 1,
            _ => {},
        }
        i = i + 1;
    }
    proof {
        assert(fs.take(fs.len() as int) =~= fs);
    }
    result.statistics.unused_exports_count = unused_exports;
    result.statistics.unreachable_modules_count = unreachable_modules;
    result.statistics.framework_exports_count = framework_exports;
}

} // verus!
