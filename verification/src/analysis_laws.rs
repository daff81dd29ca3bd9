//! Properties of the analyses and of the report: what the ignore breakdown
//! counts, which imports the lazy-loading potential sums, how a framework is
//! recognised, how code smells are named, and which threshold each quality
//! check applies.
use vstd::prelude::*;
use crate::analyzers::{lazy_potential, size_of_path};
use crate::config::Framework;
use crate::entry_points::framework_in;
use crate::filtering::{breakdown_of, count_where, lemma_count_where_bound};
use crate::findings::{CodeSmellType, DynamicImportInfo, Finding, IgnoredFinding};
use crate::report::{smell_type_name, smell_type_title};
use crate::paths::is_virtual;
use crate::quality::{
    check_outcome, reports_smell, smells_match, too_many_fields_rule, too_many_methods_rule, violates, MeasuredKind,
    SmellRule, SymbolMetrics,
};
use crate::text::seq_contains_seq;
use crate::toml_config::CodeQualityConfig;

verus! {

/// The findings of a list of ignored findings, in order.
pub open spec fn ignored_findings(ignored: Seq<IgnoredFinding>) -> Seq<Finding> {
    ignored.map_values(|x: IgnoredFinding| x.finding)
}

/// Each count of the ignore breakdown is the number of ignored findings of its
/// own kind: unused exports, unreachable modules, unreachable files, unused
/// symbols, framework exports, modules, dependencies and patterns.
pub proof fn law_breakdown_counts_each_kind(ignored: Seq<IgnoredFinding>)
    requires
        ignored.len() <= usize::MAX,
    ensures
        breakdown_of(ignored).unused_exports == count_where(ignored_findings(ignored), |f: Finding| f is UnusedExport),
        breakdown_of(ignored).unreachable_modules == count_where(
            ignored_findings(ignored),
            |f: Finding| f is UnreachableModule,
        ),
        breakdown_of(ignored).unreachable_files == count_where(ignored_findings(ignored), |f: Finding| f is UnreachableFile),
        breakdown_of(ignored).unused_symbols == count_where(ignored_findings(ignored), |f: Finding| f is UnusedSymbol),
        breakdown_of(ignored).framework_exports == count_where(ignored_findings(ignored), |f: Finding| f is FrameworkExport),
        breakdown_of(ignored).modules == count_where(ignored_findings(ignored), |f: Finding| f is Module),
        breakdown_of(ignored).dependencies == count_where(ignored_findings(ignored), |f: Finding| f is Dependency),
        breakdown_of(ignored).patterns == count_where(ignored_findings(ignored), |f: Finding| f is Pattern),
    decreases ignored.len(),
{
    if ignored.len() > 0 {
        let rest = ignored.drop_last();
        law_breakdown_counts_each_kind(rest);
        let fs = ignored_findings(ignored);
        assert(fs.drop_last() =~= ignored_findings(rest));
        assert(fs.last() == ignored.last().finding);
        lemma_count_where_bound(ignored_findings(rest), |f: Finding| f is UnusedExport);
        lemma_count_where_bound(ignored_findings(rest), |f: Finding| f is UnreachableModule);
        lemma_count_where_bound(ignored_findings(rest), |f: Finding| f is UnreachableFile);
        lemma_count_where_bound(ignored_findings(rest), |f: Finding| f is UnusedSymbol);
        lemma_count_where_bound(ignored_findings(rest), |f: Finding| f is FrameworkExport);
        lemma_count_where_bound(ignored_findings(rest), |f: Finding| f is Module);
        lemma_count_where_bound(ignored_findings(rest), |f: Finding| f is Dependency);
        lemma_count_where_bound(ignored_findings(rest), |f: Finding| f is Pattern);
    }
}

/// An import that creates no chunk adds nothing to the lazy-loading potential.
pub proof fn law_lazy_potential_skips_non_chunks(imports: Seq<DynamicImportInfo>, sizes: Seq<(String, usize)>, i: DynamicImportInfo)
    requires
        !i.creates_chunk,
    ensures
        lazy_potential(imports.push(i), sizes) == lazy_potential(imports, sizes),
{
    assert(imports.push(i).drop_last() =~= imports);
}

/// An import that creates a chunk adds the known size of its target (nothing
/// when the target's size is unknown).
pub proof fn law_lazy_potential_adds_chunk_size(imports: Seq<DynamicImportInfo>, sizes: Seq<(String, usize)>, i: DynamicImportInfo)
    requires
        i.creates_chunk,
    ensures
        lazy_potential(imports.push(i), sizes) == lazy_potential(imports, sizes) + match size_of_path(sizes, i.to@) {
            Some(n) => n as int,
            None => 0,
        },
{
    assert(imports.push(i).drop_last() =~= imports);
}

/// The lazy-loading potential depends on the chunk-creating imports alone: it
/// is the potential of those imports, in order, with the others left out.
pub proof fn law_lazy_potential_of_chunks(imports: Seq<DynamicImportInfo>, sizes: Seq<(String, usize)>)
    ensures
        lazy_potential(imports, sizes) == lazy_potential(imports.filter(|d: DynamicImportInfo| d.creates_chunk), sizes),
    decreases imports.len(),
{
    reveal_with_fuel(Seq::filter, 1);
    if imports.len() > 0 {
        let rest = imports.drop_last();
        law_lazy_potential_of_chunks(rest, sizes);
        assert(imports.filter(|d: DynamicImportInfo| d.creates_chunk) == if imports.last().creates_chunk {
            rest.filter(|d: DynamicImportInfo| d.creates_chunk).push(imports.last())
        } else {
            rest.filter(|d: DynamicImportInfo| d.creates_chunk)
        });
        if imports.last().creates_chunk {
            law_lazy_potential_adds_chunk_size(rest.filter(|d: DynamicImportInfo| d.creates_chunk), sizes, imports.last());
        }
    }
}

/// A package.json whose text names `"next"` is a Next.js project.
pub proof fn law_next_is_detected(content: Seq<char>)
    requires
        seq_contains_seq(content, "\"next\""@),
    ensures
        framework_in(content) == Some(Framework::NextJs),
{
}

/// A package.json whose text names `"vue"` or a `"@vue/` package, and not
/// `"next"`, is a Vue project.
pub proof fn law_vue_is_detected(content: Seq<char>)
    requires
        seq_contains_seq(content, "\"vue\""@) || seq_contains_seq(content, "\"@vue/"@),
        !seq_contains_seq(content, "\"next\""@),
    ensures
        framework_in(content) == Some(Framework::Vue),
{
}

/// A package.json whose text names `"svelte"`, and neither Next.js nor Vue, is
/// a Svelte project.
pub proof fn law_svelte_is_detected(content: Seq<char>)
    requires
        seq_contains_seq(content, "\"svelte\""@),
        !seq_contains_seq(content, "\"next\""@),
        !seq_contains_seq(content, "\"vue\""@),
        !seq_contains_seq(content, "\"@vue/"@),
    ensures
        framework_in(content) == Some(Framework::Svelte),
{
}

/// A package.json whose text names `"react"`, and none of Next.js, Vue and
/// Svelte, is a React project.
pub proof fn law_react_is_detected(content: Seq<char>)
    requires
        seq_contains_seq(content, "\"react\""@),
        !seq_contains_seq(content, "\"next\""@),
        !seq_contains_seq(content, "\"vue\""@),
        !seq_contains_seq(content, "\"@vue/"@),
        !seq_contains_seq(content, "\"svelte\""@),
    ensures
        framework_in(content) == Some(Framework::React),
{
}

/// A package.json whose text names none of the four frameworks has none.
pub proof fn law_no_framework_detected(content: Seq<char>)
    requires
        !seq_contains_seq(content, "\"next\""@),
        !seq_contains_seq(content, "\"vue\""@),
        !seq_contains_seq(content, "\"@vue/"@),
        !seq_contains_seq(content, "\"svelte\""@),
        !seq_contains_seq(content, "\"react\""@),
    ensures
        framework_in(content) is None,
{
}

/// The smell types that the quality section shows under a name of their own
/// (the others are shown as a generic code smell).
pub open spec fn has_own_name(t: CodeSmellType) -> bool {
    !(t is LongFunction || t is TooManyParameters || t is LargeClass)
}

/// The quality section shows distinct smell types that have a name of their
/// own under distinct names, and never under the generic name.
pub proof fn law_smell_names_distinct(t1: CodeSmellType, t2: CodeSmellType)
    requires
        has_own_name(t1),
        has_own_name(t2),
        t1 != t2,
    ensures
        smell_type_name(t1) != smell_type_name(t2),
        smell_type_name(t1) != "Code Smell"@,
{
    reveal_strlit("Magic Number");
    reveal_strlit("Message Chain");
    reveal_strlit("Complex Conditional");
    reveal_strlit("Deep Nesting");
    reveal_strlit("Multiple Returns");
    reveal_strlit("Empty Catch Block");
    reveal_strlit("Duplicated Code");
    reveal_strlit("Long Parameter List");
    reveal_strlit("Too Many Methods");
    reveal_strlit("Too Many Fields");
    reveal_strlit("Low Cohesion");
    reveal_strlit("Code Smell");
    reveal_strlit("Long Function");
    reveal_strlit("Too Many Parameters");
    reveal_strlit("Large Class");
    let a = smell_type_name(t1);
    let b = smell_type_name(t2);
    assert(a.len() != b.len() || a[0] != b[0]);
    assert(a.len() != 10);
}

/// The statistics show distinct smell types under distinct titles.
pub proof fn law_smell_titles_distinct(t1: CodeSmellType, t2: CodeSmellType)
    requires
        t1 != t2,
    ensures
        smell_type_title(t1) != smell_type_title(t2),
{
    reveal_strlit("Magic Number");
    reveal_strlit("Message Chain");
    reveal_strlit("Complex Conditional");
    reveal_strlit("Deep Nesting");
    reveal_strlit("Multiple Returns");
    reveal_strlit("Empty Catch Block");
    reveal_strlit("Duplicated Code");
    reveal_strlit("Long Parameter List");
    reveal_strlit("Too Many Methods");
    reveal_strlit("Too Many Fields");
    reveal_strlit("Low Cohesion");
    reveal_strlit("Code Smell");
    reveal_strlit("Long Function");
    reveal_strlit("Too Many Parameters");
    reveal_strlit("Large Class");
    let a = smell_type_title(t1);
    let b = smell_type_title(t2);
    assert(a.len() != b.len() || a[0] != b[0]);
}

/// `f` is a code smell of type `t` that names `max` as the recommended
/// threshold and a measurement above it.
pub open spec fn smell_over(f: Finding, t: CodeSmellType, max: usize) -> bool {
    match f {
        Finding::CodeSmell { smell_type, details, .. } => smell_type == t && details.recommended_threshold == Some(max)
            && (details.current_value matches Some(v) && v > max),
        _ => false,
    }
}

/// A class in a real (non-virtual) module with more than `max` fields.
pub open spec fn has_too_many_fields(s: SymbolMetrics, max: usize) -> bool {
    &&& s.kind == MeasuredKind::Class
    &&& s.module_location matches Some(p) && !is_virtual(p@)
    &&& s.field_count matches Some(v) && v > max
}

/// A class in a real (non-virtual) module with more than `max` methods.
pub open spec fn has_too_many_methods(s: SymbolMetrics, max: usize) -> bool {
    &&& s.kind == MeasuredKind::Class
    &&& s.module_location matches Some(p) && !is_virtual(p@)
    &&& s.method_count matches Some(v) && v > max
}

/// The number of symbols of which `p` holds.
pub open spec fn symbols_where(symbols: Seq<SymbolMetrics>, p: spec_fn(SymbolMetrics) -> bool) -> nat
    decreases symbols.len(),
{
    if symbols.len() == 0 {
        0
    } else {
        symbols_where(symbols.drop_last(), p) + if p(symbols.last()) {
            1nat
        } else {
            0nat
        }
    }
}

/// `f` is the smell the rule reports for one of the symbols that violate it.
pub open spec fn reported_by(symbols: Seq<SymbolMetrics>, f: Finding, rule: SmellRule) -> bool {
    exists|i: int| 0 <= i < symbols.len() && violates(symbols[i], rule) && #[trigger] reports_smell(f, symbols[i], rule)
}

/// What every quality check gives: one smell for each symbol that violates its
/// rule, each carrying the rule's smell type and threshold and a measurement
/// above that threshold.
proof fn lemma_smells_match_facts(symbols: Seq<SymbolMetrics>, found: Seq<Finding>, rule: SmellRule)
    requires
        smells_match(symbols, found, rule),
    ensures
        found.len() == symbols_where(symbols, |s: SymbolMetrics| violates(s, rule)),
        forall|k: int| 0 <= k < found.len() ==> reported_by(symbols, #[trigger] found[k], rule),
    decreases symbols.len(),
{
    if symbols.len() > 0 {
        let rest = symbols.drop_last();
        if violates(symbols.last(), rule) {
            lemma_smells_match_facts(rest, found.drop_last(), rule);
            assert forall|k: int| 0 <= k < found.len() implies reported_by(symbols, #[trigger] found[k], rule) by {
                if k == found.len() - 1 {
                    assert(reports_smell(found[k], symbols[symbols.len() - 1], rule));
                } else {
                    assert(found[k] == found.drop_last()[k]);
                    assert(reported_by(rest, found.drop_last()[k], rule));
                    let i = choose|i: int|
                        0 <= i < rest.len() && violates(rest[i], rule) && #[trigger] reports_smell(found.drop_last()[k], rest[i], rule);
                    assert(rest[i] == symbols[i]);
                }
            }
        } else {
            lemma_smells_match_facts(rest, found, rule);
            assert forall|k: int| 0 <= k < found.len() implies reported_by(symbols, #[trigger] found[k], rule) by {
                assert(reported_by(rest, found[k], rule));
                let i = choose|i: int| 0 <= i < rest.len() && violates(rest[i], rule) && #[trigger] reports_smell(found[k], rest[i], rule);
                assert(rest[i] == symbols[i]);
            }
        }
    }
}

proof fn lemma_count_same(symbols: Seq<SymbolMetrics>, p: spec_fn(SymbolMetrics) -> bool, q: spec_fn(SymbolMetrics) -> bool)
    requires
        forall|s: SymbolMetrics| #[trigger] p(s) == q(s),
    ensures
        symbols_where(symbols, p) == symbols_where(symbols, q),
    decreases symbols.len(),
{
    if symbols.len() > 0 {
        lemma_count_same(symbols.drop_last(), p, q);
    }
}

/// The too-many-fields check compares each class's field count with
/// `max_fields`, whatever the other thresholds are: it reports one
/// too-many-fields smell for each class in a real module with more fields than
/// `max_fields`, and each smell it reports names `max_fields` as the
/// recommended threshold and a field count above it.
pub proof fn law_too_many_fields_uses_max_fields(
    symbols: Seq<SymbolMetrics>,
    config: CodeQualityConfig,
    r: Result<Vec<Finding>, crate::quality::QualityAnalysisError>,
)
    requires
        check_outcome(symbols, too_many_fields_rule(config), r),
        r is Ok,
    ensures
        r.unwrap()@.len() == symbols_where(symbols, |s: SymbolMetrics| has_too_many_fields(s, config.max_fields)),
        forall|k: int| 0 <= k < r.unwrap()@.len() ==> smell_over(#[trigger] r.unwrap()@[k], CodeSmellType::TooManyFields, config.max_fields),
{
    let rule = too_many_fields_rule(config);
    let found = r.unwrap()@;
    lemma_smells_match_facts(symbols, found, rule);
    lemma_count_same(symbols, |s: SymbolMetrics| violates(s, rule), |s: SymbolMetrics| has_too_many_fields(s, config.max_fields));
    assert forall|k: int| 0 <= k < found.len() implies smell_over(#[trigger] found[k], CodeSmellType::TooManyFields, config.max_fields) by {
        assert(reported_by(symbols, found[k], rule));
        let i = choose|i: int| 0 <= i < symbols.len() && violates(symbols[i], rule) && #[trigger] reports_smell(found[k], symbols[i], rule);
    }
}

/// The too-many-methods check compares each class's method count with
/// `max_methods`: it reports one too-many-methods smell for each class in a
/// real module with more methods than `max_methods`, and each smell it reports
/// names `max_methods` as the recommended threshold and a method count above it.
pub proof fn law_too_many_methods_uses_max_methods(
    symbols: Seq<SymbolMetrics>,
    config: CodeQualityConfig,
    r: Result<Vec<Finding>, crate::quality::QualityAnalysisError>,
)
    requires
        check_outcome(symbols, too_many_methods_rule(config), r),
        r is Ok,
    ensures
        r.unwrap()@.len() == symbols_where(symbols, |s: SymbolMetrics| has_too_many_methods(s, config.max_methods)),
        forall|k: int| 0 <= k < r.unwrap()@.len() ==> smell_over(#[trigger] r.unwrap()@[k], CodeSmellType::TooManyMethods, config.max_methods),
{
    let rule = too_many_methods_rule(config);
    let found = r.unwrap()@;
    lemma_smells_match_facts(symbols, found, rule);
    lemma_count_same(symbols, |s: SymbolMetrics| violates(s, rule), |s: SymbolMetrics| has_too_many_methods(s, config.max_methods));
    assert forall|k: int| 0 <= k < found.len() implies smell_over(#[trigger] found[k], CodeSmellType::TooManyMethods, config.max_methods) by {
        assert(reported_by(symbols, found[k], rule));
        let i = choose|i: int| 0 <= i < symbols.len() && violates(symbols[i], rule) && #[trigger] reports_smell(found[k], symbols[i], rule);
    }
}

/// The report shows the smells of the two class-size checks under names that
/// end in the unit their messages count: methods for the too-many-methods
/// check, fields for the too-many-fields check.
pub proof fn law_class_smell_names_match_their_units(config: CodeQualityConfig)
    ensures
        ({
            let n = smell_type_name(too_many_methods_rule(config).smell_type);
            n.len() >= 7 && n.subrange(n.len() - 7, n.len() as int) == "Methods"@
                && too_many_methods_rule(config).after == " methods"@
        }),
        ({
            let n = smell_type_name(too_many_fields_rule(config).smell_type);
            n.len() >= 6 && n.subrange(n.len() - 6, n.len() as int) == "Fields"@
                && too_many_fields_rule(config).after == " fields"@
        }),
{
    reveal_strlit("Too Many Methods");
    reveal_strlit("Too Many Fields");
    reveal_strlit("Methods");
    reveal_strlit("Fields");
    let m = smell_type_name(too_many_methods_rule(config).smell_type);
    assert(m.subrange(m.len() - 7, m.len() as int) =~= "Methods"@);
    let f = smell_type_name(too_many_fields_rule(config).smell_type);
    assert(f.subrange(f.len() - 6, f.len() as int) =~= "Fields"@);
}

} // verus!
