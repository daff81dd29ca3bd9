//! The human-readable report, rendered as lines of text: a line per `println!`
//! of the terminal report (a line may begin with a newline, for the blank line
//! the report leaves before a section).
use vstd::prelude::*;
use crate::findings::{CodeSmellType, Finding, SmellSeverity, SymbolKind, ClassMemberKind, EnumValue, ModuleSizeInfo, BundleSizeImpact, NpmDependencyType, Statistics, CodeSmellStats};
use crate::format::{format_bytes, format_bytes_spec};
use crate::paths::{path_file_name, path_file_name_of};
use crate::category_kind::{Category, all_categories, display_name_of};
use crate::findings::finding_category;
use crate::ignore::texts;
use crate::text::{decimal, push_str, to_owned_string, u64_to_string};

verus! {

broadcast use vstd::seq_lib::group_seq_properties;

/// The lines of each entry of a listing.
pub open spec fn entry_texts(entries: Seq<Vec<String>>) -> Seq<Seq<Seq<char>>> {
    entries.map_values(|e: Vec<String>| texts(e@))
}

/// The lines of the entries, one entry after the other.
pub open spec fn flatten_lines(entries: Seq<Seq<Seq<char>>>) -> Seq<Seq<char>>
    decreases entries.len(),
{
    if entries.len() == 0 {
        Seq::empty()
    } else {
        flatten_lines(entries.drop_last()) + entries.last()
    }
}

/// The line that stands for the entries left out of a listing.
pub open spec fn more_line(indent: Seq<char>, left_out: nat, suffix: Seq<char>) -> Seq<char> {
    indent + "... and "@ + decimal(left_out) + " more"@ + suffix
}

/// A listing shows its first `limit` entries, then says how many were left out.
pub open spec fn capped(entries: Seq<Seq<Seq<char>>>, limit: nat, indent: Seq<char>, suffix: Seq<char>) -> Seq<Seq<char>> {
    if entries.len() > limit {
        flatten_lines(entries.take(limit as int)).push(more_line(indent, (entries.len() - limit) as nat, suffix))
    } else {
        flatten_lines(entries)
    }
}

/// The entries of the findings that satisfy `p`, each rendered by `render`, in order.
pub open spec fn entries_where<A>(
    fs: Seq<A>,
    p: spec_fn(A) -> bool,
    render: spec_fn(A) -> Seq<Seq<char>>,
) -> Seq<Seq<Seq<char>>>
    decreases fs.len(),
{
    if fs.len() == 0 {
        Seq::empty()
    } else if p(fs.last()) {
        entries_where(fs.drop_last(), p, render).push(render(fs.last()))
    } else {
        entries_where(fs.drop_last(), p, render)
    }
}

/// `":{line}"`, or nothing when the line is unknown.
pub open spec fn line_suffix(line: Option<u32>) -> Seq<char> {
    match line {
        Some(l) => ":"@ + decimal(l as nat),
        None => ""@,
    }
}

/// Appends the lines of `more` to `lines`.
pub(crate) fn append_all(lines: &mut Vec<String>, more: Vec<String>)
    ensures
        texts(final(lines)@) == texts(old(lines)@) + texts(more@),
{
    let ghost m = more@;
    let mut more = more;
    lines.append(&mut more);
    assert(lines@ =~= old(lines)@ + m);
    assert(texts(lines@) =~= texts(old(lines)@) + texts(m));
}

pub(crate) proof fn lemma_flatten_push(es: Seq<Seq<Seq<char>>>, e: Seq<Seq<char>>)
    ensures
        flatten_lines(es.push(e)) == flatten_lines(es) + e,
{
    assert(es.push(e).drop_last() =~= es);
}

/// Shows the first `limit` entries, then a line saying how many more there are.
fn capped_lines(entries: Vec<Vec<String>>, limit: usize, indent: &str, suffix: &str) -> (r: Vec<String>)
    ensures
        texts(r@) == capped(entry_texts(entries@), limit as nat, indent@, suffix@),
{
    let ghost es = entry_texts(entries@);
    let n = entries.len();
    let mut out: Vec<String> = Vec::new();
    let mut shown: usize = 0;
    for e in it: entries
        invariant
            es == entry_texts(it.seq()),
            n == it.seq().len(),
            shown == if it.index() < limit { it.index() } else { limit as int },
            texts(out@) == flatten_lines(es.take(shown as int)),
    {
        if shown < limit {
            let ghost ev = texts(e@);
            let ghost before = texts(out@);
            assert(ev == es[shown as int]);
            append_all(&mut out, e);
            proof {
                assert(es.take(shown + 1) =~= es.take(shown as int).push(ev));
                lemma_flatten_push(es.take(shown as int), ev);
            }
            shown = shown + 1;
        }
    }
    if n > limit {
        let mut line = to_owned_string(indent);
        push_str(&mut line, "... and ");
        let left = u64_to_string((n - limit) as u64);
        push_str(&mut line, left.as_str());
        push_str(&mut line, " more");
        push_str(&mut line, suffix);
        let ghost before = out@;
        out.push(line);
        assert(texts(out@) =~= texts(before).push(line@));
    } else {
        assert(es.take(n as int) =~= es);
    }
    out
}

/// `text` followed by `(count):`, as section headers show their size.
pub open spec fn counted(text: Seq<char>, count: nat) -> Seq<char> {
    text + " ("@ + decimal(count) + "):"@
}

/// A header line with a count.
fn counted_line(text: &str, count: usize) -> (r: String)
    ensures
        r@ == counted(text@, count as nat),
{
    let mut line = to_owned_string(text);
    push_str(&mut line, " (");
    let c = u64_to_string(count as u64);
    push_str(&mut line, c.as_str());
    push_str(&mut line, "):");
    line
}

/// The number of findings in category `c`.
pub open spec fn category_count(fs: Seq<Finding>, c: Category) -> nat
    decreases fs.len(),
{
    if fs.len() == 0 {
        0
    } else {
        category_count(fs.drop_last(), c) + if finding_category(fs.last()) == c {
            1nat
        } else {
            0nat
        }
    }
}

proof fn lemma_category_count_bound(fs: Seq<Finding>, c: Category)
    ensures
        category_count(fs, c) <= fs.len(),
    decreases fs.len(),
{
    if fs.len() > 0 {
        lemma_category_count_bound(fs.drop_last(), c);
    }
}

/// The number of findings in a category.
pub fn count_in_category(findings: &Vec<Finding>, c: Category) -> (r: usize)
    ensures
        r == category_count(findings@, c),
{
    let ghost fs = findings@;
    let mut n: usize = 0;
    let mut i: usize = 0;
    while i < findings.len()
        invariant
            fs == findings@,
            i <= fs.len(),
            n == category_count(fs.take(i as int), c),
        decreases fs.len() - i,
    {
        assert(fs.take(i + 1).drop_last() =~= fs.take(i as int));
        assert(fs.take(i + 1).last() == fs[i as int]);
        proof {
            lemma_category_count_bound(fs.take(i as int), c);
        }
        if findings[i].category() == c {
            n = n + 1;
        }
        i = i + 1;
    }
    assert(fs.take(fs.len() as int) =~= fs);
    n
}

// ---------------------------------------------------------------------------
// Quality

/// A code smell of one of the three kinds reported as high impact (long
/// functions, too many parameters, large classes) at warning or error severity.
pub open spec fn is_high_impact(f: Finding) -> bool {
    match f {
        Finding::CodeSmell { severity, smell_type, .. } => (severity == SmellSeverity::Error || severity
            == SmellSeverity::Warning) && (smell_type == CodeSmellType::LongFunction || smell_type
            == CodeSmellType::TooManyParameters || smell_type == CodeSmellType::LargeClass),
        _ => false,
    }
}

/// A high-impact smell of type `t`.
pub open spec fn high_impact_of(f: Finding, t: CodeSmellType) -> bool {
    is_high_impact(f) && f->CodeSmell_smell_type == t
}

/// A code smell that is not high impact.
pub open spec fn is_other_smell(f: Finding) -> bool {
    f is CodeSmell && !is_high_impact(f)
}

/// The recommendation line of a smell, if it has a recommendation.
pub open spec fn recommendation_lines(f: Finding, indent: Seq<char>) -> Seq<Seq<char>> {
    match f->CodeSmell_details.recommendation {
        Some(rec) => seq![indent + rec@],
        None => Seq::empty(),
    }
}

/// How a high-impact entry names its symbol: `name()` for functions (when
/// `call` holds), the bare name for classes, "unknown" without a name.
pub open spec fn symbol_label(name: Option<String>, call: bool) -> Seq<char> {
    match name {
        Some(s) => if call {
            s@ + "()"@
        } else {
            s@
        },
        None => "unknown"@,
    }
}

/// The lines of a high-impact entry.
pub open spec fn high_impact_entry(f: Finding, call: bool) -> Seq<Seq<char>> {
    seq![
        "      ⚠️  "@ + f->CodeSmell_location@ + line_suffix(f->CodeSmell_line) + " - "@ + symbol_label(f->CodeSmell_symbol_name, call),
    ] + recommendation_lines(f, "         💡 "@)
}

/// The name a code quality entry gives its smell type.
pub open spec fn smell_type_name(t: CodeSmellType) -> Seq<char> {
    match t {
        CodeSmellType::MagicNumber => "Magic Number"@,
        CodeSmellType::MessageChain => "Message Chain"@,
        CodeSmellType::ComplexConditional => "Complex Conditional"@,
        CodeSmellType::DeepNesting => "Deep Nesting"@,
        CodeSmellType::MultipleReturns => "Multiple Returns"@,
        CodeSmellType::EmptyCatchBlock => "Empty Catch Block"@,
        CodeSmellType::DuplicatedCode => "Duplicated Code"@,
        CodeSmellType::LongParameterList => "Long Parameter List"@,
        CodeSmellType::TooManyMethods => "Too Many Methods"@,
        CodeSmellType::TooManyFields => "Too Many Fields"@,
        CodeSmellType::LowCohesion => "Low Cohesion"@,
        _ => "Code Smell"@,
    }
}

/// The lines of a code quality entry.
pub open spec fn quality_entry(f: Finding) -> Seq<Seq<char>> {
    seq![
        "    💡 "@ + f->CodeSmell_location@ + line_suffix(f->CodeSmell_line) + match f->CodeSmell_symbol_name {
            Some(s) => " - "@ + s@,
            None => ""@,
        } + " ("@ + smell_type_name(f->CodeSmell_smell_type) + ")"@,
    ] + recommendation_lines(f, "       "@)
}

/// A group of high-impact entries: nothing when empty, else a header and the
/// first ten entries.
pub open spec fn high_impact_group(title: Seq<char>, es: Seq<Seq<Seq<char>>>) -> Seq<Seq<char>> {
    if es.len() == 0 {
        Seq::empty()
    } else {
        seq![counted("\n    "@ + title, es.len())] + capped(es, 10, "      "@, ""@)
    }
}

/// The quality section of the report for the findings of the quality category:
/// the high-impact smells grouped by kind (ten of each), then up to twenty
/// other smells.
pub open spec fn quality_report(fs: Seq<Finding>) -> Seq<Seq<char>> {
    let long = entries_where(fs, |f: Finding| high_impact_of(f, CodeSmellType::LongFunction), |f: Finding| high_impact_entry(f, true));
    let params = entries_where(fs, |f: Finding| high_impact_of(f, CodeSmellType::TooManyParameters), |f: Finding| high_impact_entry(f, true));
    let classes = entries_where(fs, |f: Finding| high_impact_of(f, CodeSmellType::LargeClass), |f: Finding| high_impact_entry(f, false));
    let others = entries_where(fs, |f: Finding| is_other_smell(f), |f: Finding| quality_entry(f));
    seq![counted("\n⚡ Quality"@, category_count(fs, Category::Quality))] + (if long.len() + params.len() + classes.len() > 0 {
        seq!["  🔥 High Impact Issues (fix these first):"@] + high_impact_group("Large Functions"@, long)
            + high_impact_group("Too Many Parameters"@, params) + high_impact_group("Large Classes"@, classes)
    } else {
        Seq::empty()
    }) + (if others.len() > 0 {
        seq![counted("\n  Code Quality Issues"@, others.len())] + capped(others, 20, "    "@, ""@)
    } else {
        Seq::empty()
    })
}

/// The recommendation line of a smell.
fn push_recommendation(lines: &mut Vec<String>, f: &Finding, indent: &str)
    requires
        *f is CodeSmell,
    ensures
        texts(final(lines)@) == texts(old(lines)@) + recommendation_lines(*f, indent@),
{
    match f {
        Finding::CodeSmell { details, .. } => {
            match &details.recommendation {
                Some(rec) => {
                    let mut line = to_owned_string(indent);
                    push_str(&mut line, rec.as_str());
                    let ghost before = lines@;
                    lines.push(line);
                    assert(texts(lines@) =~= texts(before) + seq![line@]);
                },
                None => {
                    assert(texts(lines@) =~= texts(old(lines)@) + Seq::<Seq<char>>::empty());
                },
            }
        },
        _ => {},
    }
}

/// `":{line}"` or nothing.
fn line_suffix_text(line: Option<u32>) -> (r: String)
    ensures
        r@ == line_suffix(line),
{
    match line {
        Some(l) => {
            let mut s = to_owned_string(":");
            let d = u64_to_string(l as u64);
            push_str(&mut s, d.as_str());
            s
        },
        None => to_owned_string(""),
    }
}

/// The lines of a high-impact entry.
fn high_impact_lines(f: &Finding, call: bool) -> (r: Vec<String>)
    requires
        *f is CodeSmell,
    ensures
        texts(r@) == high_impact_entry(*f, call),
{
    match f {
        Finding::CodeSmell { location, symbol_name, line, .. } => {
            let mut first = to_owned_string("      ⚠️  ");
            push_str(&mut first, location.as_str());
            let ls = line_suffix_text(*line);
            push_str(&mut first, ls.as_str());
            push_str(&mut first, " - ");
            match symbol_name {
                Some(s) => {
                    push_str(&mut first, s.as_str());
                    if call {
                        push_str(&mut first, "()");
                    }
                },
                None => {
                    push_str(&mut first, "unknown");
                },
            }
            assert(first@ == "      ⚠️  "@ + location@ + line_suffix(*line) + " - "@ + symbol_label(*symbol_name, call));
            let mut lines: Vec<String> = Vec::new();
            lines.push(first);
            assert(texts(lines@) =~= seq![first@]);
            push_recommendation(&mut lines, f, "         💡 ");
            lines
        },
        _ => Vec::new(),
    }
}

/// The name a code quality entry gives its smell type.
fn smell_type_text(t: CodeSmellType) -> (r: &'static str)
    ensures
        r@ == smell_type_name(t),
{
    match t {
        CodeSmellType::MagicNumber => "Magic Number",
        CodeSmellType::MessageChain => "Message Chain",
        CodeSmellType::ComplexConditional => "Complex Conditional",
        CodeSmellType::DeepNesting => "Deep Nesting",
        CodeSmellType::MultipleReturns => "Multiple Returns",
        CodeSmellType::EmptyCatchBlock => "Empty Catch Block",
        CodeSmellType::DuplicatedCode => "Duplicated Code",
        CodeSmellType::LongParameterList => "Long Parameter List",
        CodeSmellType::TooManyMethods => "Too Many Methods",
        CodeSmellType::TooManyFields => "Too Many Fields",
        CodeSmellType::LowCohesion => "Low Cohesion",
        _ => "Code Smell",
    }
}

/// The lines of a code quality entry.
fn quality_lines(f: &Finding) -> (r: Vec<String>)
    requires
        *f is CodeSmell,
    ensures
        texts(r@) == quality_entry(*f),
{
    match f {
        Finding::CodeSmell { location, symbol_name, line, smell_type, .. } => {
            let sym = match symbol_name {
                Some(s) => crate::text::concat(" - ", s.as_str()),
                None => to_owned_string(""),
            };
            let ghost symv = match symbol_name {
                Some(s) => " - "@ + s@,
                None => ""@,
            };
            assert(sym@ == symv);
            let mut first = to_owned_string("    💡 ");
            push_str(&mut first, location.as_str());
            let ls = line_suffix_text(*line);
            push_str(&mut first, ls.as_str());
            push_str(&mut first, sym.as_str());
            push_str(&mut first, " (");
            push_str(&mut first, smell_type_text(*smell_type));
            push_str(&mut first, ")");
            assert(first@ =~= "    💡 "@ + location@ + line_suffix(*line) + symv + " ("@ + smell_type_name(*smell_type) + ")"@);
            let mut lines: Vec<String> = Vec::new();
            lines.push(first);
            assert(texts(lines@) =~= seq![first@]);
            push_recommendation(&mut lines, f, "       ");
            lines
        },
        _ => Vec::new(),
    }
}

/// Which entries of the quality section a finding belongs to.
#[derive(Debug, Clone, Copy, PartialEq, Eq, Structural)]
enum QualityGroup {
    LongFunctions,
    TooManyParameters,
    LargeClasses,
    Others,
}

/// The finding belongs to the group.
spec fn in_quality_group(f: Finding, g: QualityGroup) -> bool {
    match g {
        QualityGroup::LongFunctions => high_impact_of(f, CodeSmellType::LongFunction),
        QualityGroup::TooManyParameters => high_impact_of(f, CodeSmellType::TooManyParameters),
        QualityGroup::LargeClasses => high_impact_of(f, CodeSmellType::LargeClass),
        QualityGroup::Others => is_other_smell(f),
    }
}

/// How the group renders an entry.
spec fn quality_group_entry(f: Finding, g: QualityGroup) -> Seq<Seq<char>> {
    match g {
        QualityGroup::LongFunctions => high_impact_entry(f, true),
        QualityGroup::TooManyParameters => high_impact_entry(f, true),
        QualityGroup::LargeClasses => high_impact_entry(f, false),
        QualityGroup::Others => quality_entry(f),
    }
}

/// Whether the finding belongs to the group.
fn quality_group_has(f: &Finding, g: QualityGroup) -> (r: bool)
    ensures
        r == in_quality_group(*f, g),
{
    match f {
        Finding::CodeSmell { severity, smell_type, .. } => {
            let serious = match severity {
                SmellSeverity::Error => true,
                SmellSeverity::Warning => true,
                SmellSeverity::Info => false,
            };
            let t = *smell_type;
            let high = serious && (t == CodeSmellType::LongFunction || t == CodeSmellType::TooManyParameters || t
                == CodeSmellType::LargeClass);
            match g {
                QualityGroup::LongFunctions => high && t == CodeSmellType::LongFunction,
                QualityGroup::TooManyParameters => high && t == CodeSmellType::TooManyParameters,
                QualityGroup::LargeClasses => high && t == CodeSmellType::LargeClass,
                QualityGroup::Others => !high,
            }
        },
        _ => false,
    }
}

/// The entries of one group of the quality section.
fn quality_group_entries(findings: &Vec<Finding>, g: QualityGroup) -> (r: Vec<Vec<String>>)
    ensures
        entry_texts(r@) == entries_where(findings@, |f: Finding| in_quality_group(f, g), |f: Finding| quality_group_entry(f, g)),
{
    let ghost fs = findings@;
    let ghost p = |f: Finding| in_quality_group(f, g);
    let ghost rd = |f: Finding| quality_group_entry(f, g);
    let mut out: Vec<Vec<String>> = Vec::new();
    let mut i: usize = 0;
    while i < findings.len()
        invariant
            fs == findings@,
            i <= fs.len(),
            p == (|f: Finding| in_quality_group(f, g)),
            rd == (|f: Finding| quality_group_entry(f, g)),
            entry_texts(out@) == entries_where(fs.take(i as int), p, rd),
        decreases fs.len() - i,
    {
        let f = &findings[i];
        assert(fs.take(i + 1).drop_last() =~= fs.take(i as int));
        assert(fs.take(i + 1).last() == *f);
        if quality_group_has(f, g) {
            let e = match g {
                QualityGroup::LongFunctions => high_impact_lines(f, true),
                QualityGroup::TooManyParameters => high_impact_lines(f, true),
                QualityGroup::LargeClasses => high_impact_lines(f, false),
                QualityGroup::Others => quality_lines(f),
            };
            let ghost before = out@;
            out.push(e);
            assert(entry_texts(out@) =~= entry_texts(before).push(texts(e@)));
        }
        i = i + 1;
    }
    assert(fs.take(fs.len() as int) =~= fs);
    out
}

/// A group of high-impact entries, with its header.
fn high_impact_group_lines(title: &str, entries: Vec<Vec<String>>) -> (r: Vec<String>)
    ensures
        texts(r@) == high_impact_group(title@, entry_texts(entries@)),
{
    let mut lines: Vec<String> = Vec::new();
    if entries.len() == 0 {
        assert(texts(lines@) =~= Seq::<Seq<char>>::empty());
        return lines;
    }
    let mut header = to_owned_string("\n    ");
    push_str(&mut header, title);
    let h = counted_line(header.as_str(), entries.len());
    lines.push(h);
    let body = capped_lines(entries, 10, "      ", "");
    let ghost before = lines@;
    append_all(&mut lines, body);
    assert(texts(before) =~= seq![h@]);
    lines
}

/// The quality section of the report, as lines.
pub fn quality_section(findings: &Vec<Finding>) -> (r: Vec<String>)
    ensures
        texts(r@) == quality_report(findings@),
{
    let long = quality_group_entries(findings, QualityGroup::LongFunctions);
    let params = quality_group_entries(findings, QualityGroup::TooManyParameters);
    let classes = quality_group_entries(findings, QualityGroup::LargeClasses);
    let others = quality_group_entries(findings, QualityGroup::Others);
    proof {
        let fs = findings@;
        assert((|f: Finding| in_quality_group(f, QualityGroup::LongFunctions)) =~= (|f: Finding| high_impact_of(f, CodeSmellType::LongFunction)));
        assert((|f: Finding| quality_group_entry(f, QualityGroup::LongFunctions)) =~= (|f: Finding| high_impact_entry(f, true)));
        assert((|f: Finding| in_quality_group(f, QualityGroup::TooManyParameters)) =~= (|f: Finding| high_impact_of(f, CodeSmellType::TooManyParameters)));
        assert((|f: Finding| quality_group_entry(f, QualityGroup::TooManyParameters)) =~= (|f: Finding| high_impact_entry(f, true)));
        assert((|f: Finding| in_quality_group(f, QualityGroup::LargeClasses)) =~= (|f: Finding| high_impact_of(f, CodeSmellType::LargeClass)));
        assert((|f: Finding| quality_group_entry(f, QualityGroup::LargeClasses)) =~= (|f: Finding| high_impact_entry(f, false)));
        assert((|f: Finding| in_quality_group(f, QualityGroup::Others)) =~= (|f: Finding| is_other_smell(f)));
        assert((|f: Finding| quality_group_entry(f, QualityGroup::Others)) =~= (|f: Finding| quality_entry(f)));
    }
    let ghost fs = findings@;
    let ghost le = entry_texts(long@);
    let ghost pe = entry_texts(params@);
    let ghost ce = entry_texts(classes@);
    let ghost oe = entry_texts(others@);
    let mut lines: Vec<String> = Vec::new();
    let head = counted_line("\n⚡ Quality", count_in_category(findings, Category::Quality));
    lines.push(head);
    assert(texts(lines@) =~= seq![counted("\n⚡ Quality"@, category_count(fs, Category::Quality))]);
    let ghost part1 = texts(lines@);
    let any_high = long.len() > 0 || params.len() > 0 || classes.len() > 0;
    let ghost high_part: Seq<Seq<char>> = Seq::empty();
    if any_high {
        let banner = to_owned_string("  🔥 High Impact Issues (fix these first):");
        let mut h: Vec<String> = Vec::new();
        h.push(banner);
        assert(texts(h@) =~= seq!["  🔥 High Impact Issues (fix these first):"@]);
        let a = high_impact_group_lines("Large Functions", long);
        append_all(&mut h, a);
        let b = high_impact_group_lines("Too Many Parameters", params);
        append_all(&mut h, b);
        let c = high_impact_group_lines("Large Classes", classes);
        append_all(&mut h, c);
        proof {
            high_part = texts(h@);
        }
        append_all(&mut lines, h);
    }
    let ghost part2 = texts(lines@);
    assert(part2 == part1 + high_part);
    let ghost other_part: Seq<Seq<char>> = Seq::empty();
    if others.len() > 0 {
        let n = others.len();
        let mut o: Vec<String> = Vec::new();
        o.push(counted_line("\n  Code Quality Issues", n));
        assert(texts(o@) =~= seq![counted("\n  Code Quality Issues"@, oe.len())]);
        let rest = capped_lines(others, 20, "    ", "");
        append_all(&mut o, rest);
        proof {
            other_part = texts(o@);
        }
        append_all(&mut lines, o);
    }
    assert(texts(lines@) == part1 + high_part + other_part);
    lines
}


// ---------------------------------------------------------------------------
// Shared pieces

/// A titled listing: nothing when there are no entries, else the title line and
/// the capped entries.
pub open spec fn titled(title: Seq<char>, es: Seq<Seq<Seq<char>>>, limit: nat, more_suffix: Seq<char>) -> Seq<Seq<char>> {
    if es.len() == 0 {
        Seq::empty()
    } else {
        seq![title] + capped(es, limit, "    "@, more_suffix)
    }
}

/// A titled listing, as lines.
fn titled_lines(title: &str, entries: Vec<Vec<String>>, limit: usize, more_suffix: &str) -> (r: Vec<String>)
    ensures
        texts(r@) == titled(title@, entry_texts(entries@), limit as nat, more_suffix@),
{
    let mut lines: Vec<String> = Vec::new();
    if entries.len() == 0 {
        assert(texts(lines@) =~= Seq::<Seq<char>>::empty());
        return lines;
    }
    lines.push(to_owned_string(title));
    assert(texts(lines@) =~= seq![title@]);
    let body = capped_lines(entries, limit, "    ", more_suffix);
    append_all(&mut lines, body);
    lines
}

/// A one-line entry.
pub(crate) fn one_line(line: String) -> (r: Vec<String>)
    ensures
        texts(r@) == seq![line@],
{
    let mut v: Vec<String> = Vec::new();
    v.push(line);
    assert(texts(v@) =~= seq![line@]);
    v
}

/// The decimal form of a signed integer.
pub open spec fn signed_decimal(n: int) -> Seq<char> {
    if n < 0 {
        "-"@ + decimal((-n) as nat)
    } else {
        decimal(n as nat)
    }
}

pub(crate) fn i64_to_string(n: i64) -> (r: String)
    ensures
        r@ == signed_decimal(n as int),
{
    if n < 0 {
        let m: u64 = (-(n as i128)) as u64;
        let d = u64_to_string(m);
        crate::text::concat("-", d.as_str())
    } else {
        u64_to_string(n as u64)
    }
}

/// The items joined by a separator.
pub open spec fn joined(items: Seq<Seq<char>>, sep: Seq<char>) -> Seq<char>
    decreases items.len(),
{
    if items.len() == 0 {
        ""@
    } else if items.len() == 1 {
        items[0]
    } else {
        joined(items.drop_last(), sep) + sep + items.last()
    }
}

pub(crate) fn join_texts(items: &Vec<String>, sep: &str) -> (r: String)
    ensures
        r@ == joined(texts(items@), sep@),
{
    let ghost ts = texts(items@);
    let mut out = to_owned_string("");
    proof {
        reveal_strlit("");
    }
    let mut i: usize = 0;
    while i < items.len()
        invariant
            i <= items@.len(),
            ts == texts(items@),
            out@ == joined(ts.take(i as int), sep@),
        decreases items@.len() - i,
    {
        assert(ts.take(i + 1).drop_last() =~= ts.take(i as int));
        assert(ts.take(i + 1).last() == items@[i as int]@);
        let ghost prev = out@;
        if i > 0 {
            push_str(&mut out, sep);
        }
        push_str(&mut out, items[i].as_str());
        proof {
            if i == 0 {
                reveal_strlit("");
                assert(ts.take(0).len() == 0);
                assert(prev =~= Seq::<char>::empty());
                assert(out@ =~= items@[0]@);
                assert(ts.take(1)[0] == items@[0]@);
            } else {
                assert(out@ =~= prev + sep@ + items@[i as int]@);
            }
        }
        i = i + 1;
    }
    assert(ts.take(ts.len() as int) =~= ts);
    out
}

/// The file name of a path, or nothing.
pub open spec fn file_name_or_empty(p: Seq<char>) -> Seq<char> {
    match path_file_name_of(p) {
        Some(n) => n,
        None => ""@,
    }
}

/// The file names of a list of paths, joined by arrows.
pub open spec fn file_chain(paths: Seq<String>) -> Seq<char> {
    joined(paths.map_values(|p: String| file_name_or_empty(p@)), " → "@)
}

fn file_chain_text(paths: &Vec<String>) -> (r: String)
    ensures
        r@ == file_chain(paths@),
{
    let mut names: Vec<String> = Vec::new();
    let mut i: usize = 0;
    while i < paths.len()
        invariant
            i <= paths@.len(),
            texts(names@) == paths@.take(i as int).map_values(|p: String| file_name_or_empty(p@)),
        decreases paths@.len() - i,
    {
        let n = match path_file_name(paths[i].as_str()) {
            Some(n) => n,
            None => to_owned_string(""),
        };
        let ghost before = names@;
        names.push(n);
        assert(texts(names@) =~= texts(before).push(n@));
        assert(paths@.take(i + 1) =~= paths@.take(i as int).push(paths@[i as int]));
        i = i + 1;
    }
    assert(paths@.take(paths@.len() as int) =~= paths@);
    join_texts(&names, " → ")
}

// ---------------------------------------------------------------------------
// Symbols

/// The word a symbol entry uses for its kind.
pub open spec fn symbol_kind_word(k: SymbolKind) -> Seq<char> {
    match k {
        SymbolKind::Function => "function"@,
        SymbolKind::Variable => "variable"@,
        SymbolKind::Class => "class"@,
        SymbolKind::Parameter => "parameter"@,
        SymbolKind::TypeAlias => "type"@,
        SymbolKind::Interface => "interface"@,
        SymbolKind::Enum => "enum"@,
    }
}

/// The lowercase name of a member kind.
pub open spec fn member_kind_word(k: ClassMemberKind) -> Seq<char> {
    match k {
        ClassMemberKind::Method => "method"@,
        ClassMemberKind::Property => "property"@,
        ClassMemberKind::Getter => "getter"@,
        ClassMemberKind::Setter => "setter"@,
        ClassMemberKind::Constructor => "constructor"@,
    }
}

/// How an enum member's value is shown after its name.
pub open spec fn enum_value_text(v: Option<EnumValue>) -> Seq<char> {
    match v {
        Some(EnumValue::Number(n)) => " = "@ + signed_decimal(n as int),
        Some(EnumValue::String(s)) => " = \""@ + s@ + "\""@,
        Some(EnumValue::Computed) => " (computed)"@,
        None => ""@,
    }
}

/// The line of an entry of the symbols section.
pub open spec fn symbol_entry(f: Finding) -> Seq<Seq<char>> {
    match f {
        Finding::UnusedSymbol { module, symbol_name, kind, span, .. } => seq![
            "    "@ + symbol_kind_word(kind) + " '"@ + symbol_name@ + "' in "@ + module@ + " (line "@ + decimal(
                span.line as nat,
            ) + ")"@,
        ],
        Finding::UnusedPrivateClassMember { module, class_name, member_name, member_kind, .. } => seq![
            "    ✓ "@ + class_name@ + "::"@ + member_name@ + " ("@ + member_kind_word(member_kind) + ") in "@ + module@,
        ],
        Finding::UnusedPublicClassMember { module, class_name, member_name, member_kind, .. } => seq![
            "    ⚠️  "@ + class_name@ + "::"@ + member_name@ + " ("@ + member_kind_word(member_kind) + ") in "@
                + module@,
        ],
        Finding::UnusedEnumMember { module, enum_name, member_name, value, .. } => seq![
            "    → "@ + enum_name@ + "::"@ + member_name@ + enum_value_text(value) + " in "@ + module@,
        ],
        _ => Seq::empty(),
    }
}

/// The groups of the symbols section.
#[derive(Debug, Clone, Copy, PartialEq, Eq, Structural)]
pub enum SymbolGroup {
    Symbols,
    PrivateMembers,
    PublicMembers,
    EnumMembers,
}

/// The finding belongs to the group.
pub open spec fn in_symbol_group(f: Finding, g: SymbolGroup) -> bool {
    match g {
        SymbolGroup::Symbols => f is UnusedSymbol,
        SymbolGroup::PrivateMembers => f is UnusedPrivateClassMember,
        SymbolGroup::PublicMembers => f is UnusedPublicClassMember,
        SymbolGroup::EnumMembers => f is UnusedEnumMember,
    }
}

/// The symbols section: unused symbols, unused private and public class
/// members and unused enum members, twenty of each.
pub open spec fn symbols_report(fs: Seq<Finding>) -> Seq<Seq<char>> {
    seq![counted("\n🔍 Symbols"@, category_count(fs, Category::Symbols))]
        + titled("  Unused Symbols:"@, entries_where(fs, |f: Finding| in_symbol_group(f, SymbolGroup::Symbols), |f: Finding| symbol_entry(f)), 20, ""@)
        + titled("\n  Unused Private Class Members (Safe to Remove):"@, entries_where(fs, |f: Finding| in_symbol_group(f, SymbolGroup::PrivateMembers), |f: Finding| symbol_entry(f)), 20, ""@)
        + titled("\n  Unused Public Class Members (Warning: May be used externally):"@, entries_where(fs, |f: Finding| in_symbol_group(f, SymbolGroup::PublicMembers), |f: Finding| symbol_entry(f)), 20, ""@)
        + titled("\n  Unused Enum Members:"@, entries_where(fs, |f: Finding| in_symbol_group(f, SymbolGroup::EnumMembers), |f: Finding| symbol_entry(f)), 20, ""@)
}

fn symbol_kind_text(k: SymbolKind) -> (r: &'static str)
    ensures
        r@ == symbol_kind_word(k),
{
    match k {
        SymbolKind::Function => "function",
        SymbolKind::Variable => "variable",
        SymbolKind::Class => "class",
        SymbolKind::Parameter => "parameter",
        SymbolKind::TypeAlias => "type",
        SymbolKind::Interface => "interface",
        SymbolKind::Enum => "enum",
    }
}

fn member_kind_text(k: ClassMemberKind) -> (r: &'static str)
    ensures
        r@ == member_kind_word(k),
{
    match k {
        ClassMemberKind::Method => "method",
        ClassMemberKind::Property => "property",
        ClassMemberKind::Getter => "getter",
        ClassMemberKind::Setter => "setter",
        ClassMemberKind::Constructor => "constructor",
    }
}

fn enum_value_string(v: &Option<EnumValue>) -> (r: String)
    ensures
        r@ == enum_value_text(*v),
{
    match v {
        Some(EnumValue::Number(n)) => {
            let d = i64_to_string(*n);
            crate::text::concat(" = ", d.as_str())
        },
        Some(EnumValue::String(s)) => {
            let mut r = to_owned_string(" = \"");
            push_str(&mut r, s.as_str());
            push_str(&mut r, "\"");
            r
        },
        Some(EnumValue::Computed) => to_owned_string(" (computed)"),
        None => to_owned_string(""),
    }
}

/// The lines of an entry of the symbols section.
fn symbol_entry_lines(f: &Finding) -> (r: Vec<String>)
    ensures
        texts(r@) == symbol_entry(*f),
{
    match f {
        Finding::UnusedSymbol { module, symbol_name, kind, span, .. } => {
            let mut l = to_owned_string("    ");
            push_str(&mut l, symbol_kind_text(*kind));
            push_str(&mut l, " '");
            push_str(&mut l, symbol_name.as_str());
            push_str(&mut l, "' in ");
            push_str(&mut l, module.as_str());
            push_str(&mut l, " (line ");
            let d = u64_to_string(span.line as u64);
            push_str(&mut l, d.as_str());
            push_str(&mut l, ")");
            one_line(l)
        },
        Finding::UnusedPrivateClassMember { module, class_name, member_name, member_kind, .. } => {
            let mut l = to_owned_string("    ✓ ");
            push_str(&mut l, class_name.as_str());
            push_str(&mut l, "::");
            push_str(&mut l, member_name.as_str());
            push_str(&mut l, " (");
            push_str(&mut l, member_kind_text(*member_kind));
            push_str(&mut l, ") in ");
            push_str(&mut l, module.as_str());
            one_line(l)
        },
        Finding::UnusedPublicClassMember { module, class_name, member_name, member_kind, .. } => {
            let mut l = to_owned_string("    ⚠️  ");
            push_str(&mut l, class_name.as_str());
            push_str(&mut l, "::");
            push_str(&mut l, member_name.as_str());
            push_str(&mut l, " (");
            push_str(&mut l, member_kind_text(*member_kind));
            push_str(&mut l, ") in ");
            push_str(&mut l, module.as_str());
            one_line(l)
        },
        Finding::UnusedEnumMember { module, enum_name, member_name, value, .. } => {
            let mut l = to_owned_string("    → ");
            push_str(&mut l, enum_name.as_str());
            push_str(&mut l, "::");
            push_str(&mut l, member_name.as_str());
            let v = enum_value_string(value);
            push_str(&mut l, v.as_str());
            push_str(&mut l, " in ");
            push_str(&mut l, module.as_str());
            one_line(l)
        },
        _ => {
            let v: Vec<String> = Vec::new();
            assert(texts(v@) =~= Seq::<Seq<char>>::empty());
            v
        },
    }
}

fn symbol_group_has(f: &Finding, g: SymbolGroup) -> (r: bool)
    ensures
        r == in_symbol_group(*f, g),
{
    match g {
        SymbolGroup::Symbols => matches!(f, Finding::UnusedSymbol { .. }),
        SymbolGroup::PrivateMembers => matches!(f, Finding::UnusedPrivateClassMember { .. }),
        SymbolGroup::PublicMembers => matches!(f, Finding::UnusedPublicClassMember { .. }),
        SymbolGroup::EnumMembers => matches!(f, Finding::UnusedEnumMember { .. }),
    }
}

fn symbol_group_entries(findings: &Vec<Finding>, g: SymbolGroup) -> (r: Vec<Vec<String>>)
    ensures
        entry_texts(r@) == entries_where(findings@, |f: Finding| in_symbol_group(f, g), |f: Finding| symbol_entry(f)),
{
    let ghost fs = findings@;
    let ghost p = |f: Finding| in_symbol_group(f, g);
    let ghost rd = |f: Finding| symbol_entry(f);
    let mut out: Vec<Vec<String>> = Vec::new();
    let mut i: usize = 0;
    while i < findings.len()
        invariant
            fs == findings@,
            i <= fs.len(),
            p == (|f: Finding| in_symbol_group(f, g)),
            rd == (|f: Finding| symbol_entry(f)),
            entry_texts(out@) == entries_where(fs.take(i as int), p, rd),
        decreases fs.len() - i,
    {
        let f = &findings[i];
        assert(fs.take(i + 1).drop_last() =~= fs.take(i as int));
        assert(fs.take(i + 1).last() == *f);
        if symbol_group_has(f, g) {
            let e = symbol_entry_lines(f);
            let ghost before = out@;
            out.push(e);
            assert(entry_texts(out@) =~= entry_texts(before).push(texts(e@)));
        }
        i = i + 1;
    }
    assert(fs.take(fs.len() as int) =~= fs);
    out
}

/// The symbols section of the report, as lines.
pub fn symbols_section(findings: &Vec<Finding>) -> (r: Vec<String>)
    ensures
        texts(r@) == symbols_report(findings@),
{
    let mut lines = one_line(counted_line("\n🔍 Symbols", count_in_category(findings, Category::Symbols)));
    let a = titled_lines("  Unused Symbols:", symbol_group_entries(findings, SymbolGroup::Symbols), 20, "");
    append_all(&mut lines, a);
    let b = titled_lines("\n  Unused Private Class Members (Safe to Remove):", symbol_group_entries(findings, SymbolGroup::PrivateMembers), 20, "");
    append_all(&mut lines, b);
    let c = titled_lines("\n  Unused Public Class Members (Warning: May be used externally):", symbol_group_entries(findings, SymbolGroup::PublicMembers), 20, "");
    append_all(&mut lines, c);
    let d = titled_lines("\n  Unused Enum Members:", symbol_group_entries(findings, SymbolGroup::EnumMembers), 20, "");
    append_all(&mut lines, d);
    lines
}


// ---------------------------------------------------------------------------
// Framework

/// The line of a framework-used export.
pub open spec fn framework_entry(f: Finding) -> Seq<Seq<char>> {
    match f {
        Finding::FrameworkExport { module, export_name, framework, rule, .. } => seq![
            "    '"@ + export_name@ + "' in "@ + module@ + " (used by "@ + framework@ + " via "@ + rule@ + ")"@,
        ],
        _ => Seq::empty(),
    }
}

/// The framework section: up to twenty framework-used exports.
pub open spec fn framework_report(fs: Seq<Finding>) -> Seq<Seq<char>> {
    seq![counted("\n🎯 Framework"@, category_count(fs, Category::Framework))] + titled(
        "  Framework-Used Exports:"@,
        entries_where(fs, |f: Finding| f is FrameworkExport, |f: Finding| framework_entry(f)),
        20,
        ""@,
    )
}

/// The framework section of the report, as lines.
pub fn framework_section(findings: &Vec<Finding>) -> (r: Vec<String>)
    ensures
        texts(r@) == framework_report(findings@),
{
    let ghost fs = findings@;
    let ghost p = |f: Finding| f is FrameworkExport;
    let ghost rd = |f: Finding| framework_entry(f);
    let mut out: Vec<Vec<String>> = Vec::new();
    let mut i: usize = 0;
    while i < findings.len()
        invariant
            fs == findings@,
            i <= fs.len(),
            p == (|f: Finding| f is FrameworkExport),
            rd == (|f: Finding| framework_entry(f)),
            entry_texts(out@) == entries_where(fs.take(i as int), p, rd),
        decreases fs.len() - i,
    {
        let f = &findings[i];
        assert(fs.take(i + 1).drop_last() =~= fs.take(i as int));
        assert(fs.take(i + 1).last() == *f);
        match f {
            Finding::FrameworkExport { module, export_name, framework, rule, .. } => {
                let mut l = to_owned_string("    '");
                push_str(&mut l, export_name.as_str());
                push_str(&mut l, "' in ");
                push_str(&mut l, module.as_str());
                push_str(&mut l, " (used by ");
                push_str(&mut l, framework.as_str());
                push_str(&mut l, " via ");
                push_str(&mut l, rule.as_str());
                push_str(&mut l, ")");
                let e = one_line(l);
                let ghost before = out@;
                out.push(e);
                assert(entry_texts(out@) =~= entry_texts(before).push(texts(e@)));
            },
            _ => {},
        }
        i = i + 1;
    }
    assert(fs.take(fs.len() as int) =~= fs);
    let mut lines = one_line(counted_line("\n🎯 Framework", count_in_category(findings, Category::Framework)));
    let t = titled_lines("  Framework-Used Exports:", out, 20, "");
    append_all(&mut lines, t);
    lines
}

// ---------------------------------------------------------------------------
// Imports

/// The specifiers of a type-only import as the report lists them: nothing, or
/// ` { a, b }`.
pub open spec fn specifier_list(specifiers: Seq<String>) -> Seq<char> {
    if specifiers.len() == 0 {
        ""@
    } else {
        " { "@ + joined(texts(specifiers), ", "@) + " }"@
    }
}

/// The line of an entry of the imports section.
pub open spec fn import_entry(f: Finding) -> Seq<Seq<char>> {
    match f {
        Finding::DynamicImport(info) => seq![
            "    "@ + info.from@ + " → "@ + info.to@ + " "@ + if info.creates_chunk {
                "(creates chunk)"@
            } else {
                "(external)"@
            },
        ],
        Finding::SideEffectOnlyImport { module, source, .. } => seq!["    ⚡ import '"@ + source@ + "' in "@ + module@],
        Finding::NamespaceImport { module, namespace_name, source, .. } => seq![
            "    📦 import * as "@ + namespace_name@ + " from '"@ + source@ + "' in "@ + module@,
        ],
        Finding::TypeOnlyImport { module, source, specifiers, .. } => seq![
            "    📝 import type"@ + specifier_list(specifiers@) + " from '"@ + source@ + "' in "@ + module@,
        ],
        Finding::DependencyChain { chain, depth } => seq![
            "    🔗 "@ + file_chain(chain@) + " (depth: "@ + decimal(depth as nat) + ")"@,
        ],
        _ => Seq::empty(),
    }
}

/// The groups of the imports section.
#[derive(Debug, Clone, Copy, PartialEq, Eq, Structural)]
pub enum ImportGroup {
    Dynamic,
    SideEffect,
    Namespace,
    TypeOnly,
    Chains,
}

/// The finding belongs to the group.
pub open spec fn in_import_group(f: Finding, g: ImportGroup) -> bool {
    match g {
        ImportGroup::Dynamic => f is DynamicImport,
        ImportGroup::SideEffect => f is SideEffectOnlyImport,
        ImportGroup::Namespace => f is NamespaceImport,
        ImportGroup::TypeOnly => f is TypeOnlyImport,
        ImportGroup::Chains => f is DependencyChain,
    }
}

/// The imports section: dynamic, side-effect-only, namespace and type-only
/// imports (twenty of each), then dependency chains (ten).
pub open spec fn imports_report(fs: Seq<Finding>) -> Seq<Seq<char>> {
    seq![counted("\n📥 Imports"@, category_count(fs, Category::Imports))]
        + titled("  Dynamic Imports (Code-Split Points):"@, entries_where(fs, |f: Finding| in_import_group(f, ImportGroup::Dynamic), |f: Finding| import_entry(f)), 20, ""@)
        + titled("\n  Side-Effect-Only Imports (Cannot be tree-shaken):"@, entries_where(fs, |f: Finding| in_import_group(f, ImportGroup::SideEffect), |f: Finding| import_entry(f)), 20, ""@)
        + titled("\n  Namespace Imports (import * as X):"@, entries_where(fs, |f: Finding| in_import_group(f, ImportGroup::Namespace), |f: Finding| import_entry(f)), 20, ""@)
        + titled("\n  Type-Only Imports (TypeScript import type):"@, entries_where(fs, |f: Finding| in_import_group(f, ImportGroup::TypeOnly), |f: Finding| import_entry(f)), 20, ""@)
        + titled("\n  Dependency Chains (Import Path Analysis):"@, entries_where(fs, |f: Finding| in_import_group(f, ImportGroup::Chains), |f: Finding| import_entry(f)), 10, ""@)
}

fn specifier_list_text(specifiers: &Vec<String>) -> (r: String)
    ensures
        r@ == specifier_list(specifiers@),
{
    if specifiers.len() == 0 {
        to_owned_string("")
    } else {
        let mut r = to_owned_string(" { ");
        let j = join_texts(specifiers, ", ");
        push_str(&mut r, j.as_str());
        push_str(&mut r, " }");
        r
    }
}

fn import_entry_lines(f: &Finding) -> (r: Vec<String>)
    ensures
        texts(r@) == import_entry(*f),
{
    match f {
        Finding::DynamicImport(info) => {
            let mut l = to_owned_string("    ");
            push_str(&mut l, info.from.as_str());
            push_str(&mut l, " → ");
            push_str(&mut l, info.to.as_str());
            push_str(&mut l, " ");
            if info.creates_chunk {
                push_str(&mut l, "(creates chunk)");
            } else {
                push_str(&mut l, "(external)");
            }
            one_line(l)
        },
        Finding::SideEffectOnlyImport { module, source, .. } => {
            let mut l = to_owned_string("    ⚡ import '");
            push_str(&mut l, source.as_str());
            push_str(&mut l, "' in ");
            push_str(&mut l, module.as_str());
            one_line(l)
        },
        Finding::NamespaceImport { module, namespace_name, source, .. } => {
            let mut l = to_owned_string("    📦 import * as ");
            push_str(&mut l, namespace_name.as_str());
            push_str(&mut l, " from '");
            push_str(&mut l, source.as_str());
            push_str(&mut l, "' in ");
            push_str(&mut l, module.as_str());
            one_line(l)
        },
        Finding::TypeOnlyImport { module, source, specifiers, .. } => {
            let mut l = to_owned_string("    📝 import type");
            let sp = specifier_list_text(specifiers);
            push_str(&mut l, sp.as_str());
            push_str(&mut l, " from '");
            push_str(&mut l, source.as_str());
            push_str(&mut l, "' in ");
            push_str(&mut l, module.as_str());
            one_line(l)
        },
        Finding::DependencyChain { chain, depth } => {
            let mut l = to_owned_string("    🔗 ");
            let c = file_chain_text(chain);
            push_str(&mut l, c.as_str());
            push_str(&mut l, " (depth: ");
            let d = u64_to_string(*depth as u64);
            push_str(&mut l, d.as_str());
            push_str(&mut l, ")");
            one_line(l)
        },
        _ => {
            let v: Vec<String> = Vec::new();
            assert(texts(v@) =~= Seq::<Seq<char>>::empty());
            v
        },
    }
}

fn import_group_has(f: &Finding, g: ImportGroup) -> (r: bool)
    ensures
        r == in_import_group(*f, g),
{
    match g {
        ImportGroup::Dynamic => matches!(f, Finding::DynamicImport(_)),
        ImportGroup::SideEffect => matches!(f, Finding::SideEffectOnlyImport { .. }),
        ImportGroup::Namespace => matches!(f, Finding::NamespaceImport { .. }),
        ImportGroup::TypeOnly => matches!(f, Finding::TypeOnlyImport { .. }),
        ImportGroup::Chains => matches!(f, Finding::DependencyChain { .. }),
    }
}

fn import_group_entries(findings: &Vec<Finding>, g: ImportGroup) -> (r: Vec<Vec<String>>)
    ensures
        entry_texts(r@) == entries_where(findings@, |f: Finding| in_import_group(f, g), |f: Finding| import_entry(f)),
{
    let ghost fs = findings@;
    let ghost p = |f: Finding| in_import_group(f, g);
    let ghost rd = |f: Finding| import_entry(f);
    let mut out: Vec<Vec<String>> = Vec::new();
    let mut i: usize = 0;
    while i < findings.len()
        invariant
            fs == findings@,
            i <= fs.len(),
            p == (|f: Finding| in_import_group(f, g)),
            rd == (|f: Finding| import_entry(f)),
            entry_texts(out@) == entries_where(fs.take(i as int), p, rd),
        decreases fs.len() - i,
    {
        let f = &findings[i];
        assert(fs.take(i + 1).drop_last() =~= fs.take(i as int));
        assert(fs.take(i + 1).last() == *f);
        if import_group_has(f, g) {
            let e = import_entry_lines(f);
            let ghost before = out@;
            out.push(e);
            assert(entry_texts(out@) =~= entry_texts(before).push(texts(e@)));
        }
        i = i + 1;
    }
    assert(fs.take(fs.len() as int) =~= fs);
    out
}

/// The imports section of the report, as lines.
pub fn imports_section(findings: &Vec<Finding>) -> (r: Vec<String>)
    ensures
        texts(r@) == imports_report(findings@),
{
    let mut lines = one_line(counted_line("\n📥 Imports", count_in_category(findings, Category::Imports)));
    let a = titled_lines("  Dynamic Imports (Code-Split Points):", import_group_entries(findings, ImportGroup::Dynamic), 20, "");
    append_all(&mut lines, a);
    let b = titled_lines("\n  Side-Effect-Only Imports (Cannot be tree-shaken):", import_group_entries(findings, ImportGroup::SideEffect), 20, "");
    append_all(&mut lines, b);
    let c = titled_lines("\n  Namespace Imports (import * as X):", import_group_entries(findings, ImportGroup::Namespace), 20, "");
    append_all(&mut lines, c);
    let d = titled_lines("\n  Type-Only Imports (TypeScript import type):", import_group_entries(findings, ImportGroup::TypeOnly), 20, "");
    append_all(&mut lines, d);
    let e = titled_lines("\n  Dependency Chains (Import Path Analysis):", import_group_entries(findings, ImportGroup::Chains), 10, "");
    append_all(&mut lines, e);
    lines
}

// ---------------------------------------------------------------------------
// Circular dependencies

/// The lines of the cycles among `fs`, each numbered by its place among the
/// findings of the circular category.
pub open spec fn cycle_lines(fs: Seq<Finding>) -> Seq<Seq<char>>
    decreases fs.len(),
{
    if fs.len() == 0 {
        Seq::empty()
    } else {
        cycle_lines(fs.drop_last()) + match fs.last() {
            Finding::CircularDependency(c) => seq![
                "  ⚠️  Cycle "@ + decimal(category_count(fs, Category::Circular)) + " ("@ + decimal(c.cycle@.len()) + " modules, "@
                    + format_bytes_spec(c.total_size as nat) + ")"@ + if c.all_unreachable {
                    " (all unreachable)"@
                } else {
                    ""@
                } + ":"@,
                "     "@ + file_chain(c.cycle@),
            ],
            _ => Seq::empty(),
        }
    }
}

/// The circular dependencies section: each cycle with its number, size and
/// modules.
pub open spec fn circular_report(fs: Seq<Finding>) -> Seq<Seq<char>> {
    seq![counted("\n🔄 Circular Dependencies"@, category_count(fs, Category::Circular))] + cycle_lines(fs)
}

/// The circular dependencies section of the report, as lines.
pub fn circular_section(findings: &Vec<Finding>) -> (r: Vec<String>)
    ensures
        texts(r@) == circular_report(findings@),
{
    let ghost fs = findings@;
    let mut lines = one_line(counted_line("\n🔄 Circular Dependencies", count_in_category(findings, Category::Circular)));
    let ghost head = texts(lines@);
    let mut seen: usize = 0;
    let mut i: usize = 0;
    while i < findings.len()
        invariant
            fs == findings@,
            i <= fs.len(),
            seen == category_count(fs.take(i as int), Category::Circular),
            texts(lines@) == head + cycle_lines(fs.take(i as int)),
        decreases fs.len() - i,
    {
        let f = &findings[i];
        assert(fs.take(i + 1).drop_last() =~= fs.take(i as int));
        assert(fs.take(i + 1).last() == *f);
        proof {
            lemma_category_count_bound(fs.take(i as int), Category::Circular);
        }
        match f {
            Finding::CircularDependency(c) => {
                seen = seen + 1;
                let mut l = to_owned_string("  ⚠️  Cycle ");
                let n = u64_to_string(seen as u64);
                push_str(&mut l, n.as_str());
                push_str(&mut l, " (");
                let m = u64_to_string(c.cycle.len() as u64);
                push_str(&mut l, m.as_str());
                push_str(&mut l, " modules, ");
                let size = format_bytes(c.total_size);
                push_str(&mut l, size.as_str());
                push_str(&mut l, ")");
                if c.all_unreachable {
                    push_str(&mut l, " (all unreachable)");
                }
                push_str(&mut l, ":");
                let mut l2 = to_owned_string("     ");
                let chain = file_chain_text(&c.cycle);
                push_str(&mut l2, chain.as_str());
                let ghost before = texts(lines@);
                lines.push(l);
                lines.push(l2);
                assert(texts(lines@) =~= before + seq![l@, l2@]);
                proof {
                    reveal_strlit("");
                    let t = fs.take(i + 1);
                    assert(category_count(t, Category::Circular) == seen);
                    assert(l@ =~= "  ⚠️  Cycle "@ + decimal(category_count(t, Category::Circular)) + " ("@ + decimal(c.cycle@.len()) + " modules, "@
                        + format_bytes_spec(c.total_size as nat) + ")"@ + (if c.all_unreachable {
                        " (all unreachable)"@
                    } else {
                        ""@
                    }) + ":"@);
                    assert(cycle_lines(t) == cycle_lines(fs.take(i as int)) + seq![l@, l2@]);
                    assert(texts(lines@) =~= head + cycle_lines(t));
                }
            },
            _ => {
                assert(texts(lines@) =~= head + cycle_lines(fs.take(i + 1)));
            },
        }
        i = i + 1;
    }
    assert(fs.take(fs.len() as int) =~= fs);
    lines
}


// ---------------------------------------------------------------------------
// Files

/// A size as the report shows it, in parentheses.
pub open spec fn size_text(bytes: usize) -> Seq<char> {
    " ("@ + format_bytes_spec(bytes as nat) + ")"@
}

/// The entry of a module that is safe to delete.
pub open spec fn safe_module_entry(m: ModuleSizeInfo) -> Seq<Seq<char>> {
    seq!["    "@ + m.path@ + size_text(m.size_bytes) + " ✓ Safe to delete"@]
}

/// The entry of a module to review.
pub open spec fn review_module_entry(m: ModuleSizeInfo) -> Seq<Seq<char>> {
    seq!["    "@ + m.path@ + size_text(m.size_bytes) + " ⚠️  Review carefully (has side effects)"@]
}

/// The entry of a finding of the files section.
pub open spec fn file_entry(f: Finding) -> Seq<Seq<char>> {
    match f {
        Finding::UnreachableModule { path, size, metadata } => seq![
            "    "@ + path@ + size_text(size) + " "@ + if metadata.safe_to_delete {
                "✓ Safe to delete"@
            } else if metadata.has_side_effects {
                "⚠️  Review carefully (has side effects)"@
            } else {
                "⚠️  Review carefully"@
            },
        ],
        Finding::UnreachableFile { path, size, .. } => seq!["    "@ + path@ + size_text(size)],
        Finding::DeadCodeModule { path, size } => seq![
            "    🗑️  "@ + path@ + size_text(size) + " - Strong candidate for removal"@,
        ],
        _ => Seq::empty(),
    }
}

/// The files section: the bundle size savings with the safe modules and the
/// modules to review (ten of each) when the impact was measured, else the
/// unreachable modules (twenty); then the unreachable files and the dead code
/// modules (twenty of each).
pub open spec fn files_report(fs: Seq<Finding>, impact: Option<BundleSizeImpact>) -> Seq<Seq<char>> {
    seq![counted("\n📁 Files"@, category_count(fs, Category::Files))] + match impact {
        Some(b) => seq![
            "  Total potential savings: "@ + format_bytes_spec(b.total_savings_bytes as nat) + " ("@
                + format_bytes_spec(b.safe_savings_bytes as nat) + " safe, "@ + format_bytes_spec(
                (b.total_savings_bytes - b.safe_savings_bytes) as nat,
            ) + " review)"@,
        ] + capped(
            entries_where(b.by_module@, |m: ModuleSizeInfo| !m.has_side_effects, |m: ModuleSizeInfo| safe_module_entry(m)),
            10,
            "    "@,
            " safe modules"@,
        ) + capped(
            entries_where(b.by_module@, |m: ModuleSizeInfo| m.has_side_effects, |m: ModuleSizeInfo| review_module_entry(m)),
            10,
            "    "@,
            " modules to review"@,
        ),
        None => capped(entries_where(fs, |f: Finding| f is UnreachableModule, |f: Finding| file_entry(f)), 20, "    "@, ""@),
    } + titled("\n  Unreachable Files:"@, entries_where(fs, |f: Finding| f is UnreachableFile, |f: Finding| file_entry(f)), 20, ""@)
        + titled("\n  Dead Code Modules:"@, entries_where(fs, |f: Finding| f is DeadCodeModule, |f: Finding| file_entry(f)), 20, ""@)
}

fn size_string(bytes: usize) -> (r: String)
    ensures
        r@ == size_text(bytes),
{
    let mut r = to_owned_string(" (");
    let b = format_bytes(bytes);
    push_str(&mut r, b.as_str());
    push_str(&mut r, ")");
    r
}

/// The entries of the modules of the breakdown that do (`review`) or do not
/// have side effects.
fn module_size_entries(modules: &Vec<ModuleSizeInfo>, review: bool) -> (r: Vec<Vec<String>>)
    ensures
        review ==> entry_texts(r@) == entries_where(modules@, |m: ModuleSizeInfo| m.has_side_effects, |m: ModuleSizeInfo| review_module_entry(m)),
        !review ==> entry_texts(r@) == entries_where(modules@, |m: ModuleSizeInfo| !m.has_side_effects, |m: ModuleSizeInfo| safe_module_entry(m)),
{
    let ghost ms = modules@;
    let ghost p = |m: ModuleSizeInfo| m.has_side_effects == review;
    let ghost rd = |m: ModuleSizeInfo| if review { review_module_entry(m) } else { safe_module_entry(m) };
    let mut out: Vec<Vec<String>> = Vec::new();
    let mut i: usize = 0;
    while i < modules.len()
        invariant
            ms == modules@,
            i <= ms.len(),
            p == (|m: ModuleSizeInfo| m.has_side_effects == review),
            rd == (|m: ModuleSizeInfo| if review { review_module_entry(m) } else { safe_module_entry(m) }),
            entry_texts(out@) == entries_where(ms.take(i as int), p, rd),
        decreases ms.len() - i,
    {
        let m = &modules[i];
        assert(ms.take(i + 1).drop_last() =~= ms.take(i as int));
        assert(ms.take(i + 1).last() == *m);
        if m.has_side_effects == review {
            let mut l = to_owned_string("    ");
            push_str(&mut l, m.path.as_str());
            let sz = size_string(m.size_bytes);
            push_str(&mut l, sz.as_str());
            if review {
                push_str(&mut l, " ⚠️  Review carefully (has side effects)");
            } else {
                push_str(&mut l, " ✓ Safe to delete");
            }
            let e = one_line(l);
            let ghost before = out@;
            out.push(e);
            assert(entry_texts(out@) =~= entry_texts(before).push(texts(e@)));
        }
        i = i + 1;
    }
    assert(ms.take(ms.len() as int) =~= ms);
    proof {
        if review {
            assert((|m: ModuleSizeInfo| m.has_side_effects == review) =~= (|m: ModuleSizeInfo| m.has_side_effects));
            assert((|m: ModuleSizeInfo| if review { review_module_entry(m) } else { safe_module_entry(m) }) =~= (|m: ModuleSizeInfo| review_module_entry(m)));
        } else {
            assert((|m: ModuleSizeInfo| m.has_side_effects == review) =~= (|m: ModuleSizeInfo| !m.has_side_effects));
            assert((|m: ModuleSizeInfo| if review { review_module_entry(m) } else { safe_module_entry(m) }) =~= (|m: ModuleSizeInfo| safe_module_entry(m)));
        }
    }
    out
}

/// The groups of findings of the files section.
#[derive(Debug, Clone, Copy, PartialEq, Eq, Structural)]
pub enum FileGroup {
    UnreachableModules,
    UnreachableFiles,
    DeadCode,
}

/// The finding belongs to the group.
pub open spec fn in_file_group(f: Finding, g: FileGroup) -> bool {
    match g {
        FileGroup::UnreachableModules => f is UnreachableModule,
        FileGroup::UnreachableFiles => f is UnreachableFile,
        FileGroup::DeadCode => f is DeadCodeModule,
    }
}

fn file_entry_lines(f: &Finding) -> (r: Vec<String>)
    ensures
        texts(r@) == file_entry(*f),
{
    match f {
        Finding::UnreachableModule { path, size, metadata } => {
            let mut l = to_owned_string("    ");
            push_str(&mut l, path.as_str());
            let sz = size_string(*size);
            push_str(&mut l, sz.as_str());
            push_str(&mut l, " ");
            if metadata.safe_to_delete {
                push_str(&mut l, "✓ Safe to delete");
            } else if metadata.has_side_effects {
                push_str(&mut l, "⚠️  Review carefully (has side effects)");
            } else {
                push_str(&mut l, "⚠️  Review carefully");
            }
            one_line(l)
        },
        Finding::UnreachableFile { path, size, .. } => {
            let mut l = to_owned_string("    ");
            push_str(&mut l, path.as_str());
            let sz = size_string(*size);
            push_str(&mut l, sz.as_str());
            one_line(l)
        },
        Finding::DeadCodeModule { path, size } => {
            let mut l = to_owned_string("    🗑️  ");
            push_str(&mut l, path.as_str());
            let sz = size_string(*size);
            push_str(&mut l, sz.as_str());
            push_str(&mut l, " - Strong candidate for removal");
            one_line(l)
        },
        _ => {
            let v: Vec<String> = Vec::new();
            assert(texts(v@) =~= Seq::<Seq<char>>::empty());
            v
        },
    }
}

fn file_group_has(f: &Finding, g: FileGroup) -> (r: bool)
    ensures
        r == in_file_group(*f, g),
{
    match g {
        FileGroup::UnreachableModules => matches!(f, Finding::UnreachableModule { .. }),
        FileGroup::UnreachableFiles => matches!(f, Finding::UnreachableFile { .. }),
        FileGroup::DeadCode => matches!(f, Finding::DeadCodeModule { .. }),
    }
}

fn file_group_entries(findings: &Vec<Finding>, g: FileGroup) -> (r: Vec<Vec<String>>)
    ensures
        entry_texts(r@) == entries_where(findings@, |f: Finding| in_file_group(f, g), |f: Finding| file_entry(f)),
{
    let ghost fs = findings@;
    let ghost p = |f: Finding| in_file_group(f, g);
    let ghost rd = |f: Finding| file_entry(f);
    let mut out: Vec<Vec<String>> = Vec::new();
    let mut i: usize = 0;
    while i < findings.len()
        invariant
            fs == findings@,
            i <= fs.len(),
            p == (|f: Finding| in_file_group(f, g)),
            rd == (|f: Finding| file_entry(f)),
            entry_texts(out@) == entries_where(fs.take(i as int), p, rd),
        decreases fs.len() - i,
    {
        let f = &findings[i];
        assert(fs.take(i + 1).drop_last() =~= fs.take(i as int));
        assert(fs.take(i + 1).last() == *f);
        if file_group_has(f, g) {
            let e = file_entry_lines(f);
            let ghost before = out@;
            out.push(e);
            assert(entry_texts(out@) =~= entry_texts(before).push(texts(e@)));
        }
        i = i + 1;
    }
    assert(fs.take(fs.len() as int) =~= fs);
    out
}

/// The files section of the report, as lines, given the bundle size impact of
/// the analysis (if it was measured).
pub fn files_section(findings: &Vec<Finding>, impact: &Option<BundleSizeImpact>) -> (r: Vec<String>)
    requires
        impact matches Some(b) ==> b.safe_savings_bytes <= b.total_savings_bytes,
    ensures
        texts(r@) == files_report(findings@, *impact),
{
    proof {
        assert((|f: Finding| in_file_group(f, FileGroup::UnreachableModules)) =~= (|f: Finding| f is UnreachableModule));
        assert((|f: Finding| in_file_group(f, FileGroup::UnreachableFiles)) =~= (|f: Finding| f is UnreachableFile));
        assert((|f: Finding| in_file_group(f, FileGroup::DeadCode)) =~= (|f: Finding| f is DeadCodeModule));
    }
    let mut lines = one_line(counted_line("\n📁 Files", count_in_category(findings, Category::Files)));
    match impact {
        Some(b) => {
            let mut l = to_owned_string("  Total potential savings: ");
            let t = format_bytes(b.total_savings_bytes);
            push_str(&mut l, t.as_str());
            push_str(&mut l, " (");
            let sf = format_bytes(b.safe_savings_bytes);
            push_str(&mut l, sf.as_str());
            push_str(&mut l, " safe, ");
            let rv = format_bytes(b.total_savings_bytes - b.safe_savings_bytes);
            push_str(&mut l, rv.as_str());
            push_str(&mut l, " review)");
            let ghost before = texts(lines@);
            lines.push(l);
            assert(texts(lines@) =~= before + seq![l@]);
            let safe = capped_lines(module_size_entries(&b.by_module, false), 10, "    ", " safe modules");
            append_all(&mut lines, safe);
            let review = capped_lines(module_size_entries(&b.by_module, true), 10, "    ", " modules to review");
            append_all(&mut lines, review);
        },
        None => {
            let m = capped_lines(file_group_entries(findings, FileGroup::UnreachableModules), 20, "    ", "");
            append_all(&mut lines, m);
        },
    }
    let u = titled_lines("\n  Unreachable Files:", file_group_entries(findings, FileGroup::UnreachableFiles), 20, "");
    append_all(&mut lines, u);
    let d = titled_lines("\n  Dead Code Modules:", file_group_entries(findings, FileGroup::DeadCode), 20, "");
    append_all(&mut lines, d);
    lines
}


// ---------------------------------------------------------------------------
// Grouping: exports, types and dependencies

/// The place of key `k` among the groups.
pub open spec fn key_index(groups: Seq<(Seq<char>, Seq<Seq<char>>)>, k: Seq<char>) -> Option<int>
    decreases groups.len(),
{
    if groups.len() == 0 {
        None
    } else if groups.last().0 == k {
        Some(groups.len() - 1)
    } else {
        key_index(groups.drop_last(), k)
    }
}

/// (key, value) pairs grouped by key: a group per key in the order keys first
/// appear, each with its values in order.
pub open spec fn group_by_key(pairs: Seq<(Seq<char>, Seq<char>)>) -> Seq<(Seq<char>, Seq<Seq<char>>)>
    decreases pairs.len(),
{
    if pairs.len() == 0 {
        Seq::empty()
    } else {
        let g = group_by_key(pairs.drop_last());
        let (k, v) = pairs.last();
        match key_index(g, k) {
            Some(i) => g.update(i, (k, g[i].1.push(v))),
            None => g.push((k, seq![v])),
        }
    }
}

/// The view of a list of groups.
pub open spec fn group_texts(groups: Seq<(String, Vec<String>)>) -> Seq<(Seq<char>, Seq<Seq<char>>)> {
    groups.map_values(|g: (String, Vec<String>)| (g.0@, texts(g.1@)))
}

/// The view of a list of pairs.
pub open spec fn pair_texts(pairs: Seq<(String, String)>) -> Seq<(Seq<char>, Seq<char>)> {
    pairs.map_values(|p: (String, String)| (p.0@, p.1@))
}

proof fn lemma_key_index(groups: Seq<(Seq<char>, Seq<Seq<char>>)>, k: Seq<char>)
    ensures
        key_index(groups, k) matches Some(i) ==> 0 <= i < groups.len() && groups[i].0 == k,
        key_index(groups, k) is None ==> forall|i: int| 0 <= i < groups.len() ==> groups[i].0 != k,
    decreases groups.len(),
{
    if groups.len() > 0 {
        lemma_key_index(groups.drop_last(), k);
        assert forall|i: int| 0 <= i < groups.len() - 1 implies groups.drop_last()[i] == groups[i] by {}
    }
}

/// Groups (key, value) pairs by key, keys in order of first appearance.
fn group_pairs(pairs: Vec<(String, String)>) -> (r: Vec<(String, Vec<String>)>)
    ensures
        group_texts(r@) == group_by_key(pair_texts(pairs@)),
{
    let ghost ps = pair_texts(pairs@);
    let ghost orig = pairs@;
    let mut groups: Vec<(String, Vec<String>)> = Vec::new();
    for pair in it: pairs
        invariant
            orig == it.seq(),
            ps == pair_texts(orig),
            group_texts(groups@) == group_by_key(ps.take(it.index() as int)),
            forall|a: int, b: int| 0 <= a < b < groups@.len() ==> groups@[a].0@ != groups@[b].0@,
    {
        let ghost k = it.index() as int;
        let ghost pre = ps.take(k);
        assert(ps.take(k + 1).drop_last() =~= pre);
        assert(ps.take(k + 1).last() == (pair.0@, pair.1@));
        let ghost g0 = groups@;
        let (key, value) = pair;
        let mut j: usize = 0;
        let mut found = false;
        while j < groups.len()
            invariant
                j <= groups@.len(),
                groups@.len() == g0.len(),
                !found ==> groups@ == g0,
                !found ==> forall|q: int| 0 <= q < j ==> g0[q].0@ != key@,
                found ==> exists|q: int| 0 <= q < g0.len() && g0[q].0@ == key@ && groups@[q].0 == g0[q].0
                    && groups@[q].1@ == g0[q].1@.push(value) && forall|t: int| 0 <= t < g0.len() && t != q ==> groups@[t] == g0[t],
            decreases groups@.len() - j,
        {
            if !found && str_eq_string(&groups[j].0, &key) {
                let mut entry = (String::new(), Vec::new());
                std::mem::swap(&mut entry, &mut groups[j]);
                let ghost e0 = entry;
                entry.1.push(value.clone());
                let ghost q = j as int;
                groups.set(j, entry);
                found = true;
                proof {
                    assert(e0 == g0[q]);
                }
            }
            j = j + 1;
        }
        if !found {
            let mut vals: Vec<String> = Vec::new();
            vals.push(value);
            groups.push((key, vals));
        }
        proof {
            let gt = group_texts(groups@);
            let gp = group_by_key(pre);
            assert(group_texts(g0) == gp);
            lemma_key_index(gp, key@);
            if found {
                let q = choose|q: int| 0 <= q < g0.len() && g0[q].0@ == key@ && groups@[q].0 == g0[q].0
                    && groups@[q].1@ == g0[q].1@.push(value) && forall|t: int| 0 <= t < g0.len() && t != q ==> groups@[t] == g0[t];
                assert(gp[q].0 == key@);
                let i = key_index(gp, key@).unwrap();
                assert(i == q) by {
                    if i != q {
                        assert(gp[i].0 == key@);
                        assert(g0[i].0@ == key@);
                        if i < q {
                            assert(g0[i].0@ != g0[q].0@);
                        } else {
                            assert(g0[q].0@ != g0[i].0@);
                        }
                    }
                }
                assert(texts(groups@[q].1@) =~= texts(g0[q].1@).push(value@));
                assert(gt =~= gp.update(q, (key@, gp[q].1.push(value@))));
                assert forall|a: int, b: int| 0 <= a < b < groups@.len() implies groups@[a].0@ != groups@[b].0@ by {
                    assert(groups@[a].0@ == g0[a].0@);
                    assert(groups@[b].0@ == g0[b].0@);
                }
            } else {
                assert(key_index(gp, key@) is None) by {
                    if key_index(gp, key@) is Some {
                        let i = key_index(gp, key@).unwrap();
                        assert(g0[i].0@ == key@);
                    }
                }
                assert(texts(groups@[g0.len() as int].1@) =~= seq![value@]);
                assert(gt =~= gp.push((key@, seq![value@])));
                assert forall|a: int, b: int| 0 <= a < b < groups@.len() implies groups@[a].0@ != groups@[b].0@ by {
                    if b == g0.len() {
                        assert(g0[a].0@ != key@);
                    }
                }
            }
        }
    }
    assert(ps.take(ps.len() as int) =~= ps);
    groups
}

/// Whether two strings are equal.
fn str_eq_string(a: &String, b: &String) -> (r: bool)
    ensures
        r == (a@ == b@),
{
    crate::text::str_eq(a.as_str(), b.as_str())
}

/// The lines of the groups of a grouped listing: the first ten groups as
/// `key: values`, then how many groups were left out.
pub open spec fn grouped_lines(groups: Seq<(Seq<char>, Seq<Seq<char>>)>) -> Seq<Seq<char>> {
    let shown = groups.take(if groups.len() > 10 { 10 } else { groups.len() as int });
    shown.map_values(|g: (Seq<char>, Seq<Seq<char>>)| "    "@ + g.0 + ": "@ + joined(g.1, ", "@)) + if groups.len() > 10 {
        seq!["    ... and "@ + decimal((groups.len() - 10) as nat) + " more modules"@]
    } else {
        Seq::empty()
    }
}

fn grouped_listing(groups: &Vec<(String, Vec<String>)>) -> (r: Vec<String>)
    ensures
        texts(r@) == grouped_lines(group_texts(groups@)),
{
    let ghost gs = group_texts(groups@);
    let n = groups.len();
    let limit: usize = if n > 10 { 10 } else { n };
    let ghost shown = gs.take(limit as int);
    let mut out: Vec<String> = Vec::new();
    let mut i: usize = 0;
    while i < limit
        invariant
            i <= limit,
            limit <= groups@.len(),
            gs == group_texts(groups@),
            shown == gs.take(limit as int),
            texts(out@) == shown.take(i as int).map_values(|g: (Seq<char>, Seq<Seq<char>>)| "    "@ + g.0 + ": "@ + joined(g.1, ", "@)),
        decreases limit - i,
    {
        let mut l = to_owned_string("    ");
        push_str(&mut l, groups[i].0.as_str());
        push_str(&mut l, ": ");
        let j = join_texts(&groups[i].1, ", ");
        push_str(&mut l, j.as_str());
        let ghost before = out@;
        out.push(l);
        proof {
            assert(shown[i as int] == gs[i as int]);
            assert(shown.take(i + 1) =~= shown.take(i as int).push(shown[i as int]));
            assert(texts(out@) =~= texts(before).push(l@));
        }
        i = i + 1;
    }
    assert(shown.take(limit as int) =~= shown);
    if n > 10 {
        let mut l = to_owned_string("    ... and ");
        let d = u64_to_string((n - 10) as u64);
        push_str(&mut l, d.as_str());
        push_str(&mut l, " more modules");
        let ghost before = out@;
        out.push(l);
        assert(texts(out@) =~= texts(before).push(l@));
    } else {
        proof {
            assert(texts(out@) =~= texts(out@) + Seq::<Seq<char>>::empty());
        }
    }
    out
}

/// The (module, name) pairs of the unused exports that `p` selects, in order.
pub open spec fn export_pairs(fs: Seq<Finding>, p: spec_fn(Finding) -> bool) -> Seq<(Seq<char>, Seq<char>)>
    decreases fs.len(),
{
    if fs.len() == 0 {
        Seq::empty()
    } else if p(fs.last()) {
        export_pairs(fs.drop_last(), p).push((fs.last()->UnusedExport_module@, fs.last()->UnusedExport_export_name@))
    } else {
        export_pairs(fs.drop_last(), p)
    }
}

/// A runtime (not type-only) unused export.
pub open spec fn is_runtime_export(f: Finding) -> bool {
    f is UnusedExport && !f->UnusedExport_is_type_only
}

/// A type-only unused export.
pub open spec fn is_type_export(f: Finding) -> bool {
    f is UnusedExport && f->UnusedExport_is_type_only
}

/// The first fifty pairs, grouped by module.
pub open spec fn first_fifty_grouped(pairs: Seq<(Seq<char>, Seq<char>)>) -> Seq<(Seq<char>, Seq<Seq<char>>)> {
    group_by_key(pairs.take(if pairs.len() > 50 { 50 } else { pairs.len() as int }))
}

/// The exports section: the first fifty runtime exports grouped by module, ten
/// modules shown.
pub open spec fn exports_report(fs: Seq<Finding>) -> Seq<Seq<char>> {
    let pairs = export_pairs(fs, |f: Finding| is_runtime_export(f));
    seq![counted("\n📤 Exports"@, category_count(fs, Category::Exports))] + if pairs.len() > 0 {
        grouped_lines(first_fifty_grouped(pairs))
    } else {
        Seq::empty()
    }
}

/// The types section: the first fifty type-only exports grouped by module, ten
/// modules shown.
pub open spec fn types_report(fs: Seq<Finding>) -> Seq<Seq<char>> {
    let pairs = export_pairs(fs, |f: Finding| is_type_export(f));
    seq![counted("\n📝 Types"@, category_count(fs, Category::Types))] + if pairs.len() > 0 {
        seq!["  Type-Only Exports (0 runtime impact):"@] + grouped_lines(first_fifty_grouped(pairs))
    } else {
        Seq::empty()
    }
}

/// The first fifty (module, name) pairs of the runtime or type-only exports.
fn first_export_pairs(findings: &Vec<Finding>, type_only: bool) -> (r: (Vec<(String, String)>, usize))
    ensures
        pair_texts(r.0@) == if type_only {
            export_pairs(findings@, |f: Finding| is_type_export(f))
        } else {
            export_pairs(findings@, |f: Finding| is_runtime_export(f))
        }.take(if r.1 > 50 { 50 } else { r.1 as int }),
        r.1 == if type_only {
            export_pairs(findings@, |f: Finding| is_type_export(f))
        } else {
            export_pairs(findings@, |f: Finding| is_runtime_export(f))
        }.len(),
{
    let ghost fs = findings@;
    let ghost p = |f: Finding| f is UnusedExport && f->UnusedExport_is_type_only == type_only;
    let mut out: Vec<(String, String)> = Vec::new();
    let mut count: usize = 0;
    let mut i: usize = 0;
    while i < findings.len()
        invariant
            fs == findings@,
            i <= fs.len(),
            p == (|f: Finding| f is UnusedExport && f->UnusedExport_is_type_only == type_only),
            count == export_pairs(fs.take(i as int), p).len(),
            count <= i,
            pair_texts(out@) == export_pairs(fs.take(i as int), p).take(if count > 50 { 50 } else { count as int }),
        decreases fs.len() - i,
    {
        let f = &findings[i];
        assert(fs.take(i + 1).drop_last() =~= fs.take(i as int));
        assert(fs.take(i + 1).last() == *f);
        match f {
            Finding::UnusedExport { module, export_name, is_type_only, .. } => {
                if *is_type_only == type_only {
                    let ghost prev = export_pairs(fs.take(i as int), p);
                    if count < 50 {
                        let ghost before = out@;
                        out.push((module.clone(), export_name.clone()));
                        assert(pair_texts(out@) =~= pair_texts(before).push((module@, export_name@)));
                        assert(prev.push((module@, export_name@)).take(count + 1) =~= prev.take(count as int).push((module@, export_name@)));
                        assert(prev.take(count as int) =~= prev);
                    } else {
                        assert(prev.push((module@, export_name@)).take(50) =~= prev.take(50));
                    }
                    count = count + 1;
                }
            },
            _ => {},
        }
        i = i + 1;
    }
    assert(fs.take(fs.len() as int) =~= fs);
    proof {
        if type_only {
            assert((|f: Finding| f is UnusedExport && f->UnusedExport_is_type_only == type_only) =~= (|f: Finding| is_type_export(f)));
        } else {
            assert((|f: Finding| f is UnusedExport && f->UnusedExport_is_type_only == type_only) =~= (|f: Finding| is_runtime_export(f)));
        }
    }
    (out, count)
}

/// The exports section of the report, as lines.
pub fn exports_section(findings: &Vec<Finding>) -> (r: Vec<String>)
    ensures
        texts(r@) == exports_report(findings@),
{
    let mut lines = one_line(counted_line("\n📤 Exports", count_in_category(findings, Category::Exports)));
    let (pairs, count) = first_export_pairs(findings, false);
    if count > 0 {
        let groups = group_pairs(pairs);
        let body = grouped_listing(&groups);
        append_all(&mut lines, body);
    } else {
        assert(texts(lines@) =~= texts(lines@) + Seq::<Seq<char>>::empty());
    }
    lines
}

/// The types section of the report, as lines.
pub fn types_section(findings: &Vec<Finding>) -> (r: Vec<String>)
    ensures
        texts(r@) == types_report(findings@),
{
    let mut lines = one_line(counted_line("\n📝 Types", count_in_category(findings, Category::Types)));
    let (pairs, count) = first_export_pairs(findings, true);
    if count > 0 {
        let ghost before = texts(lines@);
        lines.push(to_owned_string("  Type-Only Exports (0 runtime impact):"));
        assert(texts(lines@) =~= before + seq!["  Type-Only Exports (0 runtime impact):"@]);
        let groups = group_pairs(pairs);
        let body = grouped_listing(&groups);
        append_all(&mut lines, body);
    } else {
        assert(texts(lines@) =~= texts(lines@) + Seq::<Seq<char>>::empty());
    }
    lines
}

/// The package.json section a dependency type is declared in.
pub open spec fn dependency_section_name(t: NpmDependencyType) -> Seq<char> {
    match t {
        NpmDependencyType::Production => "dependencies"@,
        NpmDependencyType::Development => "devDependencies"@,
        NpmDependencyType::Peer => "peerDependencies"@,
        NpmDependencyType::Optional => "optionalDependencies"@,
    }
}

/// The (section, line) pairs of the unused npm dependencies, in order.
pub open spec fn dependency_pairs(fs: Seq<Finding>) -> Seq<(Seq<char>, Seq<char>)>
    decreases fs.len(),
{
    if fs.len() == 0 {
        Seq::empty()
    } else {
        match fs.last() {
            Finding::UnusedNpmDependency { package, version, dep_type } => dependency_pairs(fs.drop_last()).push(
                (
                    dependency_section_name(dep_type),
                    "    💡 "@ + package@ + "@"@ + version@ + " - Suggestion: Remove from package.json"@,
                ),
            ),
            _ => dependency_pairs(fs.drop_last()),
        }
    }
}

/// The lines of the dependency groups, one after the other: a header with the
/// group's size, then ten of its lines.
pub open spec fn dependency_group_lines(groups: Seq<(Seq<char>, Seq<Seq<char>>)>) -> Seq<Seq<char>>
    decreases groups.len(),
{
    if groups.len() == 0 {
        Seq::empty()
    } else {
        let g = groups.last();
        dependency_group_lines(groups.drop_last()) + seq![counted("  "@ + g.0, g.1.len())] + capped(
            g.1.map_values(|l: Seq<char>| seq![l]),
            10,
            "    "@,
            ""@,
        )
    }
}

/// The dependencies section: the unused npm dependencies grouped by the
/// package.json section that declares them, ten of each.
pub open spec fn dependencies_report(fs: Seq<Finding>) -> Seq<Seq<char>> {
    seq![counted("\n📦 Dependencies"@, category_count(fs, Category::Dependencies))] + dependency_group_lines(
        group_by_key(dependency_pairs(fs)),
    )
}

fn dependency_section_text(t: NpmDependencyType) -> (r: &'static str)
    ensures
        r@ == dependency_section_name(t),
{
    match t {
        NpmDependencyType::Production => "dependencies",
        NpmDependencyType::Development => "devDependencies",
        NpmDependencyType::Peer => "peerDependencies",
        NpmDependencyType::Optional => "optionalDependencies",
    }
}

/// The (section, line) pairs of the unused npm dependencies.
fn dependency_pair_list(findings: &Vec<Finding>) -> (r: Vec<(String, String)>)
    ensures
        pair_texts(r@) == dependency_pairs(findings@),
{
    let ghost fs = findings@;
    let mut pairs: Vec<(String, String)> = Vec::new();
    let mut i: usize = 0;
    while i < findings.len()
        invariant
            fs == findings@,
            i <= fs.len(),
            pair_texts(pairs@) == dependency_pairs(fs.take(i as int)),
        decreases fs.len() - i,
    {
        let f = &findings[i];
        assert(fs.take(i + 1).drop_last() =~= fs.take(i as int));
        assert(fs.take(i + 1).last() == *f);
        match f {
            Finding::UnusedNpmDependency { package, version, dep_type } => {
                let mut l = to_owned_string("    💡 ");
                push_str(&mut l, package.as_str());
                push_str(&mut l, "@");
                push_str(&mut l, version.as_str());
                push_str(&mut l, " - Suggestion: Remove from package.json");
                let ghost before = pairs@;
                pairs.push((to_owned_string(dependency_section_text(*dep_type)), l));
                assert(pair_texts(pairs@) =~= pair_texts(before).push((dependency_section_name(*dep_type), l@)));
            },
            _ => {},
        }
        i = i + 1;
    }
    assert(fs.take(fs.len() as int) =~= fs);
    pairs
}

/// One group of the dependencies section: its header and ten of its lines.
fn dependency_group(key: &String, values: &Vec<String>) -> (r: Vec<String>)
    ensures
        texts(r@) == seq![counted("  "@ + key@, values@.len())] + capped(
            texts(values@).map_values(|l: Seq<char>| seq![l]),
            10,
            "    "@,
            ""@,
        ),
{
    let mut h = to_owned_string("  ");
    push_str(&mut h, key.as_str());
    let header = counted_line(h.as_str(), values.len());
    let ghost vs = texts(values@);
    let mut entries: Vec<Vec<String>> = Vec::new();
    let mut k: usize = 0;
    while k < values.len()
        invariant
            k <= values@.len(),
            vs == texts(values@),
            entry_texts(entries@) == vs.take(k as int).map_values(|l: Seq<char>| seq![l]),
        decreases values@.len() - k,
    {
        let e = one_line(values[k].clone());
        let ghost before = entries@;
        entries.push(e);
        assert(entry_texts(entries@) =~= entry_texts(before).push(texts(e@)));
        assert(vs.take(k + 1) =~= vs.take(k as int).push(vs[k as int]));
        k = k + 1;
    }
    assert(vs.take(vs.len() as int) =~= vs);
    let body = capped_lines(entries, 10, "    ", "");
    let mut lines = one_line(header);
    append_all(&mut lines, body);
    lines
}

/// The dependencies section of the report, as lines.
pub fn dependencies_section(findings: &Vec<Finding>) -> (r: Vec<String>)
    ensures
        texts(r@) == dependencies_report(findings@),
{
    let pairs = dependency_pair_list(findings);
    let groups = group_pairs(pairs);
    let ghost gs = group_texts(groups@);
    let mut lines = one_line(counted_line("\n📦 Dependencies", count_in_category(findings, Category::Dependencies)));
    let ghost head = texts(lines@);
    let mut j: usize = 0;
    while j < groups.len()
        invariant
            j <= groups@.len(),
            gs == group_texts(groups@),
            texts(lines@) == head + dependency_group_lines(gs.take(j as int)),
        decreases groups@.len() - j,
    {
        let part = dependency_group(&groups[j].0, &groups[j].1);
        append_all(&mut lines, part);
        proof {
            assert(gs[j as int] == (groups@[j as int].0@, texts(groups@[j as int].1@)));
            assert(gs.take(j + 1).drop_last() =~= gs.take(j as int));
            assert(gs.take(j + 1).last() == gs[j as int]);
            assert(texts(lines@) =~= head + dependency_group_lines(gs.take(j + 1)));
        }
        j = j + 1;
    }
    assert(gs.take(gs.len() as int) =~= gs);
    lines
}


// ---------------------------------------------------------------------------
// The whole report

/// The section of category `c`.
pub open spec fn section_of(fs: Seq<Finding>, c: Category, impact: Option<BundleSizeImpact>) -> Seq<Seq<char>> {
    match c {
        Category::Files => files_report(fs, impact),
        Category::Exports => exports_report(fs),
        Category::Types => types_report(fs),
        Category::Symbols => symbols_report(fs),
        Category::Dependencies => dependencies_report(fs),
        Category::Imports => imports_report(fs),
        Category::Circular => circular_report(fs),
        Category::Quality => quality_report(fs),
        Category::Framework => framework_report(fs),
    }
}

/// The section of one category, as lines.
pub fn category_section(findings: &Vec<Finding>, c: Category, impact: &Option<BundleSizeImpact>) -> (r: Vec<String>)
    requires
        impact matches Some(b) ==> b.safe_savings_bytes <= b.total_savings_bytes,
    ensures
        texts(r@) == section_of(findings@, c, *impact),
{
    match c {
        Category::Files => files_section(findings, impact),
        Category::Exports => exports_section(findings),
        Category::Types => types_section(findings),
        Category::Symbols => symbols_section(findings),
        Category::Dependencies => dependencies_section(findings),
        Category::Imports => imports_section(findings),
        Category::Circular => circular_section(findings),
        Category::Quality => quality_section(findings),
        Category::Framework => framework_section(findings),
    }
}

/// The summary line of each category that has findings, in the order given.
pub open spec fn category_summary(fs: Seq<Finding>, cats: Seq<Category>) -> Seq<Seq<char>>
    decreases cats.len(),
{
    if cats.len() == 0 {
        Seq::empty()
    } else {
        let c = cats.last();
        category_summary(fs, cats.drop_last()) + if category_count(fs, c) > 0 {
            seq!["  "@ + display_name_of(c) + ": "@ + decimal(category_count(fs, c))]
        } else {
            Seq::empty()
        }
    }
}

/// The section of each category that has findings, in the order given.
pub open spec fn category_sections(fs: Seq<Finding>, cats: Seq<Category>, impact: Option<BundleSizeImpact>) -> Seq<Seq<char>>
    decreases cats.len(),
{
    if cats.len() == 0 {
        Seq::empty()
    } else {
        let c = cats.last();
        category_sections(fs, cats.drop_last(), impact) + if category_count(fs, c) > 0 {
            section_of(fs, c, impact)
        } else {
            Seq::empty()
        }
    }
}

/// The full name of a smell type, as the statistics list it.
pub open spec fn smell_type_title(t: CodeSmellType) -> Seq<char> {
    match t {
        CodeSmellType::LongFunction => "Long Function"@,
        CodeSmellType::TooManyParameters => "Too Many Parameters"@,
        CodeSmellType::LargeClass => "Large Class"@,
        _ => smell_type_name(t),
    }
}

/// The code quality statistics lines.
pub open spec fn quality_stats_lines(stats: Option<CodeSmellStats>) -> Seq<Seq<char>> {
    match stats {
        Some(q) => seq!["\nCode Quality Statistics:"@, "  Total code smells: "@ + decimal(q.total_smells as nat)] + if q.by_type@.len() > 0 {
            seq!["  By type:"@] + q.by_type@.map_values(|e: (CodeSmellType, usize)| "    "@ + smell_type_title(e.0) + ": "@ + decimal(e.1 as nat))
        } else {
            Seq::empty()
        },
        None => Seq::empty(),
    }
}

/// The analysis results report: the overall statistics, the number of
/// findings of each category, the section of each category that has findings,
/// then the code quality, class member, enum, dependency coverage and symbol
/// statistics that were gathered. `coverage_percent` is the dependency
/// coverage percentage already written with one decimal.
pub open spec fn results_report(stats: Statistics, fs: Seq<Finding>, coverage_percent: Seq<char>) -> Seq<Seq<char>> {
    results_header(stats) + category_summary(fs, all_categories()) + seq![""@] + category_sections(
        fs,
        all_categories(),
        stats.bundle_size_impact,
    ) + results_footer(stats, coverage_percent)
}

fn labelled_number(label: &str, n: u64) -> (r: String)
    ensures
        r@ == label@ + decimal(n as nat),
{
    let mut l = to_owned_string(label);
    let d = u64_to_string(n);
    push_str(&mut l, d.as_str());
    l
}

fn smell_type_title_text(t: CodeSmellType) -> (r: &'static str)
    ensures
        r@ == smell_type_title(t),
{
    match t {
        CodeSmellType::LongFunction => "Long Function",
        CodeSmellType::TooManyParameters => "Too Many Parameters",
        CodeSmellType::LargeClass => "Large Class",
        _ => smell_type_text(t),
    }
}

fn quality_stats_text(stats: &Option<CodeSmellStats>) -> (r: Vec<String>)
    ensures
        texts(r@) == quality_stats_lines(*stats),
{
    match stats {
        Some(q) => {
            let mut lines = one_line(to_owned_string("\nCode Quality Statistics:"));
            let t = labelled_number("  Total code smells: ", q.total_smells as u64);
            let ghost before = texts(lines@);
            lines.push(t);
            assert(texts(lines@) =~= before + seq![t@]);
            if q.by_type.len() > 0 {
                let ghost mid = texts(lines@);
                lines.push(to_owned_string("  By type:"));
                let ghost bt = q.by_type@;
                let mut k: usize = 0;
                while k < q.by_type.len()
                    invariant
                        k <= bt.len(),
                        bt == q.by_type@,
                        texts(lines@) == mid + seq!["  By type:"@] + bt.take(k as int).map_values(
                            |e: (CodeSmellType, usize)| "    "@ + smell_type_title(e.0) + ": "@ + decimal(e.1 as nat),
                        ),
                    decreases bt.len() - k,
                {
                    let (t, c) = q.by_type[k];
                    let mut l = to_owned_string("    ");
                    push_str(&mut l, smell_type_title_text(t));
                    push_str(&mut l, ": ");
                    let d = u64_to_string(c as u64);
                    push_str(&mut l, d.as_str());
                    let ghost b2 = texts(lines@);
                    lines.push(l);
                    assert(bt.take(k + 1) =~= bt.take(k as int).push(bt[k as int]));
                    assert(texts(lines@) =~= b2.push(l@));
                    k = k + 1;
                }
                assert(bt.take(bt.len() as int) =~= bt);
            } else {
                assert(texts(lines@) =~= texts(lines@) + Seq::<Seq<char>>::empty());
            }
            lines
        },
        None => {
            let v: Vec<String> = Vec::new();
            assert(texts(v@) =~= Seq::<Seq<char>>::empty());
            v
        },
    }
}

/// The header of the results report.
pub open spec fn results_header(stats: Statistics) -> Seq<Seq<char>> {
    seq![
        "\nDanny Analysis Results"@,
        "======================\n"@,
        "Statistics:"@,
        "  Total modules: "@ + decimal(stats.total_modules as nat),
        "  Total dependencies: "@ + decimal(stats.total_dependencies as nat),
        "  External dependencies: "@ + decimal(stats.external_dependencies as nat),
        "  Frameworks detected: "@ + joined(texts(stats.frameworks_detected@), ", "@),
        "  Duration: "@ + decimal(stats.duration_ms as nat) + "ms\n"@,
        "Findings by Category:"@,
    ]
}

/// The statistics that close the results report.
pub open spec fn results_footer(stats: Statistics, coverage_percent: Seq<char>) -> Seq<Seq<char>> {
    quality_stats_lines(stats.code_quality_stats) + match stats.class_member_stats {
        Some(c) => seq![
            "  Class members: "@ + decimal(c.total_members as nat) + " total ("@ + decimal(c.unused_private as nat)
                + " unused private, "@ + decimal(c.unused_public as nat) + " unused public)"@,
        ],
        None => Seq::empty(),
    } + match stats.enum_stats {
        Some(e) => seq![
            "  Enums: "@ + decimal(e.total_enums as nat) + " total ("@ + decimal(e.total_members as nat) + " members, "@
                + decimal(e.unused_members as nat) + " unused)"@,
        ],
        None => Seq::empty(),
    } + match stats.dependency_coverage_stats {
        Some(d) => seq![
            "  Dependency coverage: "@ + coverage_percent + "% ("@ + decimal(d.total_used as nat) + " used / "@ + decimal(
                d.total_declared as nat,
            ) + " declared)"@,
        ],
        None => Seq::empty(),
    } + match stats.symbol_statistics {
        Some(y) => seq!["  Total symbols: "@ + decimal(y.total_symbols as nat) + " ("@ + decimal(y.unused_symbols as nat) + " unused)"@],
        None => Seq::empty(),
    } + seq![""@]
}

fn header_lines(stats: &Statistics) -> (r: Vec<String>)
    ensures
        texts(r@) == results_header(*stats),
{
    let mut lines: Vec<String> = Vec::new();
    lines.push(to_owned_string("\nDanny Analysis Results"));
    lines.push(to_owned_string("======================\n"));
    lines.push(to_owned_string("Statistics:"));
    lines.push(labelled_number("  Total modules: ", stats.total_modules as u64));
    lines.push(labelled_number("  Total dependencies: ", stats.total_dependencies as u64));
    lines.push(labelled_number("  External dependencies: ", stats.external_dependencies as u64));
    let mut fw = to_owned_string("  Frameworks detected: ");
    let j = join_texts(&stats.frameworks_detected, ", ");
    push_str(&mut fw, j.as_str());
    lines.push(fw);
    let mut du = labelled_number("  Duration: ", stats.duration_ms);
    push_str(&mut du, "ms\n");
    lines.push(du);
    lines.push(to_owned_string("Findings by Category:"));
    assert(texts(lines@) =~= results_header(*stats));
    lines
}

fn summary_lines(findings: &Vec<Finding>) -> (r: Vec<String>)
    ensures
        texts(r@) == category_summary(findings@, all_categories()),
{
    let ghost fs = findings@;
    let mut lines: Vec<String> = Vec::new();
    let cats = Category::all();
    let mut k: usize = 0;
    while k < cats.len()
        invariant
            k <= cats@.len(),
            cats@ == all_categories(),
            fs == findings@,
            texts(lines@) == category_summary(fs, cats@.take(k as int)),
        decreases cats@.len() - k,
    {
        let c = cats[k];
        let n = count_in_category(findings, c);
        assert(cats@.take(k + 1).drop_last() =~= cats@.take(k as int));
        assert(cats@.take(k + 1).last() == c);
        if n > 0 {
            let mut l = to_owned_string("  ");
            push_str(&mut l, c.display_name());
            push_str(&mut l, ": ");
            let d = u64_to_string(n as u64);
            push_str(&mut l, d.as_str());
            let ghost b = texts(lines@);
            lines.push(l);
            assert(texts(lines@) =~= b.push(l@));
        } else {
            assert(texts(lines@) =~= category_summary(fs, cats@.take(k + 1)));
        }
        k = k + 1;
    }
    assert(cats@.take(cats@.len() as int) =~= cats@);
    lines
}

fn section_lines(findings: &Vec<Finding>, impact: &Option<BundleSizeImpact>) -> (r: Vec<String>)
    requires
        impact matches Some(b) ==> b.safe_savings_bytes <= b.total_savings_bytes,
    ensures
        texts(r@) == category_sections(findings@, all_categories(), *impact),
{
    let ghost fs = findings@;
    let mut lines: Vec<String> = Vec::new();
    let cats = Category::all();
    let mut k: usize = 0;
    assert(texts(lines@) =~= Seq::<Seq<char>>::empty());
    while k < cats.len()
        invariant
            k <= cats@.len(),
            cats@ == all_categories(),
            fs == findings@,
            impact matches Some(b) ==> b.safe_savings_bytes <= b.total_savings_bytes,
            texts(lines@) == category_sections(fs, cats@.take(k as int), *impact),
        decreases cats@.len() - k,
    {
        let c = cats[k];
        let n = count_in_category(findings, c);
        assert(cats@.take(k + 1).drop_last() =~= cats@.take(k as int));
        assert(cats@.take(k + 1).last() == c);
        if n > 0 {
            let part = category_section(findings, c, impact);
            append_all(&mut lines, part);
        } else {
            assert(texts(lines@) =~= category_sections(fs, cats@.take(k + 1), *impact));
        }
        k = k + 1;
    }
    assert(cats@.take(cats@.len() as int) =~= cats@);
    lines
}

fn footer_lines(stats: &Statistics, coverage_percent: &str) -> (r: Vec<String>)
    ensures
        texts(r@) == results_footer(*stats, coverage_percent@),
{
    let mut lines = quality_stats_text(&stats.code_quality_stats);
    let ghost q = texts(lines@);
    let mut tail: Vec<String> = Vec::new();
    match &stats.class_member_stats {
        Some(c) => {
            let mut l = labelled_number("  Class members: ", c.total_members as u64);
            push_str(&mut l, " total (");
            let a = u64_to_string(c.unused_private as u64);
            push_str(&mut l, a.as_str());
            push_str(&mut l, " unused private, ");
            let b = u64_to_string(c.unused_public as u64);
            push_str(&mut l, b.as_str());
            push_str(&mut l, " unused public)");
            tail.push(l);
        },
        None => {},
    }
    let ghost t1 = texts(tail@);
    match &stats.enum_stats {
        Some(e) => {
            let mut l = labelled_number("  Enums: ", e.total_enums as u64);
            push_str(&mut l, " total (");
            let a = u64_to_string(e.total_members as u64);
            push_str(&mut l, a.as_str());
            push_str(&mut l, " members, ");
            let b = u64_to_string(e.unused_members as u64);
            push_str(&mut l, b.as_str());
            push_str(&mut l, " unused)");
            tail.push(l);
        },
        None => {},
    }
    let ghost t2 = texts(tail@);
    match &stats.dependency_coverage_stats {
        Some(d) => {
            let mut l = to_owned_string("  Dependency coverage: ");
            push_str(&mut l, coverage_percent);
            push_str(&mut l, "% (");
            let a = u64_to_string(d.total_used as u64);
            push_str(&mut l, a.as_str());
            push_str(&mut l, " used / ");
            let b = u64_to_string(d.total_declared as u64);
            push_str(&mut l, b.as_str());
            push_str(&mut l, " declared)");
            tail.push(l);
        },
        None => {},
    }
    let ghost t3 = texts(tail@);
    match &stats.symbol_statistics {
        Some(y) => {
            let mut l = labelled_number("  Total symbols: ", y.total_symbols as u64);
            push_str(&mut l, " (");
            let a = u64_to_string(y.unused_symbols as u64);
            push_str(&mut l, a.as_str());
            push_str(&mut l, " unused)");
            tail.push(l);
        },
        None => {},
    }
    tail.push(to_owned_string(""));
    proof {
        let cl = match &stats.class_member_stats {
            Some(c) => seq![
                "  Class members: "@ + decimal(c.total_members as nat) + " total ("@ + decimal(c.unused_private as nat)
                    + " unused private, "@ + decimal(c.unused_public as nat) + " unused public)"@,
            ],
            None => Seq::<Seq<char>>::empty(),
        };
        assert(t1 =~= cl);
        let el = match &stats.enum_stats {
            Some(e) => seq![
                "  Enums: "@ + decimal(e.total_enums as nat) + " total ("@ + decimal(e.total_members as nat) + " members, "@
                    + decimal(e.unused_members as nat) + " unused)"@,
            ],
            None => Seq::<Seq<char>>::empty(),
        };
        assert(t2 =~= cl + el);
        let dl = match &stats.dependency_coverage_stats {
            Some(d) => seq![
                "  Dependency coverage: "@ + coverage_percent@ + "% ("@ + decimal(d.total_used as nat) + " used / "@ + decimal(
                    d.total_declared as nat,
                ) + " declared)"@,
            ],
            None => Seq::<Seq<char>>::empty(),
        };
        assert(t3 =~= cl + el + dl);
        let sl = match &stats.symbol_statistics {
            Some(y) => seq!["  Total symbols: "@ + decimal(y.total_symbols as nat) + " ("@ + decimal(y.unused_symbols as nat) + " unused)"@],
            None => Seq::<Seq<char>>::empty(),
        };
        assert(texts(tail@) =~= cl + el + dl + sl + seq![""@]);
    }
    append_all(&mut lines, tail);
    lines
}

/// The results report, as lines.
pub fn results_lines(stats: &Statistics, findings: &Vec<Finding>, coverage_percent: &str) -> (r: Vec<String>)
    requires
        stats.bundle_size_impact matches Some(b) ==> b.safe_savings_bytes <= b.total_savings_bytes,
    ensures
        texts(r@) == results_report(*stats, findings@, coverage_percent@),
{
    let mut lines = header_lines(stats);
    let summary = summary_lines(findings);
    append_all(&mut lines, summary);
    let blank = one_line(to_owned_string(""));
    append_all(&mut lines, blank);
    let sections = section_lines(findings, &stats.bundle_size_impact);
    append_all(&mut lines, sections);
    let footer = footer_lines(stats, coverage_percent);
    append_all(&mut lines, footer);
    lines
}

} // verus!
