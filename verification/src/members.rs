//! Conversions of the module graph's unused class and enum members, dependency
//! chains and npm dependency records into findings and statistics.
use vstd::prelude::*;
use crate::analyzers::{ClassMemberAnalyzer, DependencyChainAnalyzer, EnumMemberAnalyzer, NpmDependencyAnalyzer};
use crate::findings::{
    ClassMemberKind, DependencyCoverageStats, EnumValue, Finding, NpmDependencyType, SymbolSpan,
    TypeCoverage,
};
use crate::paths::{is_virtual, is_virtual_path};
use crate::text::{push_str, to_owned_string};

verus! {

/// An unused class or enum member reported by the module graph, with the
/// module it lives in.
#[derive(Debug, Clone)]
pub struct UnusedMember {
    pub name: String,
    /// The member's kind, for class members.
    pub member_kind: ClassMemberKind,
    /// Identifier of the containing module, as it is shown in messages.
    pub module_id: String,
    /// Path of the containing module, `None` when the graph has no such module.
    pub module_location: Option<String>,
    pub line: u32,
    pub column: u32,
    pub offset: u32,
    /// The owning class recorded in the member's metadata, if any.
    pub class_name: Option<String>,
    /// The value recorded in the member's metadata, for enum members.
    pub value: Option<EnumValue>,
}

/// One module on a dependency chain.
#[derive(Debug, Clone)]
pub struct ChainModule {
    /// Identifier of the module, as it is shown in messages.
    pub module_id: String,
    /// Path of the module, `None` when the graph has no such module.
    pub location: Option<String>,
}

/// A dependency chain reported by the module graph.
#[derive(Debug, Clone)]
pub struct ChainRecord {
    pub path: Vec<ChainModule>,
    pub depth: usize,
}

/// An npm dependency declared in package.json and never imported.
#[derive(Debug, Clone)]
pub struct UnusedDependency {
    pub package: String,
    pub version: String,
    pub dep_type: NpmDependencyType,
}

/// Declared and used npm dependencies, overall and per dependency type;
/// `coverage_percentage_bits` are the bits of the `f64` percentage of
/// declared dependencies in use.
#[derive(Debug, Clone)]
pub struct DependencyCoverage {
    pub total_declared: usize,
    pub total_used: usize,
    pub total_unused: usize,
    pub coverage_percentage_bits: u64,
    pub by_type: Vec<(NpmDependencyType, TypeCoverage)>,
}

/// `out` holds, in order, one finding related by `rel` to each item that
/// `keep` keeps.
pub open spec fn kept_related<A>(
    items: Seq<A>,
    out: Seq<Finding>,
    keep: spec_fn(A) -> bool,
    rel: spec_fn(Finding, A) -> bool,
) -> bool
    decreases items.len(),
{
    if items.len() == 0 {
        out.len() == 0
    } else if keep(items.last()) {
        &&& out.len() > 0
        &&& rel(out.last(), items.last())
        &&& kept_related(items.drop_last(), out.drop_last(), keep, rel)
    } else {
        kept_related(items.drop_last(), out, keep, rel)
    }
}

pub(crate) proof fn lemma_kept_push<A>(
    items: Seq<A>,
    out: Seq<Finding>,
    keep: spec_fn(A) -> bool,
    rel: spec_fn(Finding, A) -> bool,
    a: A,
    f: Finding,
)
    requires
        kept_related(items, out, keep, rel),
        keep(a),
        rel(f, a),
    ensures
        kept_related(items.push(a), out.push(f), keep, rel),
{
    assert(items.push(a).drop_last() =~= items);
    assert(out.push(f).drop_last() =~= out);
}

pub(crate) proof fn lemma_kept_skip<A>(
    items: Seq<A>,
    out: Seq<Finding>,
    keep: spec_fn(A) -> bool,
    rel: spec_fn(Finding, A) -> bool,
    a: A,
)
    requires
        kept_related(items, out, keep, rel),
        !keep(a),
    ensures
        kept_related(items.push(a), out, keep, rel),
{
    assert(items.push(a).drop_last() =~= items);
}

/// The member is reported: its module is a real (non-virtual) one and its
/// name does not start with an underscore.
pub open spec fn member_kept(m: UnusedMember) -> bool {
    &&& m.module_location matches Some(p) && !is_virtual(p@)
    &&& !(m.name@.len() > 0 && m.name@[0] == '_')
}

/// The span of a member, in the file of its module.
pub open spec fn member_span(m: UnusedMember) -> SymbolSpan {
    SymbolSpan { file: m.module_location.unwrap(), line: m.line, column: m.column, offset: m.offset }
}

/// The members of each group, each paired with the group's owner, in order.
pub open spec fn member_pairs(groups: Seq<(String, Vec<UnusedMember>)>) -> Seq<(String, UnusedMember)>
    decreases groups.len(),
{
    if groups.len() == 0 {
        Seq::empty()
    } else {
        member_pairs(groups.drop_last()) + groups.last().1@.map_values(
            |m: UnusedMember| (groups.last().0, m),
        )
    }
}

/// `msg` reports the first of `modules` (by identifier) whose module is
/// missing, among those for which `missing` holds.
pub open spec fn first_missing<A>(
    items: Seq<A>,
    missing: spec_fn(A) -> bool,
    id: spec_fn(A) -> Seq<char>,
    msg: Seq<char>,
) -> bool {
    exists|i: int|
        0 <= i < items.len() && missing(#[trigger] items[i]) && msg == "Module not found: "@ + id(
            items[i],
        ) && forall|j: int| 0 <= j < i ==> !missing(#[trigger] items[j])
}

/// The outcome of converting items: the first item whose module is missing
/// fails the conversion with its identifier; otherwise the kept items are
/// converted in order.
pub open spec fn conversion_outcome<A>(
    items: Seq<A>,
    missing: spec_fn(A) -> bool,
    id: spec_fn(A) -> Seq<char>,
    keep: spec_fn(A) -> bool,
    rel: spec_fn(Finding, A) -> bool,
    r: Result<Vec<Finding>, String>,
) -> bool {
    match r {
        Ok(found) => (forall|i: int| 0 <= i < items.len() ==> !missing(#[trigger] items[i]))
            && kept_related(items, found@, keep, rel),
        Err(msg) => first_missing(items, missing, id, msg@),
    }
}

/// The member's module is missing from the graph.
pub open spec fn member_missing(m: UnusedMember) -> bool {
    m.module_location is None
}

/// The text of a missing-module error.
pub(crate) fn module_not_found(id: &String) -> (r: String)
    ensures
        r@ == "Module not found: "@ + id@,
{
    let mut r = to_owned_string("Module not found: ");
    push_str(&mut r, id.as_str());
    r
}

/// Whether a name starts with an underscore.
fn starts_with_underscore(name: &str) -> (r: bool)
    ensures
        r == (name@.len() > 0 && name@[0] == '_'),
{
    if name.unicode_len() == 0 {
        false
    } else {
        name.get_char(0) == '_'
    }
}

/// Whether the member is reported.
fn keep_member(m: &UnusedMember) -> (r: bool)
    requires
        m.module_location is Some,
    ensures
        r == member_kept(*m),
{
    match &m.module_location {
        Some(p) => !is_virtual_path(p.as_str()) && !starts_with_underscore(m.name.as_str()),
        None => false,
    }
}

/// `f` reports the unused private member `pair.1` of class `pair.0`.
pub open spec fn reports_private_member(f: Finding, pair: (String, UnusedMember)) -> bool {
    f == Finding::UnusedPrivateClassMember {
        module: pair.1.module_location.unwrap(),
        class_name: pair.0,
        member_name: pair.1.name,
        member_kind: pair.1.member_kind,
        span: member_span(pair.1),
    }
}

/// `f` reports the unused public class member `m`, under the class its
/// metadata names or `Unknown`.
pub open spec fn reports_public_member(f: Finding, m: UnusedMember) -> bool {
    match f {
        Finding::UnusedPublicClassMember { module, class_name, member_name, member_kind, span } => {
            &&& module == m.module_location.unwrap()
            &&& class_name@ == match m.class_name {
                Some(c) => c@,
                None => "Unknown"@,
            }
            &&& member_name == m.name
            &&& member_kind == m.member_kind
            &&& span == member_span(m)
        },
        _ => false,
    }
}

/// `f` reports the unused member `pair.1` of enum `pair.0`.
pub open spec fn reports_enum_member(f: Finding, pair: (String, UnusedMember)) -> bool {
    f == Finding::UnusedEnumMember {
        module: pair.1.module_location.unwrap(),
        enum_name: pair.0,
        member_name: pair.1.name,
        value: pair.1.value,
        span: member_span(pair.1),
    }
}

/// A copy of an optional enum value.
fn copy_enum_value(v: &Option<EnumValue>) -> (r: Option<EnumValue>)
    ensures
        r == *v,
{
    match v {
        Some(EnumValue::Number(n)) => Some(EnumValue::Number(*n)),
        Some(EnumValue::String(s)) => Some(EnumValue::String(s.clone())),
        Some(EnumValue::Computed) => Some(EnumValue::Computed),
        None => None,
    }
}

fn span_of(m: &UnusedMember) -> (s: SymbolSpan)
    requires
        m.module_location is Some,
    ensures
        s == member_span(*m),
{
    SymbolSpan {
        file: m.module_location.as_ref().unwrap().clone(),
        line: m.line,
        column: m.column,
        offset: m.offset,
    }
}

/// Converts grouped members, checking every member's module and keeping the
/// reported ones; `as_finding` says how a kept member of a group becomes a
/// finding.
fn convert_grouped(groups: &Vec<(String, Vec<UnusedMember>)>, private_class: bool) -> (r: Result<Vec<Finding>, String>)
    ensures
        conversion_outcome(
            member_pairs(groups@),
            |p: (String, UnusedMember)| member_missing(p.1),
            |p: (String, UnusedMember)| p.1.module_id@,
            |p: (String, UnusedMember)| member_kept(p.1),
            if private_class {
                |f: Finding, p: (String, UnusedMember)| reports_private_member(f, p)
            } else {
                |f: Finding, p: (String, UnusedMember)| reports_enum_member(f, p)
            },
            r,
        ),
{
    let ghost missing = |p: (String, UnusedMember)| member_missing(p.1);
    let ghost id = |p: (String, UnusedMember)| p.1.module_id@;
    let ghost keep = |p: (String, UnusedMember)| member_kept(p.1);
    let ghost rel = if private_class {
        |f: Finding, p: (String, UnusedMember)| reports_private_member(f, p)
    } else {
        |f: Finding, p: (String, UnusedMember)| reports_enum_member(f, p)
    };
    let mut findings: Vec<Finding> = Vec::new();
    let mut g: usize = 0;
    while g < groups.len()
        invariant
            g <= groups@.len(),
            forall|i: int| 0 <= i < member_pairs(groups@.take(g as int)).len() ==> !missing(#[trigger] member_pairs(groups@.take(g as int))[i]),
            kept_related(member_pairs(groups@.take(g as int)), findings@, keep, rel),
            missing == (|p: (String, UnusedMember)| member_missing(p.1)),
            id == (|p: (String, UnusedMember)| p.1.module_id@),
            keep == (|p: (String, UnusedMember)| member_kept(p.1)),
            rel == (if private_class {
                |f: Finding, p: (String, UnusedMember)| reports_private_member(f, p)
            } else {
                |f: Finding, p: (String, UnusedMember)| reports_enum_member(f, p)
            }),
        decreases groups@.len() - g,
    {
        let owner = &groups[g].0;
        let members = &groups[g].1;
        let ghost done = member_pairs(groups@.take(g as int));
        let ghost row = members@.map_values(|m: UnusedMember| (*owner, m));
        proof {
            assert(groups@.take(g + 1).drop_last() =~= groups@.take(g as int));
            assert(member_pairs(groups@.take(g + 1)) == done + row);
        }
        let mut k: usize = 0;
        while k < members.len()
            invariant
                g < groups@.len(),
                k <= members@.len(),
                row == members@.map_values(|m: UnusedMember| (*owner, m)),
                done == member_pairs(groups@.take(g as int)),
                member_pairs(groups@.take(g + 1)) == done + row,
                forall|i: int| 0 <= i < (done + row.take(k as int)).len() ==> !missing(#[trigger] (done + row.take(k as int))[i]),
                kept_related(done + row.take(k as int), findings@, keep, rel),
                missing == (|p: (String, UnusedMember)| member_missing(p.1)),
                id == (|p: (String, UnusedMember)| p.1.module_id@),
                keep == (|p: (String, UnusedMember)| member_kept(p.1)),
                rel == (if private_class {
                    |f: Finding, p: (String, UnusedMember)| reports_private_member(f, p)
                } else {
                    |f: Finding, p: (String, UnusedMember)| reports_enum_member(f, p)
                }),
            decreases members@.len() - k,
        {
            let m = &members[k];
            let ghost pair = (*owner, *m);
            proof {
                assert(row[k as int] == pair);
                assert((done + row.take(k + 1)) =~= (done + row.take(k as int)).push(pair));
            }
            if m.module_location.is_none() {
                let msg = module_not_found(&m.module_id);
                proof {
                    let pairs = member_pairs(groups@);
                    assert(groups@.take(groups@.len() as int) =~= groups@);
                    lemma_pairs_prefix(groups@, g as int);
                    let i = done.len() + k;
                    assert(pairs.subrange(0, (done.len() + row.len()) as int) == done + row);
                    let total = (done.len() + row.len()) as int;
                    assert(pairs.subrange(0, total)[i] == pairs[i]);
                    assert((done + row)[i] == row[k as int]);
                    assert(pairs[i] == pair);
                    assert forall|j: int| 0 <= j < i implies !missing(#[trigger] pairs[j]) by {
                        assert(pairs.subrange(0, total)[j] == pairs[j]);
                        if j < done.len() {
                            assert((done + row)[j] == done[j]);
                            assert((done + row.take(k as int))[j] == done[j]);
                        } else {
                            assert((done + row)[j] == row[j - done.len()]);
                            assert((done + row.take(k as int))[j] == row.take(k as int)[j - done.len()]);
                        }
                        assert(pairs[j] == (done + row.take(k as int))[j]);
                    }
                    assert(missing(pairs[i]) && msg@ == "Module not found: "@ + id(pairs[i]));
                }
                return Err(msg);
            }
            if keep_member(m) {
                let f = if private_class {
                    Finding::UnusedPrivateClassMember {
                        module: m.module_location.as_ref().unwrap().clone(),
                        class_name: owner.clone(),
                        member_name: m.name.clone(),
                        member_kind: m.member_kind,
                        span: span_of(m),
                    }
                } else {
                    Finding::UnusedEnumMember {
                        module: m.module_location.as_ref().unwrap().clone(),
                        enum_name: owner.clone(),
                        member_name: m.name.clone(),
                        value: copy_enum_value(&m.value),
                        span: span_of(m),
                    }
                };
                proof {
                    if private_class {
                        assert(reports_private_member(f, pair));
                    } else {
                        assert(reports_enum_member(f, pair));
                    }
                    lemma_kept_push(done + row.take(k as int), findings@, keep, rel, pair, f);
                }
                findings.push(f);
            } else {
                proof {
                    lemma_kept_skip(done + row.take(k as int), findings@, keep, rel, pair);
                }
            }
            k = k + 1;
        }
        proof {
            assert(row.take(members@.len() as int) =~= row);
        }
        g = g + 1;
    }
    proof {
        assert(groups@.take(groups@.len() as int) =~= groups@);
    }
    Ok(findings)
}

/// The pairs of a prefix of the groups begin the pairs of all groups.
proof fn lemma_pairs_prefix(groups: Seq<(String, Vec<UnusedMember>)>, g: int)
    requires
        0 <= g < groups.len(),
    ensures
        member_pairs(groups).len() >= member_pairs(groups.take(g + 1)).len(),
        member_pairs(groups).subrange(0, member_pairs(groups.take(g + 1)).len() as int) == member_pairs(groups.take(g + 1)),
    decreases groups.len(),
{
    if g + 1 < groups.len() {
        lemma_pairs_prefix(groups.drop_last(), g);
        assert(groups.drop_last().take(g + 1) =~= groups.take(g + 1));
        let a = member_pairs(groups.drop_last());
        let b = groups.last().1@.map_values(|m: UnusedMember| (groups.last().0, m));
        assert(member_pairs(groups) == a + b);
        assert((a + b).subrange(0, member_pairs(groups.take(g + 1)).len() as int) =~= a.subrange(0, member_pairs(groups.take(g + 1)).len() as int));
    } else {
        assert(groups.take(g + 1) =~= groups);
        assert(member_pairs(groups).subrange(0, member_pairs(groups).len() as int) =~= member_pairs(groups));
    }
}

impl ClassMemberAnalyzer {
    /// Converts the unused private members of each class into findings,
    /// skipping members of virtual modules and underscore-prefixed names.
    /// Fails on the first member whose module is missing from the graph.
    pub fn convert_private_members(unused_by_class: &Vec<(String, Vec<UnusedMember>)>) -> (r: Result<Vec<Finding>, String>)
        ensures
            conversion_outcome(
                member_pairs(unused_by_class@),
                |p: (String, UnusedMember)| member_missing(p.1),
                |p: (String, UnusedMember)| p.1.module_id@,
                |p: (String, UnusedMember)| member_kept(p.1),
                |f: Finding, p: (String, UnusedMember)| reports_private_member(f, p),
                r,
            ),
    {
        convert_grouped(unused_by_class, true)
    }

    /// Converts unused public class members into findings, filed under the
    /// class their metadata names (or `Unknown`), skipping members of virtual
    /// modules and underscore-prefixed names. Fails on the first member whose
    /// module is missing from the graph.
    pub fn convert_public_members(unused_symbols: &Vec<UnusedMember>) -> (r: Result<Vec<Finding>, String>)
        ensures
            conversion_outcome(
                unused_symbols@,
                |m: UnusedMember| member_missing(m),
                |m: UnusedMember| m.module_id@,
                |m: UnusedMember| member_kept(m),
                |f: Finding, m: UnusedMember| reports_public_member(f, m),
                r,
            ),
    {
        let ghost missing = |m: UnusedMember| member_missing(m);
        let ghost id = |m: UnusedMember| m.module_id@;
        let ghost keep = |m: UnusedMember| member_kept(m);
        let ghost rel = |f: Finding, m: UnusedMember| reports_public_member(f, m);
        let mut findings: Vec<Finding> = Vec::new();
        let mut k: usize = 0;
        while k < unused_symbols.len()
            invariant
                k <= unused_symbols@.len(),
                forall|i: int| 0 <= i < k ==> !missing(#[trigger] unused_symbols@[i]),
                kept_related(unused_symbols@.take(k as int), findings@, keep, rel),
                missing == (|m: UnusedMember| member_missing(m)),
                id == (|m: UnusedMember| m.module_id@),
                keep == (|m: UnusedMember| member_kept(m)),
                rel == (|f: Finding, m: UnusedMember| reports_public_member(f, m)),
            decreases unused_symbols@.len() - k,
        {
            let m = &unused_symbols[k];
            proof {
                assert(unused_symbols@.take(k + 1) =~= unused_symbols@.take(k as int).push(*m));
            }
            if m.module_location.is_none() {
                let msg = module_not_found(&m.module_id);
                proof {
                    assert(missing(unused_symbols@[k as int]));
                }
                return Err(msg);
            }
            if keep_member(m) {
                let class_name = match &m.class_name {
                    Some(c) => c.clone(),
                    None => to_owned_string("Unknown"),
                };
                let f = Finding::UnusedPublicClassMember {
                    module: m.module_location.as_ref().unwrap().clone(),
                    class_name,
                    member_name: m.name.clone(),
                    member_kind: m.member_kind,
                    span: span_of(m),
                };
                proof {
                    assert(reports_public_member(f, *m));
                    lemma_kept_push(unused_symbols@.take(k as int), findings@, keep, rel, *m, f);
                }
                findings.push(f);
            } else {
                proof {
                    lemma_kept_skip(unused_symbols@.take(k as int), findings@, keep, rel, *m);
                }
            }
            k = k + 1;
        }
        proof {
            assert(unused_symbols@.take(unused_symbols@.len() as int) =~= unused_symbols@);
        }
        Ok(findings)
    }
}

impl EnumMemberAnalyzer {
    /// Converts the unused members of each enum into findings, skipping
    /// members of virtual modules and underscore-prefixed names. Fails on the
    /// first member whose module is missing from the graph.
    pub fn convert_unused_members(unused_by_enum: &Vec<(String, Vec<UnusedMember>)>) -> (r: Result<Vec<Finding>, String>)
        ensures
            conversion_outcome(
                member_pairs(unused_by_enum@),
                |p: (String, UnusedMember)| member_missing(p.1),
                |p: (String, UnusedMember)| p.1.module_id@,
                |p: (String, UnusedMember)| member_kept(p.1),
                |f: Finding, p: (String, UnusedMember)| reports_enum_member(f, p),
                r,
            ),
    {
        convert_grouped(unused_by_enum, false)
    }
}

impl NpmDependencyAnalyzer {
    /// One finding for each unused npm dependency, in order.
    pub fn convert_unused_dependencies(unused: &Vec<UnusedDependency>) -> (r: Vec<Finding>)
        ensures
            r@.len() == unused@.len(),
            forall|k: int|
                0 <= k < unused@.len() ==> #[trigger] r@[k] == (Finding::UnusedNpmDependency {
                    package: unused@[k].package,
                    version: unused@[k].version,
                    dep_type: unused@[k].dep_type,
                }),
    {
        let mut out: Vec<Finding> = Vec::new();
        let mut k: usize = 0;
        while k < unused.len()
            invariant
                k <= unused@.len(),
                out@.len() == k,
                forall|j: int|
                    0 <= j < k ==> #[trigger] out@[j] == (Finding::UnusedNpmDependency {
                        package: unused@[j].package,
                        version: unused@[j].version,
                        dep_type: unused@[j].dep_type,
                    }),
            decreases unused@.len() - k,
        {
            let dep = &unused[k];
            out.push(
                Finding::UnusedNpmDependency {
                    package: dep.package.clone(),
                    version: dep.version.clone(),
                    dep_type: dep.dep_type,
                },
            );
            k = k + 1;
        }
        out
    }

    /// The coverage statistics of the declared npm dependencies.
    pub fn convert_coverage_stats(coverage: &DependencyCoverage) -> (r: DependencyCoverageStats)
        ensures
            r.total_declared == coverage.total_declared,
            r.total_used == coverage.total_used,
            r.total_unused == coverage.total_unused,
            r.coverage_percentage_bits == coverage.coverage_percentage_bits,
            r.by_type@ == coverage.by_type@,
    {
        let mut by_type: Vec<(NpmDependencyType, TypeCoverage)> = Vec::new();
        let mut k: usize = 0;
        while k < coverage.by_type.len()
            invariant
                k <= coverage.by_type@.len(),
                by_type@ == coverage.by_type@.take(k as int),
            decreases coverage.by_type@.len() - k,
        {
            let (t, c) = &coverage.by_type[k];
            let entry = (*t, TypeCoverage { declared: c.declared, used: c.used, unused: c.unused });
            proof {
                assert(coverage.by_type@.take(k + 1) =~= coverage.by_type@.take(k as int).push(entry));
            }
            by_type.push(entry);
            k = k + 1;
        }
        proof {
            assert(coverage.by_type@.take(coverage.by_type@.len() as int) =~= coverage.by_type@);
        }
        DependencyCoverageStats {
            total_declared: coverage.total_declared,
            total_used: coverage.total_used,
            total_unused: coverage.total_unused,
            coverage_percentage_bits: coverage.coverage_percentage_bits,
            by_type,
        }
    }
}

/// The modules of all chains, in order.
pub open spec fn chain_modules(chains: Seq<ChainRecord>) -> Seq<ChainModule>
    decreases chains.len(),
{
    if chains.len() == 0 {
        Seq::empty()
    } else {
        chain_modules(chains.drop_last()) + chains.last().path@
    }
}

/// The paths of the real (non-virtual) modules of a chain, in order.
pub open spec fn chain_locations(path: Seq<ChainModule>) -> Seq<String>
    decreases path.len(),
{
    if path.len() == 0 {
        Seq::empty()
    } else {
        let rest = chain_locations(path.drop_last());
        match path.last().location {
            Some(p) => if is_virtual(p@) {
                rest
            } else {
                rest.push(p)
            },
            None => rest,
        }
    }
}

/// A chain is reported when at least two of its modules are real.
pub open spec fn chain_kept(c: ChainRecord) -> bool {
    chain_locations(c.path@).len() >= 2
}

/// `f` reports chain `c`: its real modules and its depth.
pub open spec fn reports_chain(f: Finding, c: ChainRecord) -> bool {
    match f {
        Finding::DependencyChain { chain, depth } => chain@ == chain_locations(c.path@) && depth == c.depth,
        _ => false,
    }
}

proof fn lemma_chain_modules_prefix(chains: Seq<ChainRecord>, g: int)
    requires
        0 <= g < chains.len(),
    ensures
        chain_modules(chains).len() >= chain_modules(chains.take(g + 1)).len(),
        chain_modules(chains).subrange(0, chain_modules(chains.take(g + 1)).len() as int) == chain_modules(chains.take(g + 1)),
    decreases chains.len(),
{
    if g + 1 < chains.len() {
        lemma_chain_modules_prefix(chains.drop_last(), g);
        assert(chains.drop_last().take(g + 1) =~= chains.take(g + 1));
        let a = chain_modules(chains.drop_last());
        let b = chains.last().path@;
        assert(chain_modules(chains) == a + b);
        assert((a + b).subrange(0, chain_modules(chains.take(g + 1)).len() as int) =~= a.subrange(0, chain_modules(chains.take(g + 1)).len() as int));
    } else {
        assert(chains.take(g + 1) =~= chains);
        assert(chain_modules(chains).subrange(0, chain_modules(chains).len() as int) =~= chain_modules(chains));
    }
}

impl DependencyChainAnalyzer {
    /// Converts dependency chains into findings: each chain becomes the paths
    /// of its real (non-virtual) modules, reported when there are at least two.
    /// Fails on the first module, over all chains, that is missing from the graph.
    pub fn convert_chains(chains: &Vec<ChainRecord>) -> (r: Result<Vec<Finding>, String>)
        ensures
            match r {
                Ok(found) => (forall|i: int| 0 <= i < chain_modules(chains@).len() ==> (#[trigger] chain_modules(chains@)[i]).location is Some)
                    && kept_related(chains@, found@, |c: ChainRecord| chain_kept(c), |f: Finding, c: ChainRecord| reports_chain(f, c)),
                Err(msg) => first_missing(chain_modules(chains@), |m: ChainModule| m.location is None, |m: ChainModule| m.module_id@, msg@),
            },
    {
        let ghost missing = |m: ChainModule| m.location is None;
        let ghost id = |m: ChainModule| m.module_id@;
        let ghost keep = |c: ChainRecord| chain_kept(c);
        let ghost rel = |f: Finding, c: ChainRecord| reports_chain(f, c);
        let mut findings: Vec<Finding> = Vec::new();
        let mut g: usize = 0;
        while g < chains.len()
            invariant
                g <= chains@.len(),
                forall|i: int| 0 <= i < chain_modules(chains@.take(g as int)).len() ==> !missing(#[trigger] chain_modules(chains@.take(g as int))[i]),
                kept_related(chains@.take(g as int), findings@, keep, rel),
                missing == (|m: ChainModule| m.location is None),
                id == (|m: ChainModule| m.module_id@),
                keep == (|c: ChainRecord| chain_kept(c)),
                rel == (|f: Finding, c: ChainRecord| reports_chain(f, c)),
            decreases chains@.len() - g,
        {
            let chain = &chains[g];
            let ghost done = chain_modules(chains@.take(g as int));
            let ghost row = chain.path@;
            proof {
                assert(chains@.take(g + 1).drop_last() =~= chains@.take(g as int));
                assert(chain_modules(chains@.take(g + 1)) == done + row);
            }
            let mut path_chain: Vec<String> = Vec::new();
            let mut k: usize = 0;
            while k < chain.path.len()
                invariant
                    g < chains@.len(),
                    *chain == chains@[g as int],
                    k <= row.len(),
                    row == chain.path@,
                    done == chain_modules(chains@.take(g as int)),
                    chain_modules(chains@.take(g + 1)) == done + row,
                    forall|i: int| 0 <= i < (done + row.take(k as int)).len() ==> !missing(#[trigger] (done + row.take(k as int))[i]),
                    path_chain@ == chain_locations(row.take(k as int)),
                    missing == (|m: ChainModule| m.location is None),
                    id == (|m: ChainModule| m.module_id@),
                decreases row.len() - k,
            {
                let m = &chain.path[k];
                proof {
                    assert(row.take(k + 1) =~= row.take(k as int).push(*m));
                    assert(row.take(k + 1).drop_last() =~= row.take(k as int));
                    assert((done + row.take(k + 1)) =~= (done + row.take(k as int)).push(*m));
                }
                match &m.location {
                    None => {
                        let msg = module_not_found(&m.module_id);
                        proof {
                            let all = chain_modules(chains@);
                            lemma_chain_modules_prefix(chains@, g as int);
                            let i = done.len() + k;
                            let total = (done.len() + row.len()) as int;
                            assert(all.subrange(0, total)[i] == all[i]);
                            assert((done + row)[i] == row[k as int]);
                            assert(all[i] == *m);
                            assert forall|j: int| 0 <= j < i implies !missing(#[trigger] all[j]) by {
                                assert(all.subrange(0, total)[j] == all[j]);
                                if j < done.len() {
                                    assert((done + row)[j] == done[j]);
                                    assert((done + row.take(k as int))[j] == done[j]);
                                } else {
                                    assert((done + row)[j] == row[j - done.len()]);
                                    assert((done + row.take(k as int))[j] == row.take(k as int)[j - done.len()]);
                                }
                            }
                            assert(missing(all[i]) && msg@ == "Module not found: "@ + id(all[i]));
                        }
                        return Err(msg);
                    },
                    Some(loc) => {
                        if !is_virtual_path(loc.as_str()) {
                            path_chain.push(loc.clone());
                        }
                    },
                }
                k = k + 1;
            }
            proof {
                assert(row.take(row.len() as int) =~= row);
                assert(chains@.take(g + 1) =~= chains@.take(g as int).push(*chain));
            }
            if path_chain.len() >= 2 {
                let f = Finding::DependencyChain { chain: path_chain, depth: chain.depth };
                proof {
                    lemma_kept_push(chains@.take(g as int), findings@, keep, rel, *chain, f);
                }
                findings.push(f);
            } else {
                proof {
                    lemma_kept_skip(chains@.take(g as int), findings@, keep, rel, *chain);
                }
            }
            g = g + 1;
        }
        proof {
            assert(chains@.take(chains@.len() as int) =~= chains@);
        }
        Ok(findings)
    }
}

} // verus!
