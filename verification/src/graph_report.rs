//! Turning a snapshot of the bundler's module graph into findings: modules and
//! their dependencies, unused exports, unreachable modules and the exports kept
//! alive by a framework; then the safety of unreachable modules, the dynamic
//! imports, the import graph searched for cycles, and the summary statistics.
use vstd::prelude::*;
use crate::findings::{
    Dependency, ExportKind, Finding, SafetyAssessment, SourceLocation, UnreachableModuleMetadata,
};
use crate::members::{kept_related, lemma_kept_push, lemma_kept_skip, conversion_outcome, module_not_found, ChainRecord};
use crate::findings::{SymbolKind, SymbolSpan};
use crate::paths::{is_virtual, is_virtual_path, path_eq, path_components_eq};
use crate::text::to_owned_string;
use crate::toml_config::{quality_config_error, CodeQualityConfig};
use crate::analyzers::{SideEffectAnalyzer, is_config_path, paths_contain};
use crate::circular::{keys_distinct, reports_cycles, has_cycle_longer_than, CircularDependencyDetector};
use crate::findings::CircularDependency;
use crate::error::Error;
use crate::filtering::{count_where, lemma_count_where_bound};
use crate::findings::{Statistics, SymbolStats, BundleSizeImpact, ClassMemberStats, EnumStats, DependencyCoverageStats};
use crate::findings::{CodeSmellStats, CodeSmellType, SmellSeverity, AnalysisError, ErrorSeverity};

verus! {

broadcast use vstd::seq_lib::group_seq_properties;

/// One import of a module, as the module graph records it.
#[derive(Debug, Clone)]
pub struct ImportRecord {
    /// The specifier written in the source.
    pub source: String,
    /// Identifier of the module the import resolved to, if any.
    pub resolved_to: Option<String>,
    /// `import()` rather than a static import.
    pub is_dynamic: bool,
    /// The import leaves the project (an npm package or a builtin).
    pub is_external: bool,
}

/// One module of the module graph.
#[derive(Debug, Clone)]
pub struct ModuleRecord {
    /// Identifier of the module in the graph.
    pub id: String,
    pub path: String,
    pub imports: Vec<ImportRecord>,
    /// Size of the module's source, in bytes.
    pub original_size: usize,
    pub has_side_effects: bool,
    pub is_entry: bool,
}

/// An unused export, with the path of the module that declares it.
#[derive(Debug, Clone)]
pub struct ExportRecord {
    pub module_file: String,
    pub name: String,
    pub kind: ExportKind,
    pub span: SourceLocation,
    pub is_type_only: bool,
}

/// An export that a framework uses by convention, with the path of its module
/// and the framework it was attributed to.
#[derive(Debug, Clone)]
pub struct FrameworkExportRecord {
    pub module_file: String,
    pub export_name: String,
    pub framework: String,
}

/// The dependency an import stands for: it resolves to the identifier of its
/// target, or to its own specifier when it did not resolve.
pub open spec fn dependency_of(imp: ImportRecord) -> Dependency {
    Dependency {
        specifier: imp.source,
        resolved: match imp.resolved_to {
            Some(id) => id,
            None => imp.source,
        },
        is_external: imp.is_external,
        is_dynamic: imp.is_dynamic,
    }
}

/// The dependencies of a module, one per import, in order.
pub open spec fn dependencies_of(m: ModuleRecord) -> Seq<Dependency> {
    m.imports@.map_values(|imp: ImportRecord| dependency_of(imp))
}

/// The dependency findings of a module: one per dependency whose resolution is
/// not a virtual module, in order.
pub open spec fn dependency_findings(from: String, deps: Seq<Dependency>) -> Seq<Finding>
    decreases deps.len(),
{
    if deps.len() == 0 {
        Seq::empty()
    } else {
        let rest = dependency_findings(from, deps.drop_last());
        let d = deps.last();
        if is_virtual(d.resolved@) {
            rest
        } else {
            rest.push(Finding::Dependency { from, to: d.resolved, specifier: d.specifier, is_external: d.is_external })
        }
    }
}

/// `f` is the module finding of `m`: its path, its dependencies, no metadata.
pub open spec fn is_module_finding(f: Finding, m: ModuleRecord) -> bool {
    match f {
        Finding::Module { path, dependencies, metadata } => {
            &&& path == m.path
            &&& dependencies@ == dependencies_of(m)
            &&& metadata@.len() == 0
        },
        _ => false,
    }
}

/// The findings a real module contributes: its module finding, then its
/// dependency findings.
pub open spec fn module_block(b: Seq<Finding>, m: ModuleRecord) -> bool {
    &&& b.len() == 1 + dependency_findings(m.path, dependencies_of(m)).len()
    &&& is_module_finding(b[0], m)
    &&& b.drop_first() == dependency_findings(m.path, dependencies_of(m))
}

/// `out` is the module and dependency findings of `modules`: a block per module
/// whose path is not virtual, in order.
pub open spec fn module_findings(modules: Seq<ModuleRecord>, out: Seq<Finding>) -> bool
    decreases modules.len(),
{
    if modules.len() == 0 {
        out.len() == 0
    } else {
        let m = modules.last();
        if is_virtual(m.path@) {
            module_findings(modules.drop_last(), out)
        } else {
            let n = 1 + dependency_findings(m.path, dependencies_of(m)).len();
            &&& out.len() >= n
            &&& module_block(out.subrange(out.len() - n, out.len() as int), m)
            &&& module_findings(modules.drop_last(), out.subrange(0, out.len() - n))
        }
    }
}

/// `f` reports the unused export `e`.
pub open spec fn reports_export(f: Finding, e: ExportRecord) -> bool {
    f == Finding::UnusedExport {
        module: e.module_file,
        export_name: e.name,
        kind: e.kind,
        span: Some(e.span),
        is_type_only: e.is_type_only,
        explanation: None,
    }
}

/// `f` reports the unreachable module `m`, its safety still to be assessed.
pub open spec fn reports_unreachable(f: Finding, m: ModuleRecord) -> bool {
    match f {
        Finding::UnreachableModule { path, size, metadata } => {
            &&& path == m.path
            &&& size == m.original_size
            &&& metadata.has_side_effects == m.has_side_effects
            &&& metadata.size_bytes == m.original_size
            &&& !metadata.safe_to_delete
            &&& metadata.safety_assessment matches SafetyAssessment::Unsafe(why)
            &&& why@ == "Pending analysis"@
        },
        _ => false,
    }
}

/// `f` reports the framework-used export `e`, under the built-in rule.
pub open spec fn reports_framework_export(f: Finding, e: FrameworkExportRecord) -> bool {
    match f {
        Finding::FrameworkExport { module, export_name, framework, rule, explanation } => {
            &&& module == e.module_file
            &&& export_name == e.export_name
            &&& framework == e.framework
            &&& rule@ == "Built-in"@
            &&& explanation is None
        },
        _ => false,
    }
}

/// The findings of the module graph: module blocks, then unused exports, then
/// unreachable modules, then framework-used exports; anything in a virtual
/// module is left out.
pub open spec fn graph_findings(
    modules: Seq<ModuleRecord>,
    exports: Seq<ExportRecord>,
    unreachable: Seq<ModuleRecord>,
    framework_exports: Seq<FrameworkExportRecord>,
    out: Seq<Finding>,
) -> bool {
    exists|a: int, b: int, c: int|
        #![trigger out.subrange(0, a), out.subrange(a, b), out.subrange(b, c)]
        0 <= a <= b <= c <= out.len() && module_findings(modules, out.subrange(0, a))
            && kept_related(
            exports,
            out.subrange(a, b),
            |e: ExportRecord| !is_virtual(e.module_file@),
            |f: Finding, e: ExportRecord| reports_export(f, e),
        ) && kept_related(
            unreachable,
            out.subrange(b, c),
            |m: ModuleRecord| !is_virtual(m.path@),
            |f: Finding, m: ModuleRecord| reports_unreachable(f, m),
        ) && kept_related(
            framework_exports,
            out.subrange(c, out.len() as int),
            |e: FrameworkExportRecord| !is_virtual(e.module_file@),
            |f: Finding, e: FrameworkExportRecord| reports_framework_export(f, e),
        )
}

/// A copy of an optional string.
fn copy_opt(s: &Option<String>) -> (r: Option<String>)
    ensures
        r == *s,
{
    match s {
        Some(x) => Some(x.clone()),
        None => None,
    }
}

/// The dependency an import stands for.
fn to_dependency(imp: &ImportRecord) -> (d: Dependency)
    ensures
        d == dependency_of(*imp),
{
    let resolved = match &imp.resolved_to {
        Some(id) => id.clone(),
        None => imp.source.clone(),
    };
    Dependency { specifier: imp.source.clone(), resolved, is_external: imp.is_external, is_dynamic: imp.is_dynamic }
}

/// The module finding and dependency findings of one real module.
fn module_block_of(m: &ModuleRecord) -> (b: Vec<Finding>)
    ensures
        module_block(b@, *m),
{
    let mut deps: Vec<Dependency> = Vec::new();
    let mut k: usize = 0;
    while k < m.imports.len()
        invariant
            k <= m.imports@.len(),
            deps@ == m.imports@.take(k as int).map_values(|imp: ImportRecord| dependency_of(imp)),
        decreases m.imports@.len() - k,
    {
        let d = to_dependency(&m.imports[k]);
        deps.push(d);
        assert(m.imports@.take(k + 1) =~= m.imports@.take(k as int).push(m.imports@[k as int]));
        k = k + 1;
    }
    assert(m.imports@.take(m.imports@.len() as int) =~= m.imports@);
    let ghost all = dependencies_of(*m);
    let mut rest: Vec<Finding> = Vec::new();
    let mut j: usize = 0;
    while j < deps.len()
        invariant
            j <= deps@.len(),
            deps@ == all,
            rest@ == dependency_findings(m.path, all.take(j as int)),
        decreases deps@.len() - j,
    {
        let d = &deps[j];
        assert(all.take(j + 1).drop_last() =~= all.take(j as int));
        if !is_virtual_path(d.resolved.as_str()) {
            rest.push(
                Finding::Dependency {
                    from: m.path.clone(),
                    to: d.resolved.clone(),
                    specifier: d.specifier.clone(),
                    is_external: d.is_external,
                },
            );
        }
        j = j + 1;
    }
    assert(all.take(all.len() as int) =~= all);
    let mut b: Vec<Finding> = Vec::new();
    b.push(Finding::Module { path: m.path.clone(), dependencies: deps, metadata: Vec::new() });
    let ghost first = b@;
    b.append(&mut rest);
    assert(b@.drop_first() =~= dependency_findings(m.path, all));
    b
}

/// Appending a real module's block extends the module findings.
proof fn lemma_module_findings_push(ms: Seq<ModuleRecord>, out: Seq<Finding>, m: ModuleRecord, b: Seq<Finding>)
    requires
        module_findings(ms, out),
        !is_virtual(m.path@),
        module_block(b, m),
    ensures
        module_findings(ms.push(m), out + b),
{
    let o = out + b;
    let n = b.len() as int;
    assert(ms.push(m).drop_last() =~= ms);
    assert(o.subrange(o.len() - n, o.len() as int) =~= b);
    assert(o.subrange(0, o.len() - n) =~= out);
}

/// The module and dependency findings of the graph's modules.
fn module_findings_of(modules: &Vec<ModuleRecord>) -> (out: Vec<Finding>)
    ensures
        module_findings(modules@, out@),
{
    let mut out: Vec<Finding> = Vec::new();
    let mut i: usize = 0;
    while i < modules.len()
        invariant
            i <= modules@.len(),
            module_findings(modules@.take(i as int), out@),
        decreases modules@.len() - i,
    {
        let m = &modules[i];
        assert(modules@.take(i + 1) =~= modules@.take(i as int).push(*m));
        assert(modules@.take(i + 1).drop_last() =~= modules@.take(i as int));
        if !is_virtual_path(m.path.as_str()) {
            let mut b = module_block_of(m);
            proof {
                lemma_module_findings_push(modules@.take(i as int), out@, *m, b@);
            }
            out.append(&mut b);
        }
        i = i + 1;
    }
    assert(modules@.take(modules@.len() as int) =~= modules@);
    out
}


/// The unused-export findings of the exports outside virtual modules.
fn export_findings_of(exports: &Vec<ExportRecord>) -> (out: Vec<Finding>)
    ensures
        kept_related(
            exports@,
            out@,
            |e: ExportRecord| !is_virtual(e.module_file@),
            |f: Finding, e: ExportRecord| reports_export(f, e),
        ),
{
    let ghost keep = |e: ExportRecord| !is_virtual(e.module_file@);
    let ghost rel = |f: Finding, e: ExportRecord| reports_export(f, e);
    let mut out: Vec<Finding> = Vec::new();
    let mut i: usize = 0;
    while i < exports.len()
        invariant
            i <= exports@.len(),
            keep == (|e: ExportRecord| !is_virtual(e.module_file@)),
            rel == (|f: Finding, e: ExportRecord| reports_export(f, e)),
            kept_related(exports@.take(i as int), out@, keep, rel),
        decreases exports@.len() - i,
    {
        let e = &exports[i];
        assert(exports@.take(i + 1) =~= exports@.take(i as int).push(*e));
        if !is_virtual_path(e.module_file.as_str()) {
            let f = Finding::UnusedExport {
                module: e.module_file.clone(),
                export_name: e.name.clone(),
                kind: e.kind,
                span: Some(SourceLocation { file: e.span.file.clone(), start: e.span.start, end: e.span.end }),
                is_type_only: e.is_type_only,
                explanation: None,
            };
            proof {
                lemma_kept_push(exports@.take(i as int), out@, keep, rel, *e, f);
            }
            out.push(f);
        } else {
            proof {
                lemma_kept_skip(exports@.take(i as int), out@, keep, rel, *e);
            }
        }
        i = i + 1;
    }
    assert(exports@.take(exports@.len() as int) =~= exports@);
    out
}

/// The unreachable-module findings of the modules outside virtual paths, their
/// safety still pending.
fn unreachable_findings_of(unreachable: &Vec<ModuleRecord>) -> (out: Vec<Finding>)
    ensures
        kept_related(
            unreachable@,
            out@,
            |m: ModuleRecord| !is_virtual(m.path@),
            |f: Finding, m: ModuleRecord| reports_unreachable(f, m),
        ),
{
    let ghost keep = |m: ModuleRecord| !is_virtual(m.path@);
    let ghost rel = |f: Finding, m: ModuleRecord| reports_unreachable(f, m);
    let mut out: Vec<Finding> = Vec::new();
    let mut i: usize = 0;
    while i < unreachable.len()
        invariant
            i <= unreachable@.len(),
            keep == (|m: ModuleRecord| !is_virtual(m.path@)),
            rel == (|f: Finding, m: ModuleRecord| reports_unreachable(f, m)),
            kept_related(unreachable@.take(i as int), out@, keep, rel),
        decreases unreachable@.len() - i,
    {
        let m = &unreachable[i];
        assert(unreachable@.take(i + 1) =~= unreachable@.take(i as int).push(*m));
        if !is_virtual_path(m.path.as_str()) {
            let f = Finding::UnreachableModule {
                path: m.path.clone(),
                size: m.original_size,
                metadata: UnreachableModuleMetadata {
                    has_side_effects: m.has_side_effects,
                    size_bytes: m.original_size,
                    safe_to_delete: false,
                    safety_assessment: SafetyAssessment::Unsafe(to_owned_string("Pending analysis")),
                },
            };
            proof {
                lemma_kept_push(unreachable@.take(i as int), out@, keep, rel, *m, f);
            }
            out.push(f);
        } else {
            proof {
                lemma_kept_skip(unreachable@.take(i as int), out@, keep, rel, *m);
            }
        }
        i = i + 1;
    }
    assert(unreachable@.take(unreachable@.len() as int) =~= unreachable@);
    out
}

/// The framework-export findings of the exports outside virtual modules.
fn framework_findings_of(framework_exports: &Vec<FrameworkExportRecord>) -> (out: Vec<Finding>)
    ensures
        kept_related(
            framework_exports@,
            out@,
            |e: FrameworkExportRecord| !is_virtual(e.module_file@),
            |f: Finding, e: FrameworkExportRecord| reports_framework_export(f, e),
        ),
{
    let ghost keep = |e: FrameworkExportRecord| !is_virtual(e.module_file@);
    let ghost rel = |f: Finding, e: FrameworkExportRecord| reports_framework_export(f, e);
    let mut out: Vec<Finding> = Vec::new();
    let mut i: usize = 0;
    while i < framework_exports.len()
        invariant
            i <= framework_exports@.len(),
            keep == (|e: FrameworkExportRecord| !is_virtual(e.module_file@)),
            rel == (|f: Finding, e: FrameworkExportRecord| reports_framework_export(f, e)),
            kept_related(framework_exports@.take(i as int), out@, keep, rel),
        decreases framework_exports@.len() - i,
    {
        let e = &framework_exports[i];
        assert(framework_exports@.take(i + 1) =~= framework_exports@.take(i as int).push(*e));
        if !is_virtual_path(e.module_file.as_str()) {
            let f = Finding::FrameworkExport {
                module: e.module_file.clone(),
                export_name: e.export_name.clone(),
                framework: e.framework.clone(),
                rule: to_owned_string("Built-in"),
                explanation: None,
            };
            proof {
                lemma_kept_push(framework_exports@.take(i as int), out@, keep, rel, *e, f);
            }
            out.push(f);
        } else {
            proof {
                lemma_kept_skip(framework_exports@.take(i as int), out@, keep, rel, *e);
            }
        }
        i = i + 1;
    }
    assert(framework_exports@.take(framework_exports@.len() as int) =~= framework_exports@);
    out
}

/// Converts the module graph to findings: a module finding for every module
/// outside virtual paths followed by a dependency finding for each of its
/// imports that does not resolve to a virtual module; then the unused exports,
/// the unreachable modules (safety pending) and the framework-used exports
/// (under the built-in rule) outside virtual modules.
pub fn convert_graph_to_findings(
    modules: &Vec<ModuleRecord>,
    unused_exports: &Vec<ExportRecord>,
    unreachable_modules: &Vec<ModuleRecord>,
    framework_exports: &Vec<FrameworkExportRecord>,
) -> (r: Vec<Finding>)
    ensures
        graph_findings(modules@, unused_exports@, unreachable_modules@, framework_exports@, r@),
{
    let mut out = module_findings_of(modules);
    let ghost a = out@.len() as int;
    let ghost part_a = out@;
    let mut e = export_findings_of(unused_exports);
    let ghost part_b = e@;
    out.append(&mut e);
    let ghost b = out@.len() as int;
    let mut u = unreachable_findings_of(unreachable_modules);
    let ghost part_c = u@;
    out.append(&mut u);
    let ghost c = out@.len() as int;
    let mut w = framework_findings_of(framework_exports);
    let ghost part_d = w@;
    out.append(&mut w);
    assert(out@.subrange(0, a) =~= part_a);
    assert(out@.subrange(a, b) =~= part_b);
    assert(out@.subrange(b, c) =~= part_c);
    assert(out@.subrange(c, out@.len() as int) =~= part_d);
    out
}


/// The first module of the graph with the given identifier.
pub open spec fn find_module(modules: Seq<ModuleRecord>, id: Seq<char>) -> Option<ModuleRecord>
    decreases modules.len(),
{
    if modules.len() == 0 {
        None
    } else if modules[0].id@ == id {
        Some(modules[0])
    } else {
        find_module(modules.drop_first(), id)
    }
}

/// The (from, to, source, is_external) record of a dynamic import of `from` that
/// resolved to a module of the graph.
pub open spec fn dynamic_link(modules: Seq<ModuleRecord>, from: ModuleRecord, imp: ImportRecord) -> Option<
    (String, String, String, bool),
> {
    if imp.is_dynamic && imp.resolved_to is Some {
        match find_module(modules, imp.resolved_to.unwrap()@) {
            Some(t) => Some((from.path, t.path, imp.source, imp.is_external)),
            None => None,
        }
    } else {
        None
    }
}

/// The dynamic links of the imports `imps` of `from`, in order.
pub open spec fn links_from(modules: Seq<ModuleRecord>, from: ModuleRecord, imps: Seq<ImportRecord>) -> Seq<
    (String, String, String, bool),
>
    decreases imps.len(),
{
    if imps.len() == 0 {
        Seq::empty()
    } else {
        let rest = links_from(modules, from, imps.drop_last());
        match dynamic_link(modules, from, imps.last()) {
            Some(l) => rest.push(l),
            None => rest,
        }
    }
}

/// The dynamic links of the modules `ms` (all of the graph `modules` or a
/// prefix of them), module by module and import by import.
pub open spec fn dynamic_links(modules: Seq<ModuleRecord>, ms: Seq<ModuleRecord>) -> Seq<(String, String, String, bool)>
    decreases ms.len(),
{
    if ms.len() == 0 {
        Seq::empty()
    } else {
        dynamic_links(modules, ms.drop_last()) + links_from(modules, ms.last(), ms.last().imports@)
    }
}

/// The first module of the graph with the given identifier.
fn lookup_module<'a>(modules: &'a Vec<ModuleRecord>, id: &str) -> (r: Option<&'a ModuleRecord>)
    ensures
        match r {
            Some(m) => find_module(modules@, id@) == Some(*m),
            None => find_module(modules@, id@) is None,
        },
{
    let mut i: usize = 0;
    while i < modules.len()
        invariant
            i <= modules@.len(),
            find_module(modules@, id@) == find_module(modules@.skip(i as int), id@),
        decreases modules@.len() - i,
    {
        assert(modules@.skip(i as int)[0] == modules@[i as int]);
        assert(modules@.skip(i as int).drop_first() =~= modules@.skip(i + 1));
        if crate::text::str_eq(modules[i].id.as_str(), id) {
            return Some(&modules[i]);
        }
        i = i + 1;
    }
    None
}

/// The dynamic imports of the graph, as (from path, target path, specifier,
/// is_external) records: every dynamic import that resolved to a module of the
/// graph, module by module and import by import.
pub fn collect_dynamic_links(modules: &Vec<ModuleRecord>) -> (r: Vec<(String, String, String, bool)>)
    ensures
        r@ == dynamic_links(modules@, modules@),
{
    let mut out: Vec<(String, String, String, bool)> = Vec::new();
    let mut i: usize = 0;
    while i < modules.len()
        invariant
            i <= modules@.len(),
            out@ == dynamic_links(modules@, modules@.take(i as int)),
        decreases modules@.len() - i,
    {
        let m = &modules[i];
        assert(modules@.take(i + 1).drop_last() =~= modules@.take(i as int));
        assert(modules@.take(i + 1).last() == *m);
        let ghost before = out@;
        let mut k: usize = 0;
        while k < m.imports.len()
            invariant
                i < modules@.len(),
                *m == modules@[i as int],
                k <= m.imports@.len(),
                out@ == before + links_from(modules@, *m, m.imports@.take(k as int)),
            decreases m.imports@.len() - k,
        {
            let imp = &m.imports[k];
            assert(m.imports@.take(k + 1).drop_last() =~= m.imports@.take(k as int));
            assert(m.imports@.take(k + 1).last() == *imp);
            if imp.is_dynamic {
                match &imp.resolved_to {
                    Some(id) => {
                        match lookup_module(modules, id.as_str()) {
                            Some(t) => {
                                out.push((m.path.clone(), t.path.clone(), imp.source.clone(), imp.is_external));
                            },
                            None => {},
                        }
                    },
                    None => {},
                }
            }
            k = k + 1;
        }
        assert(m.imports@.take(m.imports@.len() as int) =~= m.imports@);
        i = i + 1;
    }
    assert(modules@.take(modules@.len() as int) =~= modules@);
    out
}

/// The paths of the targets of dynamic imports, in the order of the links.
pub fn dynamic_targets(links: &Vec<(String, String, String, bool)>) -> (r: Vec<String>)
    ensures
        r@ == links@.map_values(|l: (String, String, String, bool)| l.1),
{
    let mut out: Vec<String> = Vec::new();
    let mut i: usize = 0;
    while i < links.len()
        invariant
            i <= links@.len(),
            out@ == links@.take(i as int).map_values(|l: (String, String, String, bool)| l.1),
        decreases links@.len() - i,
    {
        out.push(links[i].1.clone());
        assert(links@.take(i + 1) =~= links@.take(i as int).push(links@[i as int]));
        i = i + 1;
    }
    assert(links@.take(links@.len() as int) =~= links@);
    out
}


/// `s` is the safety verdict for deleting the unreachable module `m`, given the
/// targets of dynamic imports: entry points and configuration files are
/// unsafe, dynamically imported modules and modules with side effects need
/// review, the rest are safe to delete.
pub open spec fn assessed(s: SafetyAssessment, m: ModuleRecord, targets: Seq<String>) -> bool {
    if m.is_entry {
        s matches SafetyAssessment::Unsafe(t) && t@ == "Entry point"@
    } else if is_config_path(m.path@) {
        s matches SafetyAssessment::Unsafe(t) && t@ == "Configuration file"@
    } else if paths_contain(targets, m.path@) {
        s matches SafetyAssessment::ReviewCarefully(t) && t@ == "Dynamically imported"@
    } else if m.has_side_effects {
        s matches SafetyAssessment::ReviewCarefully(t) && t@ == "Module has side effects"@
    } else {
        s == SafetyAssessment::SafeToDelete
    }
}

/// The path of an unreachable-module finding.
pub open spec fn unreachable_path(f: Finding) -> Option<Seq<char>> {
    match f {
        Finding::UnreachableModule { path, .. } => Some(path@),
        _ => None,
    }
}

/// The first unreachable-module finding whose path has the same components as `p`.
pub open spec fn first_match(fs: Seq<Finding>, p: Seq<char>) -> Option<int>
    decreases fs.len(),
{
    if fs.len() == 0 {
        None
    } else {
        match first_match(fs.drop_last(), p) {
            Some(j) => Some(j),
            None => match unreachable_path(fs.last()) {
                Some(q) => if path_components_eq(q, p) {
                    Some(fs.len() - 1)
                } else {
                    None
                },
                None => None,
            },
        }
    }
}

/// The last unreachable module outside virtual paths whose finding is the
/// finding at `i`.
pub open spec fn assessor_of(fs: Seq<Finding>, us: Seq<ModuleRecord>, i: int) -> Option<int>
    decreases us.len(),
{
    if us.len() == 0 {
        None
    } else if !is_virtual(us.last().path@) && first_match(fs, us.last().path@) == Some(i) {
        Some(us.len() - 1)
    } else {
        assessor_of(fs, us.drop_last(), i)
    }
}

/// `new_f` is the unreachable-module finding `old_f` with the safety verdict for
/// `u` recorded in its metadata.
pub open spec fn enriched_finding(new_f: Finding, old_f: Finding, u: ModuleRecord, targets: Seq<String>) -> bool {
    match (old_f, new_f) {
        (
            Finding::UnreachableModule { path, size, metadata },
            Finding::UnreachableModule { path: p2, size: s2, metadata: m2 },
        ) => {
            &&& p2 == path
            &&& s2 == size
            &&& m2.has_side_effects == metadata.has_side_effects
            &&& m2.size_bytes == metadata.size_bytes
            &&& assessed(m2.safety_assessment, u, targets)
            &&& m2.safe_to_delete == (m2.safety_assessment is SafeToDelete)
        },
        _ => false,
    }
}

/// `new` is `old` with the safety of the unreachable modules recorded: each
/// unreachable module outside virtual paths, in turn, gives its verdict to the
/// first unreachable-module finding whose path has the same components, so a
/// finding holds the verdict of the last such module; every other finding is
/// unchanged.
pub open spec fn enrichment(old: Seq<Finding>, new: Seq<Finding>, us: Seq<ModuleRecord>, targets: Seq<String>) -> bool {
    &&& new.len() == old.len()
    &&& forall|i: int|
        0 <= i < old.len() ==> match assessor_of(old, us, i) {
            Some(k) => enriched_finding(#[trigger] new[i], old[i], us[k], targets),
            None => new[i] == old[i],
        }
}

/// The (path, size, has_side_effects) entries of the unreachable modules outside
/// virtual paths, in order.
pub open spec fn unreachable_entries(us: Seq<ModuleRecord>) -> Seq<(String, usize, bool)>
    decreases us.len(),
{
    if us.len() == 0 {
        Seq::empty()
    } else if is_virtual(us.last().path@) {
        unreachable_entries(us.drop_last())
    } else {
        unreachable_entries(us.drop_last()).push((us.last().path, us.last().original_size, us.last().has_side_effects))
    }
}

proof fn lemma_first_match_range(fs: Seq<Finding>, p: Seq<char>)
    ensures
        first_match(fs, p) matches Some(j) ==> 0 <= j < fs.len() && unreachable_path(fs[j]) is Some,
    decreases fs.len(),
{
    if fs.len() > 0 {
        lemma_first_match_range(fs.drop_last(), p);
    }
}

/// A longer list keeps a match found in its prefix.
proof fn lemma_first_match_prefix(fs: Seq<Finding>, p: Seq<char>, n: int)
    requires
        0 <= n <= fs.len(),
        first_match(fs.take(n), p) is Some,
    ensures
        first_match(fs, p) == first_match(fs.take(n), p),
    decreases fs.len() - n,
{
    if n == fs.len() {
        assert(fs.take(n) =~= fs);
    } else {
        assert(fs.drop_last().take(n) =~= fs.take(n));
        lemma_first_match_prefix(fs.drop_last(), p, n);
    }
}

/// Lists whose findings have the same unreachable-module paths have the same
/// first matches.
proof fn lemma_first_match_paths(a: Seq<Finding>, b: Seq<Finding>, p: Seq<char>)
    requires
        a.len() == b.len(),
        forall|i: int| 0 <= i < a.len() ==> unreachable_path(#[trigger] a[i]) == unreachable_path(b[i]),
    ensures
        first_match(a, p) == first_match(b, p),
    decreases a.len(),
{
    if a.len() > 0 {
        assert forall|i: int| 0 <= i < a.drop_last().len() implies unreachable_path(#[trigger] a.drop_last()[i])
            == unreachable_path(b.drop_last()[i]) by {
            assert(a.drop_last()[i] == a[i]);
            assert(b.drop_last()[i] == b[i]);
        }
        lemma_first_match_paths(a.drop_last(), b.drop_last(), p);
        assert(unreachable_path(a.last()) == unreachable_path(b.last()));
    }
}

/// The first unreachable-module finding whose path has the same components as `p`.
fn find_first(fs: &Vec<Finding>, p: &str) -> (r: Option<usize>)
    ensures
        match r {
            Some(j) => first_match(fs@, p@) == Some(j as int),
            None => first_match(fs@, p@) is None,
        },
{
    let mut i: usize = 0;
    while i < fs.len()
        invariant
            i <= fs@.len(),
            first_match(fs@.take(i as int), p@) is None,
        decreases fs@.len() - i,
    {
        proof {
            assert(fs@.take(i + 1).drop_last() =~= fs@.take(i as int));
            assert(fs@.take(i + 1).last() == fs@[i as int]);
        }
        match &fs[i] {
            Finding::UnreachableModule { path, .. } => {
                if path_eq(path.as_str(), p) {
                    proof {
                        lemma_first_match_prefix(fs@, p@, i + 1);
                    }
                    return Some(i);
                }
            },
            _ => {},
        }
        i = i + 1;
    }
    proof {
        assert(fs@.take(fs@.len() as int) =~= fs@);
    }
    None
}

/// Records the safety of each unreachable module outside virtual paths in the
/// first unreachable-module finding whose path has the same components (when
/// several modules reach one finding, the last one's verdict stands), and lists
/// the (path, size, has_side_effects) entries of those modules.
pub fn enrich_unreachable(
    findings: &mut Vec<Finding>,
    unreachable: &Vec<ModuleRecord>,
    dynamic_targets: &Vec<String>,
) -> (entries: Vec<(String, usize, bool)>)
    ensures
        enrichment(old(findings)@, final(findings)@, unreachable@, dynamic_targets@),
        entries@ == unreachable_entries(unreachable@),
{
    let ghost olds = findings@;
    let ghost us = unreachable@;
    let ghost ts = dynamic_targets@;
    let mut idx: usize = 0;
    while idx < unreachable.len()
        invariant
            idx <= us.len(),
            us == unreachable@,
            ts == dynamic_targets@,
            findings@.len() == olds.len(),
            forall|i: int| 0 <= i < olds.len() ==> unreachable_path(#[trigger] findings@[i]) == unreachable_path(olds[i]),
            forall|i: int|
                0 <= i < olds.len() ==> match assessor_of(olds, us.take(idx as int), i) {
                    Some(k) => enriched_finding(#[trigger] findings@[i], olds[i], us[k], ts),
                    None => findings@[i] == olds[i],
                },
        decreases us.len() - idx,
    {
        let u = &unreachable[idx];
        let ghost before = findings@;
        proof {
            assert(us.take(idx + 1).drop_last() =~= us.take(idx as int));
            assert(us.take(idx + 1).last() == *u);
            lemma_first_match_paths(findings@, olds, u.path@);
            lemma_first_match_range(olds, u.path@);
            lemma_first_match_range(findings@, u.path@);
        }
        if !is_virtual_path(u.path.as_str()) {
            match find_first(findings, u.path.as_str()) {
                Some(j) => {
                    proof {
                        assert(first_match(olds, u.path@) == Some(j as int));
                        assert(unreachable_path(olds[j as int]) is Some);
                        assert(unreachable_path(findings@[j as int]) == unreachable_path(olds[j as int]));
                    }
                    let new_f = match &findings[j] {
                        Finding::UnreachableModule { path, size, metadata } => {
                            let safety = SideEffectAnalyzer::assess_safety(
                                u.has_side_effects,
                                u.is_entry,
                                u.path.as_str(),
                                dynamic_targets,
                            );
                            let safe = match &safety {
                                SafetyAssessment::SafeToDelete => true,
                                _ => false,
                            };
                            Finding::UnreachableModule {
                                path: path.clone(),
                                size: *size,
                                metadata: UnreachableModuleMetadata {
                                    has_side_effects: metadata.has_side_effects,
                                    size_bytes: metadata.size_bytes,
                                    safe_to_delete: safe,
                                    safety_assessment: safety,
                                },
                            }
                        },
                        _ => {
                            proof {
                                assert(unreachable_path(olds[j as int]) is Some);
                            }
                            findings[j].clone()
                        },
                    };
                    proof {
                        let jj = j as int;
                        assert(unreachable_path(before[jj]) == unreachable_path(olds[jj]));
                        assert(enriched_finding(new_f, olds[jj], us[idx as int], ts)) by {
                            match assessor_of(olds, us.take(idx as int), jj) {
                                Some(k) => {
                                    assert(enriched_finding(before[jj], olds[jj], us[k], ts));
                                },
                                None => {
                                    assert(before[jj] == olds[jj]);
                                },
                            }
                        }
                    }
                    findings.set(j, new_f);
                    proof {
                        assert forall|i: int| 0 <= i < olds.len() implies match assessor_of(olds, us.take(idx + 1), i) {
                            Some(k) => enriched_finding(#[trigger] findings@[i], olds[i], us[k], ts),
                            None => findings@[i] == olds[i],
                        } by {
                            let t = us.take(idx + 1);
                            assert(t.len() - 1 == idx);
                            assert(t.last() == us[idx as int]);
                            if i != j as int {
                                assert(findings@[i] == before[i]);
                                assert(first_match(olds, t.last().path@) != Some(i));
                                assert(assessor_of(olds, t, i) == assessor_of(olds, t.drop_last(), i));
                            } else {
                                assert(assessor_of(olds, t, i) == Some(idx as int));
                            }
                        }
                        assert forall|i: int| 0 <= i < olds.len() implies unreachable_path(#[trigger] findings@[i])
                            == unreachable_path(olds[i]) by {
                            if i != j as int {
                                assert(findings@[i] == before[i]);
                            }
                        }
                    }
                },
                None => {
                    proof {
                        assert forall|i: int| 0 <= i < olds.len() implies match assessor_of(olds, us.take(idx + 1), i) {
                            Some(k) => enriched_finding(#[trigger] findings@[i], olds[i], us[k], ts),
                            None => findings@[i] == olds[i],
                        } by {
                            assert(assessor_of(olds, us.take(idx + 1), i) == assessor_of(olds, us.take(idx as int), i));
                        }
                    }
                },
            }
        } else {
            proof {
                assert forall|i: int| 0 <= i < olds.len() implies match assessor_of(olds, us.take(idx + 1), i) {
                    Some(k) => enriched_finding(#[trigger] findings@[i], olds[i], us[k], ts),
                    None => findings@[i] == olds[i],
                } by {
                    assert(assessor_of(olds, us.take(idx + 1), i) == assessor_of(olds, us.take(idx as int), i));
                }
            }
        }
        idx = idx + 1;
    }
    proof {
        assert(us.take(us.len() as int) =~= us);
    }
    let mut entries: Vec<(String, usize, bool)> = Vec::new();
    let mut i: usize = 0;
    while i < unreachable.len()
        invariant
            i <= unreachable@.len(),
            entries@ == unreachable_entries(unreachable@.take(i as int)),
        decreases unreachable@.len() - i,
    {
        let u = &unreachable[i];
        assert(unreachable@.take(i + 1).drop_last() =~= unreachable@.take(i as int));
        assert(unreachable@.take(i + 1).last() == *u);
        if !is_virtual_path(u.path.as_str()) {
            entries.push((u.path.clone(), u.original_size, u.has_side_effects));
        }
        i = i + 1;
    }
    assert(unreachable@.take(unreachable@.len() as int) =~= unreachable@);
    entries
}



/// The paths of the modules that the imports `imps` resolve to, leaving out
/// imports that did not resolve to a module of the graph and virtual modules.
pub open spec fn resolved_paths(modules: Seq<ModuleRecord>, imps: Seq<ImportRecord>) -> Seq<String>
    decreases imps.len(),
{
    if imps.len() == 0 {
        Seq::empty()
    } else {
        let rest = resolved_paths(modules, imps.drop_last());
        let imp = imps.last();
        if imp.resolved_to is Some {
            match find_module(modules, imp.resolved_to.unwrap()@) {
                Some(t) => if is_virtual(t.path@) {
                    rest
                } else {
                    rest.push(t.path)
                },
                None => rest,
            }
        } else {
            rest
        }
    }
}

/// A module has an entry in the import graph: it is not virtual and imports
/// at least one module of the graph that is not virtual.
pub open spec fn has_graph_entry(modules: Seq<ModuleRecord>, m: ModuleRecord) -> bool {
    !is_virtual(m.path@) && resolved_paths(modules, m.imports@).len() > 0
}

/// The last module among `ms` with an entry in the import graph under path `p`.
pub open spec fn last_entry_module(modules: Seq<ModuleRecord>, ms: Seq<ModuleRecord>, p: Seq<char>) -> Option<ModuleRecord>
    decreases ms.len(),
{
    if ms.len() == 0 {
        None
    } else if has_graph_entry(modules, ms.last()) && ms.last().path@ == p {
        Some(ms.last())
    } else {
        last_entry_module(modules, ms.drop_last(), p)
    }
}

/// `g` is the import graph of the modules `ms`: one entry per path of a module
/// with an entry, holding the resolved imports of the last such module with
/// that path (a later module with the same path replaces an earlier one).
pub open spec fn import_graph_of(modules: Seq<ModuleRecord>, ms: Seq<ModuleRecord>, g: Seq<(String, Vec<String>)>) -> bool {
    &&& keys_distinct(g)
    &&& forall|i: int|
        0 <= i < g.len() ==> (last_entry_module(modules, ms, (#[trigger] g[i]).0@) matches Some(m) && g[i].1@
            == resolved_paths(modules, m.imports@))
    &&& forall|j: int|
        0 <= j < ms.len() && has_graph_entry(modules, #[trigger] ms[j]) ==> exists|i: int|
            0 <= i < g.len() && (#[trigger] g[i]).0@ == ms[j].path@
}

/// The resolved imports of a module.
fn resolved_paths_of(modules: &Vec<ModuleRecord>, m: &ModuleRecord) -> (r: Vec<String>)
    ensures
        r@ == resolved_paths(modules@, m.imports@),
{
    let mut out: Vec<String> = Vec::new();
    let mut k: usize = 0;
    while k < m.imports.len()
        invariant
            k <= m.imports@.len(),
            out@ == resolved_paths(modules@, m.imports@.take(k as int)),
        decreases m.imports@.len() - k,
    {
        let imp = &m.imports[k];
        assert(m.imports@.take(k + 1).drop_last() =~= m.imports@.take(k as int));
        assert(m.imports@.take(k + 1).last() == *imp);
        match &imp.resolved_to {
            Some(id) => {
                match lookup_module(modules, id.as_str()) {
                    Some(t) => {
                        if !is_virtual_path(t.path.as_str()) {
                            out.push(t.path.clone());
                        }
                    },
                    None => {},
                }
            },
            None => {},
        }
        k = k + 1;
    }
    assert(m.imports@.take(m.imports@.len() as int) =~= m.imports@);
    out
}

/// The index of the entry with key `p`, if any.
fn entry_index(g: &Vec<(String, Vec<String>)>, p: &str) -> (r: Option<usize>)
    ensures
        match r {
            Some(i) => i < g@.len() && g@[i as int].0@ == p@,
            None => forall|i: int| 0 <= i < g@.len() ==> (#[trigger] g@[i]).0@ != p@,
        },
{
    let mut i: usize = 0;
    while i < g.len()
        invariant
            i <= g@.len(),
            forall|j: int| 0 <= j < i ==> (#[trigger] g@[j]).0@ != p@,
        decreases g@.len() - i,
    {
        if crate::text::str_eq(g[i].0.as_str(), p) {
            return Some(i);
        }
        i = i + 1;
    }
    None
}

/// Builds the import graph searched for cycles: for each module outside
/// virtual paths that imports modules of the graph outside virtual paths, an
/// entry from its path to their paths; a later module with the same path
/// replaces an earlier one's entry.
#[verifier::rlimit(30)]
pub fn import_graph(modules: &Vec<ModuleRecord>) -> (g: Vec<(String, Vec<String>)>)
    ensures
        import_graph_of(modules@, modules@, g@),
{
    let ghost all = modules@;
    let mut g: Vec<(String, Vec<String>)> = Vec::new();
    let mut i: usize = 0;
    while i < modules.len()
        invariant
            i <= modules@.len(),
            all == modules@,
            import_graph_of(all, all.take(i as int), g@),
        decreases modules@.len() - i,
    {
        let m = &modules[i];
        let ghost pre = all.take(i as int);
        let ghost post = all.take(i + 1);
        assert(post.drop_last() =~= pre);
        assert(post.last() == *m);
        if !is_virtual_path(m.path.as_str()) {
            let deps = resolved_paths_of(modules, m);
            if deps.len() > 0 {
                let ghost g0 = g@;
                match entry_index(&g, m.path.as_str()) {
                    Some(idx) => {
                        let key = g[idx].0.clone();
                        g.set(idx, (key, deps));
                        proof {
                            assert forall|a: int, b: int| 0 <= a < b < g@.len() implies g@[a].0@ != g@[b].0@ by {
                                assert(g0[a].0@ != g0[b].0@);
                            }
                        }
                    },
                    None => {
                        g.push((m.path.clone(), deps));
                    },
                }
                proof {
                    assert forall|j: int| 0 <= j < post.len() && has_graph_entry(all, #[trigger] post[j]) implies exists|q: int|
                        0 <= q < g@.len() && (#[trigger] g@[q]).0@ == post[j].path@ by {
                        if j < pre.len() {
                            assert(post[j] == pre[j]);
                            let q = choose|q: int| 0 <= q < g0.len() && (#[trigger] g0[q]).0@ == pre[j].path@;
                            assert(g@[q].0@ == g0[q].0@);
                        } else {
                            if g@.len() > g0.len() {
                                assert(g@[g0.len() as int].0@ == post[j].path@);
                            } else {
                                let idx = choose|idx: int| 0 <= idx < g0.len() && g0[idx].0@ == m.path@;
                                assert(g@[idx].0@ == post[j].path@);
                            }
                        }
                    }
                }
            } else {
                proof {
                    assert forall|j: int| 0 <= j < post.len() && has_graph_entry(all, #[trigger] post[j]) implies exists|q: int|
                        0 <= q < g@.len() && (#[trigger] g@[q]).0@ == post[j].path@ by {
                        assert(post[j] == pre[j]);
                    }
                }
            }
        } else {
            proof {
                assert forall|j: int| 0 <= j < post.len() && has_graph_entry(all, #[trigger] post[j]) implies exists|q: int|
                    0 <= q < g@.len() && (#[trigger] g@[q]).0@ == post[j].path@ by {
                    assert(post[j] == pre[j]);
                }
            }
        }
        i = i + 1;
    }
    assert(all.take(all.len() as int) =~= all);
    g
}


/// The size of the first module of the graph with path `p`, or nothing.
pub open spec fn size_at_path(modules: Seq<ModuleRecord>, p: Seq<char>) -> int
    decreases modules.len(),
{
    if modules.len() == 0 {
        0
    } else if modules[0].path@ == p {
        modules[0].original_size as int
    } else {
        size_at_path(modules.drop_first(), p)
    }
}

/// The total size of the modules of a cycle, each taken from the first module
/// of the graph with its path (a path without a module adds nothing).
pub open spec fn cycle_size(modules: Seq<ModuleRecord>, cycle: Seq<String>) -> int
    decreases cycle.len(),
{
    if cycle.len() == 0 {
        0
    } else {
        cycle_size(modules, cycle.drop_last()) + size_at_path(modules, cycle.last()@)
    }
}

/// Every module of the cycle is one of the unreachable modules.
pub open spec fn cycle_unreachable(unreachable: Seq<ModuleRecord>, cycle: Seq<String>) -> bool {
    forall|k: int| 0 <= k < cycle.len() ==> exists|u: int| 0 <= u < unreachable.len() && #[trigger] unreachable[u].path@ == (#[trigger] cycle[k])@
}

/// The sum of the sizes of all modules of the graph.
pub open spec fn graph_size(modules: Seq<ModuleRecord>) -> int
    decreases modules.len(),
{
    if modules.len() == 0 {
        0
    } else {
        modules[0].original_size + graph_size(modules.drop_first())
    }
}

proof fn lemma_size_at_path_bounds(modules: Seq<ModuleRecord>, p: Seq<char>)
    ensures
        0 <= size_at_path(modules, p) <= graph_size(modules),
    decreases modules.len(),
{
    if modules.len() > 0 {
        lemma_size_at_path_bounds(modules.drop_first(), p);
    }
}

/// Leaving out the first module: a cycle's size grows by at most that module's
/// size, and only when its path is on the cycle.
proof fn lemma_cycle_size_step(modules: Seq<ModuleRecord>, cycle: Seq<Seq<char>>, cs: Seq<String>)
    requires
        modules.len() > 0,
        cycle.no_duplicates(),
        cs.len() == cycle.len(),
        forall|k: int| 0 <= k < cs.len() ==> #[trigger] cs[k]@ == cycle[k],
    ensures
        cycle_size(modules, cs) <= cycle_size(modules.drop_first(), cs) + if cycle.contains(modules[0].path@) {
            modules[0].original_size as int
        } else {
            0
        },
        0 <= cycle_size(modules, cs),
    decreases cs.len(),
{
    if cs.len() > 0 {
        let c0 = cycle.drop_last();
        assert(c0.no_duplicates());
        assert forall|k: int| 0 <= k < cs.drop_last().len() implies #[trigger] cs.drop_last()[k]@ == c0[k] by {
            assert(cs.drop_last()[k] == cs[k]);
        }
        lemma_cycle_size_step(modules, c0, cs.drop_last());
        lemma_size_at_path_bounds(modules.drop_first(), cs.last()@);
        lemma_size_at_path_bounds(modules, cs.last()@);
        let p0 = modules[0].path@;
        if cs.last()@ == p0 {
            assert(cycle.last() == p0);
            assert(!c0.contains(p0)) by {
                if c0.contains(p0) {
                    let k = choose|k: int| 0 <= k < c0.len() && c0[k] == p0;
                    assert(cycle[k] == cycle[cycle.len() - 1]);
                }
            }
            assert(cycle.contains(p0)) by {
                assert(cycle[cycle.len() - 1] == p0);
            }
        } else {
            assert(cycle.contains(p0) == c0.contains(p0)) by {
                if cycle.contains(p0) {
                    let k = choose|k: int| 0 <= k < cycle.len() && cycle[k] == p0;
                    assert(k != cycle.len() - 1);
                    assert(c0[k] == p0);
                }
                if c0.contains(p0) {
                    let k = choose|k: int| 0 <= k < c0.len() && c0[k] == p0;
                    assert(cycle[k] == p0);
                }
            }
        }
    }
}

/// A cycle of distinct paths weighs no more than the whole graph.
proof fn lemma_cycle_size_bound(modules: Seq<ModuleRecord>, cycle: Seq<Seq<char>>, cs: Seq<String>)
    requires
        cycle.no_duplicates(),
        cs.len() == cycle.len(),
        forall|k: int| 0 <= k < cs.len() ==> #[trigger] cs[k]@ == cycle[k],
    ensures
        0 <= cycle_size(modules, cs) <= graph_size(modules),
    decreases modules.len(),
{
    if modules.len() == 0 {
        lemma_cycle_size_zero(modules, cs);
    } else {
        lemma_cycle_size_step(modules, cycle, cs);
        lemma_cycle_size_bound(modules.drop_first(), cycle, cs);
    }
}

proof fn lemma_cycle_size_zero(modules: Seq<ModuleRecord>, cs: Seq<String>)
    requires
        modules.len() == 0,
    ensures
        cycle_size(modules, cs) == 0,
    decreases cs.len(),
{
    if cs.len() > 0 {
        lemma_cycle_size_zero(modules, cs.drop_last());
    }
}

/// The size of the first module with the given path, or zero.
fn size_at(modules: &Vec<ModuleRecord>, p: &str) -> (r: usize)
    ensures
        r == size_at_path(modules@, p@),
{
    let mut i: usize = 0;
    while i < modules.len()
        invariant
            i <= modules@.len(),
            size_at_path(modules@, p@) == size_at_path(modules@.skip(i as int), p@),
        decreases modules@.len() - i,
    {
        assert(modules@.skip(i as int)[0] == modules@[i as int]);
        assert(modules@.skip(i as int).drop_first() =~= modules@.skip(i + 1));
        if crate::text::str_eq(modules[i].path.as_str(), p) {
            return modules[i].original_size;
        }
        i = i + 1;
    }
    0
}

/// Reports a cycle: whether every module on it is unreachable, and its total
/// size (each path weighed by the first module of the graph with that path).
pub fn cycle_report(cycle: Vec<String>, unreachable: &Vec<ModuleRecord>, modules: &Vec<ModuleRecord>) -> (r: CircularDependency)
    requires
        forall|k: int| 0 <= k <= cycle@.len() ==> cycle_size(modules@, #[trigger] cycle@.take(k)) <= usize::MAX,
    ensures
        r.cycle@ == cycle@,
        r.all_unreachable == cycle_unreachable(unreachable@, cycle@),
        r.total_size == cycle_size(modules@, cycle@),
{
    let ghost cs = cycle@;
    let mut all_unreachable = true;
    let mut total: usize = 0;
    let mut k: usize = 0;
    while k < cycle.len()
        invariant
            k <= cs.len(),
            cs == cycle@,
            forall|q: int| 0 <= q <= cs.len() ==> cycle_size(modules@, #[trigger] cs.take(q)) <= usize::MAX,
            total == cycle_size(modules@, cs.take(k as int)),
            all_unreachable == cycle_unreachable(unreachable@, cs.take(k as int)),
        decreases cs.len() - k,
    {
        let p = cycle[k].as_str();
        assert(cs.take(k + 1).drop_last() =~= cs.take(k as int));
        assert(cs.take(k + 1).last() == cs[k as int]);
        assert(cycle_size(modules@, cs.take(k + 1)) <= usize::MAX);
        proof {
            lemma_size_at_path_bounds(modules@, p@);
        }
        total = total + size_at(modules, p);
        let mut found = false;
        let mut u: usize = 0;
        while u < unreachable.len()
            invariant
                u <= unreachable@.len(),
                found <==> exists|v: int| 0 <= v < u && #[trigger] unreachable@[v].path@ == p@,
            decreases unreachable@.len() - u,
        {
            if crate::text::str_eq(unreachable[u].path.as_str(), p) {
                found = true;
            }
            u = u + 1;
        }
        proof {
            let t = cs.take(k + 1);
            if all_unreachable && found {
                assert forall|q: int| 0 <= q < t.len() implies exists|v: int| 0 <= v < unreachable@.len() && #[trigger] unreachable@[v].path@ == (#[trigger] t[q])@ by {
                    if q < k {
                        assert(t[q] == cs.take(k as int)[q]);
                    }
                }
            }
            if !found {
                assert(t[k as int] == cs[k as int]);
            }
            if !all_unreachable {
                let q = choose|q: int| 0 <= q < k && !(exists|v: int| 0 <= v < unreachable@.len() && #[trigger] unreachable@[v].path@ == (#[trigger] cs.take(k as int)[q])@);
                assert(t[q] == cs.take(k as int)[q]);
            }
        }
        all_unreachable = all_unreachable && found;
        k = k + 1;
    }
    assert(cs.take(cs.len() as int) =~= cs);
    CircularDependency { cycle, all_unreachable, total_size: total }
}

/// `r` reports the cycles `cycles` that the detector found in the import graph
/// `g` of `modules` (or none, where the detector refused the graph): each with
/// whether all its modules are unreachable and its total size.
pub open spec fn circular_outcome(
    modules: Seq<ModuleRecord>,
    unreachable: Seq<ModuleRecord>,
    r: Seq<CircularDependency>,
    g: Seq<(String, Vec<String>)>,
    cycles: Seq<CircularDependency>,
) -> bool {
    &&& import_graph_of(modules, modules, g)
    &&& reports_cycles(g, cycles) || (cycles.len() == 0 && (g.len() > 100000 || has_cycle_longer_than(g, 1000)))
    &&& r.len() == cycles.len()
    &&& forall|k: int|
        0 <= k < cycles.len() ==> (#[trigger] r[k]).cycle@ == cycles[k].cycle@ && r[k].all_unreachable
            == cycle_unreachable(unreachable, cycles[k].cycle@) && r[k].total_size == cycle_size(
            modules,
            cycles[k].cycle@,
        )
}

/// The circular-dependency findings of the graph: the cycles the detector finds
/// in the import graph, each with whether all its modules are unreachable and
/// its total size; none when the detector refuses the graph.
pub fn circular_dependencies(modules: &Vec<ModuleRecord>, unreachable: &Vec<ModuleRecord>) -> (r: Vec<CircularDependency>)
    requires
        graph_size(modules@) <= usize::MAX,
    ensures
        exists|g: Seq<(String, Vec<String>)>, cycles: Seq<CircularDependency>|
            #[trigger] circular_outcome(modules@, unreachable@, r@, g, cycles),
{
    let g = import_graph(modules);
    let ghost gv = g@;
    let mut detector = CircularDependencyDetector::new(g);
    let found = detector.find_cycles();
    let cycles = match found {
        Ok(c) => c,
        Err(_) => Vec::new(),
    };
    let ghost cv = cycles@;
    assert(reports_cycles(gv, cv) || (cv.len() == 0 && (gv.len() > 100000 || has_cycle_longer_than(gv, 1000))));
    let mut out: Vec<CircularDependency> = Vec::new();
    for c in it: cycles
        invariant
            cv == it.seq(),
            graph_size(modules@) <= usize::MAX,
            import_graph_of(modules@, modules@, gv),
            reports_cycles(gv, cv) || (cv.len() == 0 && (gv.len() > 100000 || has_cycle_longer_than(gv, 1000))),
            out@.len() == it.index(),
            forall|k: int|
                0 <= k < it.index() ==> (#[trigger] out@[k]).cycle@ == cv[k].cycle@ && out@[k].all_unreachable
                    == cycle_unreachable(unreachable@, cv[k].cycle@) && out@[k].total_size == cycle_size(
                    modules@,
                    cv[k].cycle@,
                ),
    {
        let ghost k = it.index() as int;
        proof {
            let cs = c.cycle@;
            let names = Seq::new(cs.len(), |j: int| cs[j]@);
            assert forall|q: int| 0 <= q <= cs.len() implies cycle_size(modules@, #[trigger] cs.take(q)) <= usize::MAX by {
                let t = cs.take(q);
                let tn = Seq::new(t.len(), |j: int| t[j]@);
                assert(tn.no_duplicates()) by {
                    assert forall|a: int, b: int| 0 <= a < tn.len() && 0 <= b < tn.len() && a != b implies tn[a] != tn[b] by {
                        assert(t[a] == cv[k].cycle@[a]);
                        assert(t[b] == cv[k].cycle@[b]);
                    }
                }
                lemma_cycle_size_bound(modules@, tn, t);
            }
        }
        let report = cycle_report(c.cycle, unreachable, modules);
        out.push(report);
    }
    assert(import_graph_of(modules@, modules@, gv));
    assert(reports_cycles(gv, cv) || (cv.len() == 0 && (gv.len() > 100000 || has_cycle_longer_than(gv, 1000))));
    assert(out@.len() == cv.len());
    assert(forall|k: int|
        0 <= k < cv.len() ==> (#[trigger] out@[k]).cycle@ == cv[k].cycle@ && out@[k].all_unreachable
            == cycle_unreachable(unreachable@, cv[k].cycle@) && out@[k].total_size == cycle_size(modules@, cv[k].cycle@));
    assert(circular_outcome(modules@, unreachable@, out@, gv, cv));
    out
}


/// The smell type of a code smell finding.
pub open spec fn smell_type_of(f: Finding) -> Option<CodeSmellType> {
    match f {
        Finding::CodeSmell { smell_type, .. } => Some(smell_type),
        _ => None,
    }
}

/// The severity of a code smell finding.
pub open spec fn smell_severity_of(f: Finding) -> Option<SmellSeverity> {
    match f {
        Finding::CodeSmell { severity, .. } => Some(severity),
        _ => None,
    }
}

/// The number of code smells of type `t`.
pub open spec fn type_count(fs: Seq<Finding>, t: CodeSmellType) -> nat
    decreases fs.len(),
{
    if fs.len() == 0 {
        0
    } else {
        type_count(fs.drop_last(), t) + if smell_type_of(fs.last()) == Some(t) {
            1nat
        } else {
            0nat
        }
    }
}

/// The number of code smells of severity `v`.
pub open spec fn severity_count(fs: Seq<Finding>, v: SmellSeverity) -> nat
    decreases fs.len(),
{
    if fs.len() == 0 {
        0
    } else {
        severity_count(fs.drop_last(), v) + if smell_severity_of(fs.last()) == Some(v) {
            1nat
        } else {
            0nat
        }
    }
}

/// `tally` counts the keys that occur: each key once, with its positive count,
/// and every key that occurs is present.
pub open spec fn tally_of<K>(tally: Seq<(K, usize)>, count: spec_fn(K) -> nat) -> bool {
    &&& forall|i: int, j: int| 0 <= i < j < tally.len() ==> tally[i].0 != tally[j].0
    &&& forall|i: int| 0 <= i < tally.len() ==> (#[trigger] tally[i]).1 == count(tally[i].0) && count(tally[i].0) > 0
    &&& forall|k: K| #[trigger] count(k) > 0 ==> exists|i: int| 0 <= i < tally.len() && (#[trigger] tally[i]).0 == k
}

proof fn lemma_type_count_bound(fs: Seq<Finding>, t: CodeSmellType)
    ensures
        type_count(fs, t) <= fs.len(),
    decreases fs.len(),
{
    if fs.len() > 0 {
        lemma_type_count_bound(fs.drop_last(), t);
    }
}

proof fn lemma_severity_count_bound(fs: Seq<Finding>, v: SmellSeverity)
    ensures
        severity_count(fs, v) <= fs.len(),
    decreases fs.len(),
{
    if fs.len() > 0 {
        lemma_severity_count_bound(fs.drop_last(), v);
    }
}

/// Adds one occurrence of `t` to a tally.
fn bump_type(tally: &mut Vec<(CodeSmellType, usize)>, t: CodeSmellType, Ghost(before): Ghost<spec_fn(CodeSmellType) -> nat>, Ghost(after): Ghost<spec_fn(CodeSmellType) -> nat>)
    requires
        tally_of(old(tally)@, before),
        forall|x: CodeSmellType| #[trigger] after(x) == before(x) + if x == t { 1nat } else { 0nat },
        before(t) < usize::MAX,
    ensures
        tally_of(final(tally)@, after),
{
    let ghost t0 = tally@;
    let mut k: usize = 0;
    while k < tally.len()
        invariant
            k <= t0.len(),
            tally@ == t0,
            tally_of(t0, before),
            forall|q: int| 0 <= q < k ==> t0[q].0 != t,
            forall|x: CodeSmellType| #[trigger] after(x) == before(x) + if x == t { 1nat } else { 0nat },
            before(t) < usize::MAX,
        decreases t0.len() - k,
    {
        if tally[k].0 == t {
            assert(t0[k as int].1 == before(t0[k as int].0));
            let c = tally[k].1;
            tally.set(k, (t, c + 1));
            proof {
                assert forall|a: int| 0 <= a < tally@.len() implies (#[trigger] tally@[a]).1 == after(tally@[a].0) && after(tally@[a].0) > 0 by {
                    assert(t0[a].1 == before(t0[a].0));
                }
                assert forall|x: CodeSmellType| #[trigger] after(x) > 0 implies exists|a: int| 0 <= a < tally@.len() && (#[trigger] tally@[a]).0 == x by {
                    if x == t {
                        assert(tally@[k as int].0 == x);
                    } else {
                        assert(before(x) > 0);
                        let a = choose|a: int| 0 <= a < t0.len() && (#[trigger] t0[a]).0 == x;
                        assert(tally@[a].0 == x);
                    }
                }
            }
            return;
        }
        k = k + 1;
    }
    tally.push((t, 1));
    proof {
        assert(before(t) == 0) by {
            if before(t) > 0 {
                let a = choose|a: int| 0 <= a < t0.len() && (#[trigger] t0[a]).0 == t;
            }
        }
        assert forall|a: int| 0 <= a < tally@.len() implies (#[trigger] tally@[a]).1 == after(tally@[a].0) && after(tally@[a].0) > 0 by {
            if a < t0.len() {
                assert(t0[a].1 == before(t0[a].0));
            }
        }
        assert forall|x: CodeSmellType| #[trigger] after(x) > 0 implies exists|a: int| 0 <= a < tally@.len() && (#[trigger] tally@[a]).0 == x by {
            if x == t {
                assert(tally@[t0.len() as int].0 == x);
            } else {
                assert(before(x) > 0);
                let a = choose|a: int| 0 <= a < t0.len() && (#[trigger] t0[a]).0 == x;
                assert(tally@[a].0 == x);
            }
        }
    }
}

/// Adds one occurrence of `v` to a tally.
fn bump_severity(tally: &mut Vec<(SmellSeverity, usize)>, v: SmellSeverity, Ghost(before): Ghost<spec_fn(SmellSeverity) -> nat>, Ghost(after): Ghost<spec_fn(SmellSeverity) -> nat>)
    requires
        tally_of(old(tally)@, before),
        forall|x: SmellSeverity| #[trigger] after(x) == before(x) + if x == v { 1nat } else { 0nat },
        before(v) < usize::MAX,
    ensures
        tally_of(final(tally)@, after),
{
    let ghost t0 = tally@;
    let mut k: usize = 0;
    while k < tally.len()
        invariant
            k <= t0.len(),
            tally@ == t0,
            tally_of(t0, before),
            forall|q: int| 0 <= q < k ==> t0[q].0 != v,
            forall|x: SmellSeverity| #[trigger] after(x) == before(x) + if x == v { 1nat } else { 0nat },
            before(v) < usize::MAX,
        decreases t0.len() - k,
    {
        if tally[k].0 == v {
            assert(t0[k as int].1 == before(t0[k as int].0));
            let c = tally[k].1;
            tally.set(k, (v, c + 1));
            proof {
                assert forall|a: int| 0 <= a < tally@.len() implies (#[trigger] tally@[a]).1 == after(tally@[a].0) && after(tally@[a].0) > 0 by {
                    assert(t0[a].1 == before(t0[a].0));
                }
                assert forall|x: SmellSeverity| #[trigger] after(x) > 0 implies exists|a: int| 0 <= a < tally@.len() && (#[trigger] tally@[a]).0 == x by {
                    if x == v {
                        assert(tally@[k as int].0 == x);
                    } else {
                        assert(before(x) > 0);
                        let a = choose|a: int| 0 <= a < t0.len() && (#[trigger] t0[a]).0 == x;
                        assert(tally@[a].0 == x);
                    }
                }
            }
            return;
        }
        k = k + 1;
    }
    tally.push((v, 1));
    proof {
        assert(before(v) == 0) by {
            if before(v) > 0 {
                let a = choose|a: int| 0 <= a < t0.len() && (#[trigger] t0[a]).0 == v;
            }
        }
        assert forall|a: int| 0 <= a < tally@.len() implies (#[trigger] tally@[a]).1 == after(tally@[a].0) && after(tally@[a].0) > 0 by {
            if a < t0.len() {
                assert(t0[a].1 == before(t0[a].0));
            }
        }
        assert forall|x: SmellSeverity| #[trigger] after(x) > 0 implies exists|a: int| 0 <= a < tally@.len() && (#[trigger] tally@[a]).0 == x by {
            if x == v {
                assert(tally@[t0.len() as int].0 == x);
            } else {
                assert(before(x) > 0);
                let a = choose|a: int| 0 <= a < t0.len() && (#[trigger] t0[a]).0 == x;
                assert(tally@[a].0 == x);
            }
        }
    }
}

/// Counts code smells by type and by severity; the total is the number of
/// findings given (the findings of the quality checks, all code smells). The
/// order of the entries is the order in which each key first occurs.
pub fn code_smell_stats(smells: &Vec<Finding>) -> (r: CodeSmellStats)
    ensures
        r.total_smells == smells@.len(),
        tally_of(r.by_type@, |t: CodeSmellType| type_count(smells@, t)),
        tally_of(r.by_severity@, |v: SmellSeverity| severity_count(smells@, v)),
{
    let ghost fs = smells@;
    let mut by_type: Vec<(CodeSmellType, usize)> = Vec::new();
    let mut by_severity: Vec<(SmellSeverity, usize)> = Vec::new();
    let mut i: usize = 0;
    while i < smells.len()
        invariant
            i <= fs.len(),
            fs == smells@,
            tally_of(by_type@, |t: CodeSmellType| type_count(fs.take(i as int), t)),
            tally_of(by_severity@, |v: SmellSeverity| severity_count(fs.take(i as int), v)),
        decreases fs.len() - i,
    {
        let ghost pre = fs.take(i as int);
        let ghost post = fs.take(i + 1);
        assert(post.drop_last() =~= pre);
        assert(post.last() == fs[i as int]);
        match &smells[i] {
            Finding::CodeSmell { smell_type, severity, .. } => {
                proof {
                    lemma_type_count_bound(pre, *smell_type);
                    lemma_severity_count_bound(pre, *severity);
                }
                bump_type(
                    &mut by_type,
                    *smell_type,
                    Ghost(|t: CodeSmellType| type_count(pre, t)),
                    Ghost(|t: CodeSmellType| type_count(post, t)),
                );
                bump_severity(
                    &mut by_severity,
                    *severity,
                    Ghost(|v: SmellSeverity| severity_count(pre, v)),
                    Ghost(|v: SmellSeverity| severity_count(post, v)),
                );
            },
            _ => {
                proof {
                    assert((|x: CodeSmellType| type_count(post, x)) =~= (|x: CodeSmellType| type_count(pre, x)));
                    assert((|x: SmellSeverity| severity_count(post, x)) =~= (|x: SmellSeverity| severity_count(pre, x)));
                }
            },
        }
        i = i + 1;
    }
    assert(fs.take(fs.len() as int) =~= fs);
    CodeSmellStats { total_smells: smells.len(), by_type, by_severity }
}


/// The kinds of findings the statistics count.
#[derive(Debug, Clone, Copy, PartialEq, Eq, Structural)]
pub enum CountedKind {
    UnreachableFile,
    UnusedPrivateClassMember,
    UnusedPublicClassMember,
    UnusedEnumMember,
    UnusedNpmDependency,
    SideEffectOnlyImport,
    NamespaceImport,
    TypeOnlyImport,
    DeadCodeModule,
    DependencyChain,
    CodeSmell,
    DynamicImport,
    CircularDependency,
}

/// Finding `f` is of kind `k`.
pub open spec fn is_kind(f: Finding, k: CountedKind) -> bool {
    match k {
        CountedKind::UnreachableFile => f is UnreachableFile,
        CountedKind::UnusedPrivateClassMember => f is UnusedPrivateClassMember,
        CountedKind::UnusedPublicClassMember => f is UnusedPublicClassMember,
        CountedKind::UnusedEnumMember => f is UnusedEnumMember,
        CountedKind::UnusedNpmDependency => f is UnusedNpmDependency,
        CountedKind::SideEffectOnlyImport => f is SideEffectOnlyImport,
        CountedKind::NamespaceImport => f is NamespaceImport,
        CountedKind::TypeOnlyImport => f is TypeOnlyImport,
        CountedKind::DeadCodeModule => f is DeadCodeModule,
        CountedKind::DependencyChain => f is DependencyChain,
        CountedKind::CodeSmell => f is CodeSmell,
        CountedKind::DynamicImport => f is DynamicImport,
        CountedKind::CircularDependency => f is CircularDependency,
    }
}

/// The number of findings of kind `k`.
pub open spec fn kind_count(fs: Seq<Finding>, k: CountedKind) -> nat {
    count_where(fs, |f: Finding| is_kind(f, k))
}

/// Whether a finding is of kind `k`.
fn finding_is_kind(f: &Finding, k: CountedKind) -> (r: bool)
    ensures
        r == is_kind(*f, k),
{
    match k {
        CountedKind::UnreachableFile => matches!(f, Finding::UnreachableFile { .. }),
        CountedKind::UnusedPrivateClassMember => matches!(f, Finding::UnusedPrivateClassMember { .. }),
        CountedKind::UnusedPublicClassMember => matches!(f, Finding::UnusedPublicClassMember { .. }),
        CountedKind::UnusedEnumMember => matches!(f, Finding::UnusedEnumMember { .. }),
        CountedKind::UnusedNpmDependency => matches!(f, Finding::UnusedNpmDependency { .. }),
        CountedKind::SideEffectOnlyImport => matches!(f, Finding::SideEffectOnlyImport { .. }),
        CountedKind::NamespaceImport => matches!(f, Finding::NamespaceImport { .. }),
        CountedKind::TypeOnlyImport => matches!(f, Finding::TypeOnlyImport { .. }),
        CountedKind::DeadCodeModule => matches!(f, Finding::DeadCodeModule { .. }),
        CountedKind::DependencyChain => matches!(f, Finding::DependencyChain { .. }),
        CountedKind::CodeSmell => matches!(f, Finding::CodeSmell { .. }),
        CountedKind::DynamicImport => matches!(f, Finding::DynamicImport(_)),
        CountedKind::CircularDependency => matches!(f, Finding::CircularDependency(_)),
    }
}

/// Counts the findings of one kind.
pub fn count_kind(findings: &Vec<Finding>, k: CountedKind) -> (r: usize)
    ensures
        r == kind_count(findings@, k),
{
    let ghost fs = findings@;
    let ghost p = |f: Finding| is_kind(f, k);
    let mut c: usize = 0;
    let mut i: usize = 0;
    while i < findings.len()
        invariant
            fs == findings@,
            i <= fs.len(),
            p == (|f: Finding| is_kind(f, k)),
            c == count_where(fs.take(i as int), p),
        decreases fs.len() - i,
    {
        proof {
            assert(fs.take(i + 1).drop_last() =~= fs.take(i as int));
            lemma_count_where_bound(fs.take(i as int), p);
        }
        if finding_is_kind(&findings[i], k) {
            c = c + 1;
        }
        i = i + 1;
    }
    assert(fs.take(fs.len() as int) =~= fs);
    c
}

/// The number of imports of the modules.
pub open spec fn import_total(modules: Seq<ModuleRecord>) -> int
    decreases modules.len(),
{
    if modules.len() == 0 {
        0
    } else {
        import_total(modules.drop_last()) + modules.last().imports@.len()
    }
}

/// What the statistics take from the analysis besides the findings and the
/// modules: the figures gathered along the way.
pub struct StatisticsParts {
    pub external_dependencies: usize,
    pub frameworks_detected: Vec<String>,
    pub unused_exports_count: usize,
    pub unreachable_modules_count: usize,
    pub framework_exports_count: usize,
    pub symbol_statistics: Option<SymbolStats>,
    pub bundle_size_impact: Option<BundleSizeImpact>,
    pub type_only_unused_exports_count: usize,
    pub class_member_stats: Option<ClassMemberStats>,
    pub enum_stats: Option<EnumStats>,
    pub dependency_coverage_stats: Option<DependencyCoverageStats>,
    pub duration_ms: u64,
    pub code_quality_stats: Option<CodeSmellStats>,
}

/// The summary statistics of an analysis: module and import totals from the
/// graph, the counts of each kind of finding, and the figures gathered along
/// the way; nothing is ignored yet.
pub fn assemble_statistics(findings: &Vec<Finding>, modules: &Vec<ModuleRecord>, parts: StatisticsParts) -> (r: Statistics)
    requires
        forall|k: int| 0 <= k <= modules@.len() ==> import_total(#[trigger] modules@.take(k)) <= usize::MAX,
    ensures
        r.total_modules == modules@.len(),
        r.total_dependencies == import_total(modules@),
        r.external_dependencies == parts.external_dependencies,
        r.frameworks_detected == parts.frameworks_detected,
        r.unused_exports_count == parts.unused_exports_count,
        r.unreachable_modules_count == parts.unreachable_modules_count,
        r.unreachable_files_count == kind_count(findings@, CountedKind::UnreachableFile),
        r.framework_exports_count == parts.framework_exports_count,
        r.symbol_statistics == parts.symbol_statistics,
        r.bundle_size_impact == parts.bundle_size_impact,
        r.dynamic_imports_count == kind_count(findings@, CountedKind::DynamicImport),
        r.circular_dependencies_count == kind_count(findings@, CountedKind::CircularDependency),
        r.type_only_unused_exports_count == parts.type_only_unused_exports_count,
        r.unused_private_class_members_count == kind_count(findings@, CountedKind::UnusedPrivateClassMember),
        r.unused_public_class_members_count == kind_count(findings@, CountedKind::UnusedPublicClassMember),
        r.unused_enum_members_count == kind_count(findings@, CountedKind::UnusedEnumMember),
        r.unused_npm_dependencies_count == kind_count(findings@, CountedKind::UnusedNpmDependency),
        r.side_effect_only_imports_count == kind_count(findings@, CountedKind::SideEffectOnlyImport),
        r.namespace_imports_count == kind_count(findings@, CountedKind::NamespaceImport),
        r.type_only_imports_count == kind_count(findings@, CountedKind::TypeOnlyImport),
        r.dead_code_modules_count == kind_count(findings@, CountedKind::DeadCodeModule),
        r.dependency_chains_count == kind_count(findings@, CountedKind::DependencyChain),
        r.class_member_stats == parts.class_member_stats,
        r.enum_stats == parts.enum_stats,
        r.dependency_coverage_stats == parts.dependency_coverage_stats,
        r.ignored_findings_count == 0,
        r.ignored_findings_breakdown is None,
        r.duration_ms == parts.duration_ms,
        r.code_quality_stats == parts.code_quality_stats,
        r.code_smells_count == kind_count(findings@, CountedKind::CodeSmell),
{
    let mut total_dependencies: usize = 0;
    let mut i: usize = 0;
    while i < modules.len()
        invariant
            i <= modules@.len(),
            forall|k: int| 0 <= k <= modules@.len() ==> import_total(#[trigger] modules@.take(k)) <= usize::MAX,
            total_dependencies == import_total(modules@.take(i as int)),
        decreases modules@.len() - i,
    {
        assert(modules@.take(i + 1).drop_last() =~= modules@.take(i as int));
        assert(modules@.take(i + 1).last() == modules@[i as int]);
        assert(import_total(modules@.take(i + 1)) <= usize::MAX);
        total_dependencies = total_dependencies + modules[i].imports.len();
        i = i + 1;
    }
    assert(modules@.take(modules@.len() as int) =~= modules@);
    Statistics {
        total_modules: modules.len(),
        total_dependencies,
        external_dependencies: parts.external_dependencies,
        frameworks_detected: parts.frameworks_detected,
        unused_exports_count: parts.unused_exports_count,
        unreachable_modules_count: parts.unreachable_modules_count,
        unreachable_files_count: count_kind(findings, CountedKind::UnreachableFile),
        framework_exports_count: parts.framework_exports_count,
        symbol_statistics: parts.symbol_statistics,
        bundle_size_impact: parts.bundle_size_impact,
        dynamic_imports_count: count_kind(findings, CountedKind::DynamicImport),
        circular_dependencies_count: count_kind(findings, CountedKind::CircularDependency),
        type_only_unused_exports_count: parts.type_only_unused_exports_count,
        unused_private_class_members_count: count_kind(findings, CountedKind::UnusedPrivateClassMember),
        unused_public_class_members_count: count_kind(findings, CountedKind::UnusedPublicClassMember),
        unused_enum_members_count: count_kind(findings, CountedKind::UnusedEnumMember),
        unused_npm_dependencies_count: count_kind(findings, CountedKind::UnusedNpmDependency),
        side_effect_only_imports_count: count_kind(findings, CountedKind::SideEffectOnlyImport),
        namespace_imports_count: count_kind(findings, CountedKind::NamespaceImport),
        type_only_imports_count: count_kind(findings, CountedKind::TypeOnlyImport),
        dead_code_modules_count: count_kind(findings, CountedKind::DeadCodeModule),
        dependency_chains_count: count_kind(findings, CountedKind::DependencyChain),
        class_member_stats: parts.class_member_stats,
        enum_stats: parts.enum_stats,
        dependency_coverage_stats: parts.dependency_coverage_stats,
        ignored_findings_count: 0,
        ignored_findings_breakdown: None,
        duration_ms: parts.duration_ms,
        code_quality_stats: parts.code_quality_stats,
        code_smells_count: count_kind(findings, CountedKind::CodeSmell),
    }
}

/// The errors of the analysis, then its warnings, each reported against the
/// file "unknown" (the bundler gives no file).
pub fn collect_errors(errors: Vec<String>, warnings: Vec<String>) -> (r: Vec<AnalysisError>)
    ensures
        r@.len() == errors@.len() + warnings@.len(),
        forall|k: int| 0 <= k < errors@.len() ==> (#[trigger] r@[k]).message == errors@[k] && r@[k].file@ == "unknown"@
            && r@[k].severity == ErrorSeverity::Error,
        forall|k: int|
            errors@.len() <= k < r@.len() ==> (#[trigger] r@[k]).message == warnings@[k - errors@.len()] && r@[k].file@
                == "unknown"@ && r@[k].severity == ErrorSeverity::Warning,
{
    let ghost es = errors@;
    let ghost ws = warnings@;
    let mut out: Vec<AnalysisError> = Vec::new();
    for message in it: errors
        invariant
            es == it.seq(),
            out@.len() == it.index(),
            forall|k: int| 0 <= k < it.index() ==> (#[trigger] out@[k]).message == es[k] && out@[k].file@ == "unknown"@
                && out@[k].severity == ErrorSeverity::Error,
    {
        out.push(AnalysisError { file: to_owned_string("unknown"), message, severity: ErrorSeverity::Error });
    }
    for message in it: warnings
        invariant
            ws == it.seq(),
            out@.len() == es.len() + it.index(),
            forall|k: int| 0 <= k < es.len() ==> (#[trigger] out@[k]).message == es[k] && out@[k].file@ == "unknown"@
                && out@[k].severity == ErrorSeverity::Error,
            forall|k: int|
                es.len() <= k < out@.len() ==> (#[trigger] out@[k]).message == ws[k - es.len()] && out@[k].file@
                    == "unknown"@ && out@[k].severity == ErrorSeverity::Warning,
    {
        out.push(AnalysisError { file: to_owned_string("unknown"), message, severity: ErrorSeverity::Warning });
    }
    out
}

/// The value of a boolean backend option: the first of the two keys that is
/// present decides (a value that is not a boolean counts as `false`); absent
/// both, the option is off.
pub open spec fn option_value(options: Seq<(String, Option<bool>)>, key: Seq<char>) -> Option<Option<bool>>
    decreases options.len(),
{
    if options.len() == 0 {
        None
    } else if options[0].0@ == key {
        Some(options[0].1)
    } else {
        option_value(options.drop_first(), key)
    }
}

/// Whether a boolean backend option is on: `key`, or else the older name
/// `fallback`, must be present with the value `true`.
pub open spec fn option_enabled(options: Seq<(String, Option<bool>)>, key: Seq<char>, fallback: Option<Seq<char>>) -> bool {
    match option_value(options, key) {
        Some(v) => v == Some(true),
        None => match fallback {
            Some(f) => option_value(options, f) == Some(Some(true)),
            None => false,
        },
    }
}

/// The value given for an option key, if any: `Some(None)` for a value that
/// is not a boolean.
fn lookup_option(options: &Vec<(String, Option<bool>)>, key: &str) -> (r: Option<Option<bool>>)
    ensures
        r == option_value(options@, key@),
{
    let mut i: usize = 0;
    while i < options.len()
        invariant
            i <= options@.len(),
            option_value(options@, key@) == option_value(options@.skip(i as int), key@),
        decreases options@.len() - i,
    {
        assert(options@.skip(i as int)[0] == options@[i as int]);
        assert(options@.skip(i as int).drop_first() =~= options@.skip(i + 1));
        if crate::text::str_eq(options[i].0.as_str(), key) {
            return Some(options[i].1);
        }
        i = i + 1;
    }
    None
}

/// Reads a boolean backend option (options given as key and boolean value,
/// `None` where the value is not a boolean), with an older key name as
/// fallback.
pub fn backend_flag(options: &Vec<(String, Option<bool>)>, key: &str, fallback: Option<&str>) -> (r: bool)
    ensures
        r == option_enabled(options@, key@, match fallback {
            Some(f) => Some(f@),
            None => None,
        }),
{
    match lookup_option(options, key) {
        Some(v) => v == Some(true),
        None => match fallback {
            Some(f) => match lookup_option(options, f) {
                Some(Some(b)) => b,
                _ => false,
            },
            None => false,
        },
    }
}


/// An unused symbol, with the path of the module that declares it.
#[derive(Debug, Clone)]
pub struct UnusedSymbolRecord {
    pub module_file: String,
    pub name: String,
    pub kind: SymbolKind,
    pub line: u32,
    pub column: u32,
    pub offset: u32,
}

/// The symbol is reported: its module is not virtual and its name does not
/// start with an underscore (marking it intentionally unused).
pub open spec fn symbol_kept(u: UnusedSymbolRecord) -> bool {
    !is_virtual(u.module_file@) && !(u.name@.len() > 0 && u.name@[0] == '_')
}

/// `f` reports the unused symbol `u`.
pub open spec fn reports_symbol(f: Finding, u: UnusedSymbolRecord) -> bool {
    f == Finding::UnusedSymbol {
        module: u.module_file,
        symbol_name: u.name,
        kind: u.kind,
        span: SymbolSpan { file: u.module_file, line: u.line, column: u.column, offset: u.offset },
        explanation: None,
    }
}

/// The unused-symbol findings: symbols of virtual modules and symbols whose
/// name starts with an underscore are left out.
pub fn convert_unused_symbols(symbols: &Vec<UnusedSymbolRecord>) -> (out: Vec<Finding>)
    ensures
        kept_related(symbols@, out@, |u: UnusedSymbolRecord| symbol_kept(u), |f: Finding, u: UnusedSymbolRecord| reports_symbol(f, u)),
{
    let ghost keep = |u: UnusedSymbolRecord| symbol_kept(u);
    let ghost rel = |f: Finding, u: UnusedSymbolRecord| reports_symbol(f, u);
    let mut out: Vec<Finding> = Vec::new();
    let mut i: usize = 0;
    while i < symbols.len()
        invariant
            i <= symbols@.len(),
            keep == (|u: UnusedSymbolRecord| symbol_kept(u)),
            rel == (|f: Finding, u: UnusedSymbolRecord| reports_symbol(f, u)),
            kept_related(symbols@.take(i as int), out@, keep, rel),
        decreases symbols@.len() - i,
    {
        let u = &symbols[i];
        assert(symbols@.take(i + 1) =~= symbols@.take(i as int).push(*u));
        let name = crate::text::chars_of(u.name.as_str());
        let underscore = name.len() > 0 && name[0] == '_';
        if !is_virtual_path(u.module_file.as_str()) && !underscore {
            let f = Finding::UnusedSymbol {
                module: u.module_file.clone(),
                symbol_name: u.name.clone(),
                kind: u.kind,
                span: SymbolSpan { file: u.module_file.clone(), line: u.line, column: u.column, offset: u.offset },
                explanation: None,
            };
            proof {
                lemma_kept_push(symbols@.take(i as int), out@, keep, rel, *u, f);
            }
            out.push(f);
        } else {
            proof {
                lemma_kept_skip(symbols@.take(i as int), out@, keep, rel, *u);
            }
        }
        i = i + 1;
    }
    assert(symbols@.take(symbols@.len() as int) =~= symbols@);
    out
}

/// A module of the graph with whether it is reachable only through dead code.
#[derive(Debug, Clone)]
pub struct DeadCodeRecord {
    pub path: String,
    pub size: usize,
    pub only_through_dead_code: bool,
}

/// The dead-code-module findings: the modules outside virtual paths that are
/// reachable only through dead code.
pub fn dead_code_modules(modules: &Vec<DeadCodeRecord>) -> (out: Vec<Finding>)
    ensures
        kept_related(
            modules@,
            out@,
            |m: DeadCodeRecord| !is_virtual(m.path@) && m.only_through_dead_code,
            |f: Finding, m: DeadCodeRecord| f == Finding::DeadCodeModule { path: m.path, size: m.size },
        ),
{
    let ghost keep = |m: DeadCodeRecord| !is_virtual(m.path@) && m.only_through_dead_code;
    let ghost rel = |f: Finding, m: DeadCodeRecord| f == Finding::DeadCodeModule { path: m.path, size: m.size };
    let mut out: Vec<Finding> = Vec::new();
    let mut i: usize = 0;
    while i < modules.len()
        invariant
            i <= modules@.len(),
            keep == (|m: DeadCodeRecord| !is_virtual(m.path@) && m.only_through_dead_code),
            rel == (|f: Finding, m: DeadCodeRecord| f == Finding::DeadCodeModule { path: m.path, size: m.size }),
            kept_related(modules@.take(i as int), out@, keep, rel),
        decreases modules@.len() - i,
    {
        let m = &modules[i];
        assert(modules@.take(i + 1) =~= modules@.take(i as int).push(*m));
        if !is_virtual_path(m.path.as_str()) && m.only_through_dead_code {
            let f = Finding::DeadCodeModule { path: m.path.clone(), size: m.size };
            proof {
                lemma_kept_push(modules@.take(i as int), out@, keep, rel, *m, f);
            }
            out.push(f);
        } else {
            proof {
                lemma_kept_skip(modules@.take(i as int), out@, keep, rel, *m);
            }
        }
        i = i + 1;
    }
    assert(modules@.take(modules@.len() as int) =~= modules@);
    out
}

/// The chains deeper than five levels, in order: only those are reported, to
/// keep the findings few.
pub fn deep_chains(chains: Vec<ChainRecord>) -> (r: Vec<ChainRecord>)
    ensures
        r@ == chains@.filter(|c: ChainRecord| c.depth > 5),
{
    let ghost cs = chains@;
    let mut out: Vec<ChainRecord> = Vec::new();
    for c in it: chains
        invariant
            cs == it.seq(),
            out@ == cs.take(it.index() as int).filter(|c: ChainRecord| c.depth > 5),
    {
        proof {
            assert(cs.take(it.index() + 1).drop_last() =~= cs.take(it.index() as int));
            reveal_with_fuel(Seq::filter, 1);
        }
        if c.depth > 5 {
            out.push(c);
        }
    }
    assert(cs.take(cs.len() as int) =~= cs);
    out
}

/// A side-effect-only import (`import "./x"`), with the module that makes it.
#[derive(Debug, Clone)]
pub struct SideEffectImportRecord {
    /// Identifier of the importing module, as it is shown in messages.
    pub importer_id: String,
    /// Path of the importing module, `None` when the graph has no such module.
    pub importer_file: Option<String>,
    pub source: String,
    /// Path of the module the import resolved to, if any.
    pub resolved_file: Option<String>,
    pub span: SourceLocation,
}

/// A namespace import (`import * as ns from "./x"`), with the module that makes it.
#[derive(Debug, Clone)]
pub struct NamespaceImportRecord {
    pub importer_id: String,
    pub importer_file: Option<String>,
    pub namespace_name: String,
    pub source: String,
    pub resolved_file: Option<String>,
}

/// What a type-only import brings in.
#[derive(Debug, Clone, PartialEq, Eq)]
pub enum ImportSpecifierRecord {
    Named(String),
    Default,
    Namespace(String),
}

/// A type-only import (`import type { T } from "./x"`), with the module that makes it.
#[derive(Debug, Clone)]
pub struct TypeOnlyImportRecord {
    pub importer_id: String,
    pub importer_file: Option<String>,
    pub source: String,
    pub specifiers: Vec<ImportSpecifierRecord>,
    pub span: SourceLocation,
}

/// `f` reports the side-effect-only import `s`.
pub open spec fn reports_side_effect_import(f: Finding, s: SideEffectImportRecord) -> bool {
    f == Finding::SideEffectOnlyImport {
        module: s.importer_file.unwrap(),
        source: s.source,
        resolved_to: s.resolved_file,
        span: s.span,
    }
}

/// `f` reports the namespace import `n`.
pub open spec fn reports_namespace_import(f: Finding, n: NamespaceImportRecord) -> bool {
    f == Finding::NamespaceImport {
        module: n.importer_file.unwrap(),
        namespace_name: n.namespace_name,
        source: n.source,
        resolved_to: n.resolved_file,
    }
}

/// The name a specifier is listed under: its name, or "default".
pub open spec fn specifier_name(s: ImportSpecifierRecord) -> Seq<char> {
    match s {
        ImportSpecifierRecord::Named(n) => n@,
        ImportSpecifierRecord::Default => "default"@,
        ImportSpecifierRecord::Namespace(n) => n@,
    }
}

/// `f` reports the type-only import `t`.
pub open spec fn reports_type_only_import(f: Finding, t: TypeOnlyImportRecord) -> bool {
    match f {
        Finding::TypeOnlyImport { module, source, specifiers, span } => {
            &&& module == t.importer_file.unwrap()
            &&& source == t.source
            &&& span == t.span
            &&& specifiers@.len() == t.specifiers@.len()
            &&& forall|k: int| 0 <= k < specifiers@.len() ==> (#[trigger] specifiers@[k])@ == specifier_name(t.specifiers@[k])
        },
        _ => false,
    }
}

fn copy_location(l: &SourceLocation) -> (r: SourceLocation)
    ensures
        r == *l,
{
    SourceLocation { file: l.file.clone(), start: l.start, end: l.end }
}

/// The side-effect-only import findings, leaving out imports made by virtual
/// modules. Fails on the first import whose importing module is missing.
pub fn convert_side_effect_imports(imports: &Vec<SideEffectImportRecord>) -> (r: Result<Vec<Finding>, String>)
    ensures
        conversion_outcome(
            imports@,
            |s: SideEffectImportRecord| s.importer_file is None,
            |s: SideEffectImportRecord| s.importer_id@,
            |s: SideEffectImportRecord| !is_virtual(s.importer_file.unwrap()@),
            |f: Finding, s: SideEffectImportRecord| reports_side_effect_import(f, s),
            r,
        ),
{
    let ghost missing = |s: SideEffectImportRecord| s.importer_file is None;
    let ghost keep = |s: SideEffectImportRecord| !is_virtual(s.importer_file.unwrap()@);
    let ghost rel = |f: Finding, s: SideEffectImportRecord| reports_side_effect_import(f, s);
    let mut out: Vec<Finding> = Vec::new();
    let mut k: usize = 0;
    while k < imports.len()
        invariant
            k <= imports@.len(),
            missing == (|s: SideEffectImportRecord| s.importer_file is None),
            keep == (|s: SideEffectImportRecord| !is_virtual(s.importer_file.unwrap()@)),
            rel == (|f: Finding, s: SideEffectImportRecord| reports_side_effect_import(f, s)),
            forall|i: int| 0 <= i < k ==> !missing(#[trigger] imports@[i]),
            kept_related(imports@.take(k as int), out@, keep, rel),
        decreases imports@.len() - k,
    {
        let s = &imports[k];
        assert(imports@.take(k + 1) =~= imports@.take(k as int).push(*s));
        match &s.importer_file {
            None => {
                assert(missing(imports@[k as int]));
                return Err(module_not_found(&s.importer_id));
            },
            Some(file) => {
                if !is_virtual_path(file.as_str()) {
                    let f = Finding::SideEffectOnlyImport {
                        module: file.clone(),
                        source: s.source.clone(),
                        resolved_to: copy_opt(&s.resolved_file),
                        span: copy_location(&s.span),
                    };
                    proof {
                        lemma_kept_push(imports@.take(k as int), out@, keep, rel, *s, f);
                    }
                    out.push(f);
                } else {
                    proof {
                        lemma_kept_skip(imports@.take(k as int), out@, keep, rel, *s);
                    }
                }
            },
        }
        k = k + 1;
    }
    assert(imports@.take(imports@.len() as int) =~= imports@);
    Ok(out)
}

/// The namespace import findings, leaving out imports made by virtual modules.
/// Fails on the first import whose importing module is missing.
pub fn convert_namespace_imports(imports: &Vec<NamespaceImportRecord>) -> (r: Result<Vec<Finding>, String>)
    ensures
        conversion_outcome(
            imports@,
            |n: NamespaceImportRecord| n.importer_file is None,
            |n: NamespaceImportRecord| n.importer_id@,
            |n: NamespaceImportRecord| !is_virtual(n.importer_file.unwrap()@),
            |f: Finding, n: NamespaceImportRecord| reports_namespace_import(f, n),
            r,
        ),
{
    let ghost missing = |n: NamespaceImportRecord| n.importer_file is None;
    let ghost keep = |n: NamespaceImportRecord| !is_virtual(n.importer_file.unwrap()@);
    let ghost rel = |f: Finding, n: NamespaceImportRecord| reports_namespace_import(f, n);
    let mut out: Vec<Finding> = Vec::new();
    let mut k: usize = 0;
    while k < imports.len()
        invariant
            k <= imports@.len(),
            missing == (|n: NamespaceImportRecord| n.importer_file is None),
            keep == (|n: NamespaceImportRecord| !is_virtual(n.importer_file.unwrap()@)),
            rel == (|f: Finding, n: NamespaceImportRecord| reports_namespace_import(f, n)),
            forall|i: int| 0 <= i < k ==> !missing(#[trigger] imports@[i]),
            kept_related(imports@.take(k as int), out@, keep, rel),
        decreases imports@.len() - k,
    {
        let n = &imports[k];
        assert(imports@.take(k + 1) =~= imports@.take(k as int).push(*n));
        match &n.importer_file {
            None => {
                assert(missing(imports@[k as int]));
                return Err(module_not_found(&n.importer_id));
            },
            Some(file) => {
                if !is_virtual_path(file.as_str()) {
                    let f = Finding::NamespaceImport {
                        module: file.clone(),
                        namespace_name: n.namespace_name.clone(),
                        source: n.source.clone(),
                        resolved_to: copy_opt(&n.resolved_file),
                    };
                    proof {
                        lemma_kept_push(imports@.take(k as int), out@, keep, rel, *n, f);
                    }
                    out.push(f);
                } else {
                    proof {
                        lemma_kept_skip(imports@.take(k as int), out@, keep, rel, *n);
                    }
                }
            },
        }
        k = k + 1;
    }
    assert(imports@.take(imports@.len() as int) =~= imports@);
    Ok(out)
}

/// The names of a type-only import's specifiers.
fn specifier_names(specifiers: &Vec<ImportSpecifierRecord>) -> (r: Vec<String>)
    ensures
        r@.len() == specifiers@.len(),
        forall|k: int| 0 <= k < r@.len() ==> (#[trigger] r@[k])@ == specifier_name(specifiers@[k]),
{
    let mut out: Vec<String> = Vec::new();
    let mut i: usize = 0;
    while i < specifiers.len()
        invariant
            i <= specifiers@.len(),
            out@.len() == i,
            forall|k: int| 0 <= k < i ==> (#[trigger] out@[k])@ == specifier_name(specifiers@[k]),
        decreases specifiers@.len() - i,
    {
        let name = match &specifiers[i] {
            ImportSpecifierRecord::Named(n) => n.clone(),
            ImportSpecifierRecord::Default => to_owned_string("default"),
            ImportSpecifierRecord::Namespace(n) => n.clone(),
        };
        out.push(name);
        i = i + 1;
    }
    out
}

/// The type-only import findings, leaving out imports made by virtual
/// modules. Fails on the first import whose importing module is missing.
pub fn convert_type_only_imports(imports: &Vec<TypeOnlyImportRecord>) -> (r: Result<Vec<Finding>, String>)
    ensures
        conversion_outcome(
            imports@,
            |t: TypeOnlyImportRecord| t.importer_file is None,
            |t: TypeOnlyImportRecord| t.importer_id@,
            |t: TypeOnlyImportRecord| !is_virtual(t.importer_file.unwrap()@),
            |f: Finding, t: TypeOnlyImportRecord| reports_type_only_import(f, t),
            r,
        ),
{
    let ghost missing = |t: TypeOnlyImportRecord| t.importer_file is None;
    let ghost keep = |t: TypeOnlyImportRecord| !is_virtual(t.importer_file.unwrap()@);
    let ghost rel = |f: Finding, t: TypeOnlyImportRecord| reports_type_only_import(f, t);
    let mut out: Vec<Finding> = Vec::new();
    let mut k: usize = 0;
    while k < imports.len()
        invariant
            k <= imports@.len(),
            missing == (|t: TypeOnlyImportRecord| t.importer_file is None),
            keep == (|t: TypeOnlyImportRecord| !is_virtual(t.importer_file.unwrap()@)),
            rel == (|f: Finding, t: TypeOnlyImportRecord| reports_type_only_import(f, t)),
            forall|i: int| 0 <= i < k ==> !missing(#[trigger] imports@[i]),
            kept_related(imports@.take(k as int), out@, keep, rel),
        decreases imports@.len() - k,
    {
        let t = &imports[k];
        assert(imports@.take(k + 1) =~= imports@.take(k as int).push(*t));
        match &t.importer_file {
            None => {
                assert(missing(imports@[k as int]));
                return Err(module_not_found(&t.importer_id));
            },
            Some(file) => {
                if !is_virtual_path(file.as_str()) {
                    let f = Finding::TypeOnlyImport {
                        module: file.clone(),
                        source: t.source.clone(),
                        specifiers: specifier_names(&t.specifiers),
                        span: copy_location(&t.span),
                    };
                    proof {
                        lemma_kept_push(imports@.take(k as int), out@, keep, rel, *t, f);
                    }
                    out.push(f);
                } else {
                    proof {
                        lemma_kept_skip(imports@.take(k as int), out@, keep, rel, *t);
                    }
                }
            },
        }
        k = k + 1;
    }
    assert(imports@.take(imports@.len() as int) =~= imports@);
    Ok(out)
}


/// Some path of the list names the same path as `p`, component by component.
pub open spec fn path_listed(paths: Seq<String>, p: Seq<char>) -> bool {
    exists|i: int| 0 <= i < paths.len() && path_components_eq(#[trigger] paths[i]@, p)
}

/// Whether some path of the list names the same path as `p`.
fn path_in(paths: &Vec<String>, p: &str) -> (r: bool)
    ensures
        r == path_listed(paths@, p@),
{
    let mut i: usize = 0;
    while i < paths.len()
        invariant
            i <= paths@.len(),
            forall|j: int| 0 <= j < i ==> !path_components_eq(#[trigger] paths@[j]@, p@),
        decreases paths@.len() - i,
    {
        if path_eq(paths[i].as_str(), p) {
            return true;
        }
        i = i + 1;
    }
    false
}

/// The unreachable-file findings: each discovered source file that is neither
/// a module of the graph nor an entry point (the size is not measured here
/// and is reported as zero).
pub fn find_unreachable_files(discovered: Vec<String>, module_paths: &Vec<String>, entry_points: &Vec<String>) -> (out: Vec<Finding>)
    ensures
        kept_related(
            discovered@,
            out@,
            |p: String| !path_listed(module_paths@, p@) && !path_listed(entry_points@, p@),
            |f: Finding, p: String| f == Finding::UnreachableFile { path: p, size: 0, explanation: None },
        ),
{
    let ghost ds = discovered@;
    let ghost keep = |p: String| !path_listed(module_paths@, p@) && !path_listed(entry_points@, p@);
    let ghost rel = |f: Finding, p: String| f == Finding::UnreachableFile { path: p, size: 0, explanation: None };
    let mut out: Vec<Finding> = Vec::new();
    for p in it: discovered
        invariant
            ds == it.seq(),
            keep == (|p: String| !path_listed(module_paths@, p@) && !path_listed(entry_points@, p@)),
            rel == (|f: Finding, p: String| f == Finding::UnreachableFile { path: p, size: 0, explanation: None }),
            kept_related(ds.take(it.index() as int), out@, keep, rel),
    {
        let ghost k = it.index() as int;
        assert(ds.take(k + 1) =~= ds.take(k).push(p));
        if !path_in(module_paths, p.as_str()) && !path_in(entry_points, p.as_str()) {
            let ghost pv = p;
            let f = Finding::UnreachableFile { path: p, size: 0, explanation: None };
            proof {
                lemma_kept_push(ds.take(k), out@, keep, rel, pv, f);
            }
            out.push(f);
        } else {
            proof {
                lemma_kept_skip(ds.take(k), out@, keep, rel, p);
            }
        }
    }
    assert(ds.take(ds.len() as int) =~= ds);
    out
}

/// Checks the quality thresholds before the quality detectors run: an
/// invalid configuration is a backend error of the JavaScript backend.
pub fn check_quality_config(config: &CodeQualityConfig) -> (r: Result<(), Error>)
    ensures
        match quality_config_error(*config) {
            None => r is Ok,
            Some(msg) => r matches Err(Error::Backend { backend, message }) && backend@ == "JavaScript"@
                && message@ == "Invalid quality configuration: "@ + msg,
        },
{
    match config.validate() {
        Ok(()) => Ok(()),
        Err(msg) => {
            let mut message = to_owned_string("Invalid quality configuration: ");
            crate::text::push_str(&mut message, msg.as_str());
            Err(Error::Backend { backend: to_owned_string("JavaScript"), message })
        },
    }
}

} // verus!
