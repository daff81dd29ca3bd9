//! Analyzers that turn module-graph facts into findings and statistics.
use vstd::prelude::*;
use crate::findings::{
    ClassMemberKind, ClassMemberStats, DynamicImportInfo, EnumStats, EnumValue, Finding,
    MemberVisibility, SafetyAssessment, SymbolSpan,
};
use crate::paths::{is_virtual, is_virtual_path, path_components_eq, path_eq, path_file_name, path_file_name_of};
use crate::text::{chars_of, contains_chars, seq_contains_seq, str_eq, to_owned_string};

verus! {

broadcast use vstd::seq_lib::group_seq_properties;

/// Analyzes dynamic imports for code-splitting opportunities.
pub struct DynamicImportAnalyzer;

/// The dynamic import records of (from, to, source, is_external) tuples; an
/// import creates a chunk when it is not external.
pub open spec fn dynamic_infos(imports: Seq<(String, String, String, bool)>) -> Seq<DynamicImportInfo> {
    imports.map_values(
        |e: (String, String, String, bool)|
            DynamicImportInfo { from: e.0, to: e.1, source: e.2, creates_chunk: !e.3 },
    )
}

/// The size recorded for a path in a list of (path, size) pairs: that of the
/// first entry whose path has the same components.
pub open spec fn size_of_path(sizes: Seq<(String, usize)>, path: Seq<char>) -> Option<usize>
    decreases sizes.len(),
{
    if sizes.len() == 0 {
        None
    } else if path_components_eq(sizes[0].0@, path) {
        Some(sizes[0].1)
    } else {
        size_of_path(sizes.drop_first(), path)
    }
}

/// Some path of the list has the same components as `path`.
pub open spec fn paths_contain(paths: Seq<String>, path: Seq<char>) -> bool {
    exists|i: int| 0 <= i < paths.len() && path_components_eq(#[trigger] paths[i]@, path)
}

/// Whether some path of the list has the same components as `path`.
fn contains_path(paths: &Vec<String>, path: &str) -> (r: bool)
    ensures
        r == paths_contain(paths@, path@),
{
    let mut i: usize = 0;
    while i < paths.len()
        invariant
            i <= paths@.len(),
            forall|j: int| 0 <= j < i ==> !path_components_eq(#[trigger] paths@[j]@, path@),
        decreases paths@.len() - i,
    {
        if path_eq(paths[i].as_str(), path) {
            return true;
        }
        i = i + 1;
    }
    false
}

/// The total size of the targets of chunk-creating imports that have a size.
pub open spec fn lazy_potential(imports: Seq<DynamicImportInfo>, sizes: Seq<(String, usize)>) -> int
    decreases imports.len(),
{
    if imports.len() == 0 {
        0
    } else {
        lazy_potential(imports.drop_last(), sizes) + if imports.last().creates_chunk {
            match size_of_path(sizes, imports.last().to@) {
                Some(n) => n as int,
                None => 0,
            }
        } else {
            0
        }
    }
}

/// The imports grouped by parent: one group per distinct `from` of the imports
/// (each key is the parent of some import), each holding the imports from
/// that parent in input order.
pub open spec fn grouped_ok(imports: Seq<DynamicImportInfo>, groups: Seq<(String, Vec<DynamicImportInfo>)>) -> bool {
    &&& forall|i: int, j: int| 0 <= i < j < groups.len() ==> groups[i].0@ != groups[j].0@
    &&& forall|i: int| 0 <= i < groups.len() ==> #[trigger] groups[i].1@ == imports.filter(
        |d: DynamicImportInfo| d.from@ == groups[i].0@,
    )
    &&& forall|k: int| 0 <= k < imports.len() ==> exists|i: int|
        0 <= i < groups.len() && #[trigger] groups[i].0@ == (#[trigger] imports[k]).from@
    &&& forall|i: int| 0 <= i < groups.len() ==> (#[trigger] groups[i].1@).len() > 0
}

/// Appends an import to the group at `i`, whose key is the import's parent.
fn extend_group_at(
    groups: &mut Vec<(String, Vec<DynamicImportInfo>)>,
    import: DynamicImportInfo,
    Ghost(prefix): Ghost<Seq<DynamicImportInfo>>,
    i: usize,
)
    requires
        grouped_ok(prefix, old(groups)@),
        i < old(groups)@.len(),
        old(groups)@[i as int].0@ == import.from@,
    ensures
        grouped_ok(prefix.push(import), final(groups)@),
{
    let ghost imports = prefix.push(import);
    let (key, mut members) = groups.remove(i);
    let ghost old_members = members@;
    members.push(import);
    groups.insert(i, (key, members));
    proof {
        reveal_with_fuel(Seq::filter, 1);
        assert(imports.drop_last() =~= prefix);
        assert forall|a: int| 0 <= a < groups@.len() implies #[trigger] groups@[a].1@ == imports.filter(
            |d: DynamicImportInfo| d.from@ == groups@[a].0@,
        ) by {
            let g = |d: DynamicImportInfo| d.from@ == groups@[a].0@;
            assert(imports.filter(g) == if g(import) { prefix.filter(g).push(import) } else { prefix.filter(g) });
            if a != i {
                assert(groups@[a] == old(groups)@[a]);
                assert(old(groups)@[a].0@ != old(groups)@[i as int].0@);
            }
        }
        assert forall|k: int| 0 <= k < imports.len() implies exists|a: int|
            0 <= a < groups@.len() && #[trigger] groups@[a].0@ == (#[trigger] imports[k]).from@ by {
            if k < prefix.len() {
                assert(imports[k] == prefix[k]);
                let a = choose|a: int| 0 <= a < old(groups)@.len() && #[trigger] old(groups)@[a].0@ == (#[trigger] prefix[k]).from@;
                assert(groups@[a].0@ == old(groups)@[a].0@);
            } else {
                assert(groups@[i as int].0@ == imports[k].from@);
            }
        }
        assert forall|a: int| 0 <= a < groups@.len() implies (#[trigger] groups@[a].1@).len() > 0 by {
            if a != i {
                assert(groups@[a] == old(groups)@[a]);
            }
        }
    }
}

/// `key` is the parent (`from`) of some import.
pub open spec fn is_parent(imports: Seq<DynamicImportInfo>, key: Seq<char>) -> bool {
    exists|k: int| 0 <= k < imports.len() && #[trigger] imports[k].from@ == key
}

/// Extends `groups` with one more import, keeping `grouped_ok` for the longer prefix.
fn add_to_groups(groups: &mut Vec<(String, Vec<DynamicImportInfo>)>, import: DynamicImportInfo, Ghost(prefix): Ghost<Seq<DynamicImportInfo>>)
    requires
        grouped_ok(prefix, old(groups)@),
    ensures
        grouped_ok(prefix.push(import), final(groups)@),
{
    let ghost imports = prefix.push(import);
    let ghost f = |d: DynamicImportInfo| d.from@ == import.from@;
    let mut i: usize = 0;
    while i < groups.len()
        invariant
            i <= groups@.len(),
            groups@ == old(groups)@,
            imports == prefix.push(import),
            grouped_ok(prefix, old(groups)@),
            forall|j: int| 0 <= j < i ==> groups@[j].0@ != import.from@,
        decreases groups@.len() - i,
    {
        if str_eq(groups[i].0.as_str(), import.from.as_str()) {
            extend_group_at(groups, import, Ghost(prefix), i);
            return;
        }
        i = i + 1;
    }
    let key = import.from.clone();
    let mut members: Vec<DynamicImportInfo> = Vec::new();
    members.push(import);
    groups.push((key, members));
    proof {
        reveal_with_fuel(Seq::filter, 1);
        assert(imports.drop_last() =~= prefix);
        let n = old(groups)@.len();
        assert forall|k: int| 0 <= k < prefix.len() implies prefix[k].from@ != import.from@ by {
            let a = choose|a: int| 0 <= a < old(groups)@.len() && #[trigger] old(groups)@[a].0@ == (#[trigger] prefix[k]).from@;
        }
        assert(prefix.filter(f) =~= Seq::<DynamicImportInfo>::empty()) by {
            if prefix.filter(f).len() > 0 {
                prefix.lemma_filter_contains_rev(f, prefix.filter(f)[0]);
                prefix.lemma_filter_pred(f, 0);
            }
        }
        assert forall|a: int| 0 <= a < groups@.len() implies #[trigger] groups@[a].1@ == imports.filter(
            |d: DynamicImportInfo| d.from@ == groups@[a].0@,
        ) by {
            let g = |d: DynamicImportInfo| d.from@ == groups@[a].0@;
            assert(imports.filter(g) == if g(import) { prefix.filter(g).push(import) } else { prefix.filter(g) });
            if a == n {
                assert(g == f);
                assert(groups@[a].1@ =~= seq![import]);
            } else {
                assert(groups@[a] == old(groups)@[a]);
            }
        }
        assert forall|k: int| 0 <= k < imports.len() implies exists|a: int|
            0 <= a < groups@.len() && #[trigger] groups@[a].0@ == (#[trigger] imports[k]).from@ by {
            if k < prefix.len() {
                assert(imports[k] == prefix[k]);
                let a = choose|a: int| 0 <= a < old(groups)@.len() && #[trigger] old(groups)@[a].0@ == (#[trigger] prefix[k]).from@;
                assert(groups@[a] == old(groups)@[a]);
            } else {
                assert(groups@[n as int].0@ == imports[k].from@);
            }
        }
        assert forall|a: int| 0 <= a < groups@.len() implies (#[trigger] groups@[a].1@).len() > 0 by {
            if a != n {
                assert(groups@[a] == old(groups)@[a]);
            }
        }
    }
}

impl DynamicImportAnalyzer {
    /// Extracts all dynamic imports from (from, to, source, is_external) tuples.
    pub fn extract_dynamic_imports(imports: Vec<(String, String, String, bool)>) -> (r: Vec<DynamicImportInfo>)
        ensures
            r@ == dynamic_infos(imports@),
    {
        let ghost input = imports@;
        let mut r: Vec<DynamicImportInfo> = Vec::new();
        for item in it: imports
            invariant
                input == it.seq(),
                r@ == dynamic_infos(input.take(it.index() as int)),
        {
            let (from, to, source, is_external) = item;
            r.push(DynamicImportInfo { from, to, source, creates_chunk: !is_external });
            proof {
                assert(dynamic_infos(input.take(it.index() + 1)) =~= dynamic_infos(input.take(it.index() as int)).push(
                    DynamicImportInfo { from: input[it.index() as int].0, to: input[it.index() as int].1,
                        source: input[it.index() as int].2, creates_chunk: !input[it.index() as int].3 },
                ));
            }
        }
        assert(input.take(input.len() as int) =~= input);
        r
    }

    /// Groups dynamic imports by parent module.
    pub fn group_by_parent(imports: Vec<DynamicImportInfo>) -> (r: Vec<(String, Vec<DynamicImportInfo>)>)
        ensures
            grouped_ok(imports@, r@),
            forall|i: int| 0 <= i < r@.len() ==> is_parent(imports@, #[trigger] r@[i].0@),
    {
        let ghost input = imports@;
        let mut groups: Vec<(String, Vec<DynamicImportInfo>)> = Vec::new();
        for import in it: imports
            invariant
                input == it.seq(),
                grouped_ok(input.take(it.index() as int), groups@),
        {
            proof {
                assert(input.take(it.index() + 1) =~= input.take(it.index() as int).push(input[it.index() as int]));
            }
            add_to_groups(&mut groups, import, Ghost(input.take(it.index() as int)));
        }
        assert(input.take(input.len() as int) =~= input);
        proof {
            assert forall|i: int| 0 <= i < groups@.len() implies is_parent(input, #[trigger] groups@[i].0@) by {
                assert(groups@[i].1@.len() > 0);
                let f = |d: DynamicImportInfo| d.from@ == groups@[i].0@;
                assert(groups@[i].1@ == input.filter(f));
                assert(input.filter(f).len() > 0);
                input.lemma_filter_contains_rev(f, input.filter(f)[0]);
                input.lemma_filter_pred(f, 0);
                let k = choose|k: int| 0 <= k < input.len() && input[k] == input.filter(f)[0];
                assert(input[k].from@ == groups@[i].0@);
                assert(0 <= k < input.len() && input[k].from@ == groups@[i].0@);
            }
        }
        groups
    }

    /// The size recorded for a path.
    fn size_for(module_sizes: &Vec<(String, usize)>, path: &str) -> (r: Option<usize>)
        ensures
            r == size_of_path(module_sizes@, path@),
    {
        let ghost s = module_sizes@;
        let mut i: usize = 0;
        while i < module_sizes.len()
            invariant
                i <= s.len(),
                s == module_sizes@,
                size_of_path(s, path@) == size_of_path(s.skip(i as int), path@),
            decreases s.len() - i,
        {
            assert(s.skip(i as int)[0] == s[i as int]);
            assert(s.skip(i as int).drop_first() =~= s.skip(i + 1));
            if path_eq(module_sizes[i].0.as_str(), path) {
                return Some(module_sizes[i].1);
            }
            i = i + 1;
        }
        None
    }

    /// Calculates potential bundle savings from lazy loading: the sizes of the
    /// targets of the chunk-creating imports, where a size is known.
    pub fn calculate_lazy_loading_potential(imports: &[DynamicImportInfo], module_sizes: &Vec<(String, usize)>) -> (r: usize)
        requires
            forall|k: int| 0 <= k <= imports@.len() ==> lazy_potential(#[trigger] imports@.take(k), module_sizes@) <= usize::MAX,
        ensures
            r == lazy_potential(imports@, module_sizes@),
    {
        let ghost s = imports@;
        let mut total: usize = 0;
        let mut i: usize = 0;
        while i < imports.len()
            invariant
                i <= s.len(),
                s == imports@,
                forall|k: int| 0 <= k <= s.len() ==> lazy_potential(#[trigger] s.take(k), module_sizes@) <= usize::MAX,
                total == lazy_potential(s.take(i as int), module_sizes@),
            decreases s.len() - i,
        {
            let imp = &imports[i];
            proof {
                assert(s.take(i + 1).drop_last() =~= s.take(i as int));
                assert(s.take(i + 1).last() == s[i as int]);
                assert(lazy_potential(s.take(i + 1), module_sizes@) <= usize::MAX);
            }
            if imp.creates_chunk {
                match Self::size_for(module_sizes, imp.to.as_str()) {
                    Some(n) => {
                        total = total + n;
                    },
                    None => {},
                }
            }
            i = i + 1;
        }
        assert(s.take(s.len() as int) =~= s);
        total
    }
}

/// Analyzes modules for side effects and deletion safety.
pub struct SideEffectAnalyzer;

/// Names that mark configuration files, matched anywhere in a file name.
pub open spec fn config_file_markers() -> Seq<Seq<char>> {
    seq![
        "package.json"@,
        "tsconfig.json"@,
        "jsconfig.json"@,
        ".eslintrc"@,
        ".prettierrc"@,
        "next.config"@,
        "vite.config"@,
        "rollup.config"@,
    ]
}

/// A path names a configuration file when its file name contains a marker.
pub open spec fn is_config_path(path: Seq<char>) -> bool {
    match path_file_name_of(path) {
        Some(name) => exists|i: int| 0 <= i < 8 && seq_contains_seq(name, #[trigger] config_file_markers()[i]),
        None => false,
    }
}

impl SideEffectAnalyzer {
    /// Checks if a file is a configuration file.
    pub fn is_config_file(path: &str) -> (r: bool)
        ensures
            r == is_config_path(path@),
    {
        let markers = vec!["package.json", "tsconfig.json", "jsconfig.json", ".eslintrc", ".prettierrc", "next.config", "vite.config", "rollup.config"];
        match path_file_name(path) {
            None => false,
            Some(name) => {
                let n = chars_of(name.as_str());
                let mut i: usize = 0;
                while i < markers.len()
                    invariant
                        markers@.len() == 8,
                        forall|k: int| 0 <= k < 8 ==> (#[trigger] markers@[k])@ == config_file_markers()[k],
                        n@ == name@,
                        path_file_name_of(path@) == Some(name@),
                        i <= 8,
                        forall|k: int| 0 <= k < i ==> !seq_contains_seq(name@, #[trigger] config_file_markers()[k]),
                    decreases 8 - i,
                {
                    let m = chars_of(markers[i]);
                    if contains_chars(&n, &m) {
                        assert(seq_contains_seq(name@, config_file_markers()[i as int]));
                        return true;
                    }
                    i = i + 1;
                }
                false
            },
        }
    }

    /// Determines whether an unreachable module is safe to delete: entry points
    /// and configuration files are unsafe; dynamically imported modules and
    /// modules with side effects need review; the rest are safe.
    pub fn assess_safety(has_side_effects: bool, is_entry: bool, path: &str, dynamic_imports: &Vec<String>) -> (r: SafetyAssessment)
        ensures
            if is_entry {
                r matches SafetyAssessment::Unsafe(m) && m@ == "Entry point"@
            } else if is_config_path(path@) {
                r matches SafetyAssessment::Unsafe(m) && m@ == "Configuration file"@
            } else if paths_contain(dynamic_imports@, path@) {
                r matches SafetyAssessment::ReviewCarefully(m) && m@ == "Dynamically imported"@
            } else if has_side_effects {
                r matches SafetyAssessment::ReviewCarefully(m) && m@ == "Module has side effects"@
            } else {
                r == SafetyAssessment::SafeToDelete
            },
    {
        if is_entry {
            return SafetyAssessment::Unsafe(to_owned_string("Entry point"));
        }
        if Self::is_config_file(path) {
            return SafetyAssessment::Unsafe(to_owned_string("Configuration file"));
        }
        if contains_path(dynamic_imports, path) {
            return SafetyAssessment::ReviewCarefully(to_owned_string("Dynamically imported"));
        }
        if has_side_effects {
            return SafetyAssessment::ReviewCarefully(to_owned_string("Module has side effects"));
        }
        SafetyAssessment::SafeToDelete
    }
}

/// Analyzes and categorizes exports by runtime impact.
pub struct TypeOnlyAnalyzer;

/// An unused export, for categorization.
#[derive(Debug, Clone, PartialEq, Eq)]
pub struct UnusedExport {
    pub module: String,
    pub name: String,
    pub is_type_only: bool,
}

/// Categorized unused exports.
#[derive(Debug, Clone, PartialEq, Eq)]
pub struct CategorizedExports {
    /// Type-only exports (no runtime impact)
    pub type_only: Vec<UnusedExport>,
    /// Runtime exports (actual code)
    pub runtime: Vec<UnusedExport>,
}

impl TypeOnlyAnalyzer {
    /// Splits unused exports into type-only and runtime ones, each in input order.
    pub fn categorize_exports(unused_exports: Vec<UnusedExport>) -> (r: CategorizedExports)
        ensures
            r.type_only@ == unused_exports@.filter(|e: UnusedExport| e.is_type_only),
            r.runtime@ == unused_exports@.filter(|e: UnusedExport| !e.is_type_only),
    {
        let ghost input = unused_exports@;
        let mut type_only: Vec<UnusedExport> = Vec::new();
        let mut runtime: Vec<UnusedExport> = Vec::new();
        for export in it: unused_exports
            invariant
                input == it.seq(),
                type_only@ == input.take(it.index() as int).filter(|e: UnusedExport| e.is_type_only),
                runtime@ == input.take(it.index() as int).filter(|e: UnusedExport| !e.is_type_only),
        {
            proof {
                assert(input.take(it.index() + 1).drop_last() =~= input.take(it.index() as int));
                assert(input.take(it.index() + 1).last() == input[it.index() as int]);
                reveal_with_fuel(Seq::filter, 1);
            }
            if export.is_type_only {
                type_only.push(export);
            } else {
                runtime.push(export);
            }
        }
        assert(input.take(input.len() as int) =~= input);
        CategorizedExports { type_only, runtime }
    }
}

/// Analyzer for class member findings.
pub struct ClassMemberAnalyzer;

/// Analyzer for enum member findings.
pub struct EnumMemberAnalyzer;

/// Analyzer for dependency chain findings.
pub struct DependencyChainAnalyzer;

/// Analyzer for npm dependency findings.
pub struct NpmDependencyAnalyzer;

impl ClassMemberAnalyzer {
    /// Build class member statistics.
    pub fn build_stats(private_count: usize, public_count: usize, total_members: usize) -> (r: ClassMemberStats)
        ensures
            r.total_members == total_members,
            r.unused_private == private_count,
            r.unused_public == public_count,
            r.by_visibility@ == seq![(MemberVisibility::Private, private_count), (MemberVisibility::Public, public_count)],
    {
        let by_visibility = vec![(MemberVisibility::Private, private_count), (MemberVisibility::Public, public_count)];
        assert(by_visibility@ =~= seq![(MemberVisibility::Private, private_count), (MemberVisibility::Public, public_count)]);
        ClassMemberStats { total_members, unused_private: private_count, unused_public: public_count, by_visibility }
    }

    /// Check if a path is virtual (should be filtered).
    pub fn is_virtual_path(path: &str) -> (r: bool)
        ensures
            r == is_virtual(path@),
    {
        is_virtual_path(path)
    }
}

impl EnumMemberAnalyzer {
    /// Build enum statistics.
    pub fn build_stats(total_enums: usize, total_members: usize, unused_members: usize) -> (r: EnumStats)
        ensures
            r == (EnumStats { total_enums, total_members, unused_members }),
    {
        EnumStats { total_enums, total_members, unused_members }
    }

    /// Check if a path is virtual (should be filtered).
    pub fn is_virtual_path(path: &str) -> (r: bool)
        ensures
            r == is_virtual(path@),
    {
        is_virtual_path(path)
    }
}

impl DependencyChainAnalyzer {
    /// Check if a path is virtual (should be filtered).
    pub fn is_virtual_path(path: &str) -> (r: bool)
        ensures
            r == is_virtual(path@),
    {
        is_virtual_path(path)
    }
}

} // verus!
