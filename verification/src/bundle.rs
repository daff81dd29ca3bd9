//! Bundle size impact of unreachable modules.
use vstd::prelude::*;
use crate::findings::{BundleSizeImpact, ModuleSizeInfo};
use crate::error::Error;
use crate::paths::{path_components_eq, path_eq};
use crate::format::format_bytes_spec;

verus! {

broadcast use vstd::seq_lib::group_seq_properties;

/// Inserts `x` into a list sorted by size, largest first, after every element
/// that is at least as large (so that equal sizes keep their arrival order).
pub open spec fn insert_desc(t: Seq<ModuleSizeInfo>, x: ModuleSizeInfo) -> Seq<ModuleSizeInfo>
    decreases t.len(),
{
    if t.len() == 0 || t.last().size_bytes >= x.size_bytes {
        t.push(x)
    } else {
        insert_desc(t.drop_last(), x).push(t.last())
    }
}

/// A stable sort by size, largest first: the result of inserting the elements one
/// after another.
pub open spec fn sort_desc(s: Seq<ModuleSizeInfo>) -> Seq<ModuleSizeInfo>
    decreases s.len(),
{
    if s.len() == 0 {
        s
    } else {
        insert_desc(sort_desc(s.drop_last()), s.last())
    }
}

/// Sizes never increase from one element to the next.
pub open spec fn sorted_desc(s: Seq<ModuleSizeInfo>) -> bool {
    forall|i: int, j: int| 0 <= i < j < s.len() ==> s[i].size_bytes >= s[j].size_bytes
}

/// When every element from `j` on is smaller than `x`, inserting `x` only
/// touches the first `j` elements.
proof fn lemma_insert_split(t: Seq<ModuleSizeInfo>, x: ModuleSizeInfo, j: int)
    requires
        0 <= j <= t.len(),
        forall|k: int| j <= k < t.len() ==> t[k].size_bytes < x.size_bytes,
    ensures
        insert_desc(t, x) == insert_desc(t.take(j), x) + t.skip(j),
    decreases t.len() - j,
{
    if j == t.len() {
        assert(t.take(j) =~= t);
        assert(t.skip(j) =~= Seq::<ModuleSizeInfo>::empty());
        assert(insert_desc(t, x) + Seq::<ModuleSizeInfo>::empty() =~= insert_desc(t, x));
    } else {
        let init = t.drop_last();
        lemma_insert_split(init, x, j);
        assert(init.take(j) =~= t.take(j));
        assert(t.skip(j) =~= init.skip(j).push(t.last()));
        assert((insert_desc(t.take(j), x) + init.skip(j)).push(t.last()) =~= insert_desc(t.take(j), x)
            + init.skip(j).push(t.last()));
    }
}

/// Inserting into a sorted list keeps it sorted, adds one element, and changes
/// its multiset by that element.
proof fn lemma_insert_props(t: Seq<ModuleSizeInfo>, x: ModuleSizeInfo)
    requires
        sorted_desc(t),
    ensures
        sorted_desc(insert_desc(t, x)),
        insert_desc(t, x).len() == t.len() + 1,
        insert_desc(t, x).to_multiset() == t.to_multiset().insert(x),
    decreases t.len(),
{
    if t.len() == 0 || t.last().size_bytes >= x.size_bytes {
        t.to_multiset_ensures();
    } else {
        let init = t.drop_last();
        lemma_insert_props(init, x);
        let r = insert_desc(init, x);
        assert forall|i: int, j: int| 0 <= i < j < r.push(t.last()).len() implies r.push(t.last())[i].size_bytes
            >= r.push(t.last())[j].size_bytes by {
            if j == r.len() {
                // every element of r is an element of init or x
                assert(r.to_multiset().count(r[i]) > 0);
                assert(r.contains(r[i]));
                lemma_elem_ge_last(init, x, t, r[i]);
            }
        }
        r.to_multiset_ensures();
        init.to_multiset_ensures();
        t.to_multiset_ensures();
        assert(t =~= init.push(t.last()));
        assert(r.push(t.last()).to_multiset() =~= t.to_multiset().insert(x));
    }
}

/// Every element of `insert_desc(init, x)` is at least as large as the last element
/// of `t` when `t` is sorted, ends in a smaller element than `x`, and `init` is
/// `t` without its last element.
proof fn lemma_elem_ge_last(init: Seq<ModuleSizeInfo>, x: ModuleSizeInfo, t: Seq<ModuleSizeInfo>, e: ModuleSizeInfo)
    requires
        sorted_desc(t),
        t.len() > 0,
        init == t.drop_last(),
        t.last().size_bytes < x.size_bytes,
        insert_desc(init, x).to_multiset() == init.to_multiset().insert(x),
        insert_desc(init, x).to_multiset().count(e) > 0,
    ensures
        e.size_bytes >= t.last().size_bytes,
{
    init.to_multiset_ensures();
    if e != x {
        assert(init.to_multiset().count(e) > 0);
        assert(init.contains(e));
        let k = choose|k: int| 0 <= k < init.len() && init[k] == e;
        assert(t[k] == e);
        assert(t[t.len() - 1] == t.last());
    }
}

/// The stable sort is sorted, has the same length, and holds the same elements.
pub proof fn lemma_sort_desc_props(s: Seq<ModuleSizeInfo>)
    ensures
        sorted_desc(sort_desc(s)),
        sort_desc(s).len() == s.len(),
        sort_desc(s).to_multiset() == s.to_multiset(),
    decreases s.len(),
{
    if s.len() > 0 {
        lemma_sort_desc_props(s.drop_last());
        lemma_insert_props(sort_desc(s.drop_last()), s.last());
        s.to_multiset_ensures();
        s.drop_last().to_multiset_ensures();
        assert(s =~= s.drop_last().push(s.last()));
    }
}

/// Inserts `x` into `v` (sorted by size, largest first) after every element at
/// least as large.
fn insert_sorted(v: &mut Vec<ModuleSizeInfo>, x: ModuleSizeInfo)
    ensures
        final(v)@ == insert_desc(old(v)@, x),
{
    let ghost t = v@;
    let mut p = v.len();
    while p > 0 && v[p - 1].size_bytes < x.size_bytes
        invariant
            v@ == t,
            p <= t.len(),
            forall|k: int| p <= k < t.len() ==> t[k].size_bytes < x.size_bytes,
        decreases p,
    {
        p = p - 1;
    }
    proof {
        lemma_insert_split(t, x, p as int);
        let pre = t.take(p as int);
        if p > 0 {
            assert(pre.last() == t[p - 1]);
            assert(pre.last().size_bytes >= x.size_bytes);
        }
        assert(insert_desc(pre, x) == pre.push(x));
    }
    v.insert(p, x);
    proof {
        assert(v@ =~= t.take(p as int).push(x) + t.skip(p as int));
    }
}

/// Analyzes bundle size impact of dead code.
pub struct BundleSizeAnalyzer;

/// The sum of the sizes in a list of (path, size, has_side_effects) entries.
pub open spec fn total_size(s: Seq<(String, usize, bool)>) -> int
    decreases s.len(),
{
    if s.len() == 0 {
        0
    } else {
        total_size(s.drop_last()) + s.last().1
    }
}

/// The sum of the sizes of the entries without side effects.
pub open spec fn safe_size(s: Seq<(String, usize, bool)>) -> int
    decreases s.len(),
{
    if s.len() == 0 {
        0
    } else {
        safe_size(s.drop_last()) + if s.last().2 {
            0
        } else {
            s.last().1 as int
        }
    }
}

/// One size entry per (path, size, has_side_effects) entry, in order.
pub open spec fn size_infos(s: Seq<(String, usize, bool)>) -> Seq<ModuleSizeInfo> {
    s.map_values(|e: (String, usize, bool)| ModuleSizeInfo { path: e.0, size_bytes: e.1, has_side_effects: e.2 })
}

/// The safe part of a total never exceeds it.
pub proof fn lemma_safe_le_total(s: Seq<(String, usize, bool)>)
    ensures
        0 <= safe_size(s) <= total_size(s),
    decreases s.len(),
{
    if s.len() > 0 {
        lemma_safe_le_total(s.drop_last());
    }
}

/// Totals of a prefix never exceed the totals of the whole list.
proof fn lemma_total_prefix(s: Seq<(String, usize, bool)>, i: int)
    requires
        0 <= i <= s.len(),
    ensures
        total_size(s.take(i)) <= total_size(s),
    decreases s.len() - i,
{
    if i < s.len() {
        lemma_total_prefix(s, i + 1);
        assert(s.take(i + 1).drop_last() =~= s.take(i));
    } else {
        assert(s.take(i) =~= s);
    }
}

impl BundleSizeAnalyzer {
    /// Calculates total potential savings from unreachable modules, given as
    /// (path, size, has_side_effects) entries. The breakdown lists one entry per
    /// module, sorted by size, largest first; equal sizes keep their input order.
    pub fn calculate_impact(modules: Vec<(String, usize, bool)>) -> (r: BundleSizeImpact)
        requires
            total_size(modules@) <= usize::MAX,
        ensures
            r.total_savings_bytes == total_size(modules@),
            r.safe_savings_bytes == safe_size(modules@),
            r.by_module@ == sort_desc(size_infos(modules@)),
    {
        let ghost input = modules@;
        let mut total_savings: usize = 0;
        let mut safe_savings: usize = 0;
        let mut by_module: Vec<ModuleSizeInfo> = Vec::new();
        for item in it: modules
            invariant
                input == it.seq(),
                total_size(input) <= usize::MAX,
                total_savings == total_size(input.take(it.index() as int)),
                safe_savings == safe_size(input.take(it.index() as int)),
                by_module@ == sort_desc(size_infos(input.take(it.index() as int))),
        {
            let (path, size, has_side_effects) = item;
            proof {
                assert(input.take(it.index() + 1).drop_last() =~= input.take(it.index() as int));
                assert(input.take(it.index() + 1).last() == input[it.index() as int]);
                lemma_total_prefix(input, it.index() + 1);
                lemma_safe_le_total(input.take(it.index() + 1));
                assert(size_infos(input.take(it.index() + 1)).drop_last() =~= size_infos(input.take(it.index() as int)));
            }
            total_savings = total_savings + size;
            if !has_side_effects {
                safe_savings = safe_savings + size;
            }
            insert_sorted(&mut by_module, ModuleSizeInfo { path, size_bytes: size, has_side_effects });
        }
        assert(input.take(input.len() as int) =~= input);
        BundleSizeImpact { total_savings_bytes: total_savings, safe_savings_bytes: safe_savings, by_module }
    }

    /// Formats bytes into a human-readable string.
    pub fn format_bytes(bytes: usize) -> (s: String)
        ensures
            s@ == format_bytes_spec(bytes as nat),
    {
        crate::format::format_bytes(bytes)
    }
}


/// Size and side-effect status of one module.
#[derive(Debug, Clone, Copy, PartialEq, Eq, Structural)]
struct ModuleMetadata {
    size: usize,
    has_side_effects: bool,
}

/// Enriches findings with module size and side-effect metadata.
pub struct FindingEnricher {
    /// (path, size, has_side_effects) for every module, as given; a later entry for
    /// a path with the same components replaces an earlier one.
    modules_metadata: Vec<(String, usize, bool)>,
}

/// The metadata recorded for a path: that of the last entry whose path has the
/// same components.
pub open spec fn lookup_module(entries: Seq<(String, usize, bool)>, path: Seq<char>) -> Option<(usize, bool)>
    decreases entries.len(),
{
    if entries.len() == 0 {
        None
    } else if path_components_eq(entries.last().0@, path) {
        Some((entries.last().1, entries.last().2))
    } else {
        lookup_module(entries.drop_last(), path)
    }
}

/// The (path, size, has_side_effects) entries of the requested paths that have
/// metadata, in request order.
pub open spec fn known_modules(entries: Seq<(String, usize, bool)>, paths: Seq<String>) -> Seq<(String, usize, bool)>
    decreases paths.len(),
{
    if paths.len() == 0 {
        seq![]
    } else {
        let rest = known_modules(entries, paths.drop_last());
        match lookup_module(entries, paths.last()@) {
            Some(m) => rest.push((paths.last(), m.0, m.1)),
            None => rest,
        }
    }
}

impl FindingEnricher {
    /// The (path, size, has_side_effects) entries the enricher was made with.
    pub closed spec fn entries(&self) -> Seq<(String, usize, bool)> {
        self.modules_metadata@
    }

    /// Creates a new enricher from (path, size, has_side_effects) entries.
    pub fn new(modules: Vec<(String, usize, bool)>) -> (r: Self)
        ensures
            r.entries() == modules@,
    {
        FindingEnricher { modules_metadata: modules }
    }

    /// The metadata recorded for a path.
    fn lookup(&self, path: &str) -> (r: Option<ModuleMetadata>)
        ensures
            match lookup_module(self.entries(), path@) {
                Some(m) => r == Some(ModuleMetadata { size: m.0, has_side_effects: m.1 }),
                None => r is None,
            },
    {
        let ghost es = self.modules_metadata@;
        let mut i = self.modules_metadata.len();
        while i > 0
            invariant
                i <= es.len(),
                es == self.modules_metadata@,
                lookup_module(es, path@) == lookup_module(es.take(i as int), path@),
            decreases i,
        {
            let e = &self.modules_metadata[i - 1];
            proof {
                assert(es.take(i as int).drop_last() =~= es.take(i - 1));
                assert(es.take(i as int).last() == es[i - 1]);
            }
            if path_eq(e.0.as_str(), path) {
                return Some(ModuleMetadata { size: e.1, has_side_effects: e.2 });
            }
            i = i - 1;
        }
        None
    }

    /// Calculates bundle size impact from unreachable modules: the paths without
    /// metadata are skipped, and the rest are summed and listed as
    /// `BundleSizeAnalyzer::calculate_impact` lists them.
    pub fn calculate_bundle_impact(&self, unreachable_paths: &[String]) -> (r: Result<BundleSizeImpact, Error>)
        requires
            total_size(known_modules(self.entries(), unreachable_paths@)) <= usize::MAX,
        ensures
            r matches Ok(impact) && impact.total_savings_bytes == total_size(
                known_modules(self.entries(), unreachable_paths@),
            ) && impact.safe_savings_bytes == safe_size(known_modules(self.entries(), unreachable_paths@))
                && impact.by_module@ == sort_desc(size_infos(known_modules(self.entries(), unreachable_paths@))),
    {
        let ghost ps = unreachable_paths@;
        let mut found: Vec<(String, usize, bool)> = Vec::new();
        let mut i: usize = 0;
        while i < unreachable_paths.len()
            invariant
                ps == unreachable_paths@,
                i <= ps.len(),
                found@ == known_modules(self.entries(), ps.take(i as int)),
            decreases ps.len() - i,
        {
            let path = &unreachable_paths[i];
            proof {
                assert(ps.take(i + 1).drop_last() =~= ps.take(i as int));
                assert(ps.take(i + 1).last() == ps[i as int]);
            }
            match self.lookup(path.as_str()) {
                Some(m) => {
                    found.push((path.clone(), m.size, m.has_side_effects));
                },
                None => {},
            }
            i = i + 1;
        }
        assert(ps.take(ps.len() as int) =~= ps);
        Ok(BundleSizeAnalyzer::calculate_impact(found))
    }

    /// Formats bytes into a human-readable string.
    pub fn format_bytes(bytes: usize) -> (s: String)
        ensures
            s@ == format_bytes_spec(bytes as nat),
    {
        crate::format::format_bytes(bytes)
    }
}

/// The bundle-size impact of the unreachable modules, given as (path, size,
/// has_side_effects) entries: none when there are none.
pub fn bundle_impact_for(entries: Vec<(String, usize, bool)>) -> (r: Option<BundleSizeImpact>)
    requires
        total_size(entries@) <= usize::MAX,
    ensures
        r is None <==> entries@.len() == 0,
        r matches Some(i) ==> i.total_savings_bytes == total_size(entries@) && i.safe_savings_bytes == safe_size(
            entries@,
        ) && i.by_module@ == sort_desc(size_infos(entries@)),
{
    if entries.len() == 0 {
        None
    } else {
        Some(BundleSizeAnalyzer::calculate_impact(entries))
    }
}

} // verus!
