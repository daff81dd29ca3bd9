//! Which finding categories an analysis can produce in its context.
use vstd::prelude::*;
use crate::category_kind::Category;

verus! {

broadcast use vstd::seq_lib::group_seq_properties, vstd::seq_lib::group_filter_ensures;

/// Analysis mode determines available capabilities.
#[derive(Debug, Clone, Copy, PartialEq, Eq, Structural)]
pub enum AnalysisMode {
    /// Full package analysis with complete dependency graph
    Package,
    /// File-level analysis with limited context
    Files,
}

/// Why a category is unavailable.
#[derive(Debug, Clone, Copy, PartialEq, Eq, Structural)]
pub enum UnavailableReason {
    /// Requires complete dependency graph (package mode)
    RequiresFullGraph,
    /// Requires package.json context
    RequiresPackageJson,
    /// Requires framework to be detected
    RequiresFrameworkDetection,
    /// Requires node_modules directory
    RequiresNodeModules,
}

/// A category that cannot be run due to missing requirements.
#[derive(Debug, Clone, Copy, PartialEq, Eq, Structural)]
pub struct UnavailableCategory {
    pub category: Category,
    pub reason: UnavailableReason,
}

/// Defines what analysis categories are available given the current context.
#[derive(Debug, Clone)]
pub struct AnalysisCapabilities {
    /// Categories that can be performed with available context
    available: Vec<Category>,
    /// Categories that require more context
    unavailable: Vec<UnavailableCategory>,
    /// The mode that determined these capabilities
    mode: AnalysisMode,
}

/// The categories of a list of unavailable entries.
pub open spec fn categories_of(u: Seq<UnavailableCategory>) -> Seq<Category> {
    u.map_values(|e: UnavailableCategory| e.category)
}

/// The categories that package mode always offers.
pub open spec fn package_mode_available() -> Set<Category> {
    set![
        Category::Files,
        Category::Exports,
        Category::Symbols,
        Category::Types,
        Category::Imports,
        Category::Circular,
        Category::Quality,
    ]
}

/// The categories that files mode offers.
pub open spec fn files_mode_available() -> Set<Category> {
    set![Category::Symbols, Category::Quality, Category::Imports, Category::Types]
}

/// The unavailable entries of files mode, in order.
pub open spec fn files_mode_unavailable() -> Seq<UnavailableCategory> {
    seq![
        UnavailableCategory { category: Category::Files, reason: UnavailableReason::RequiresFullGraph },
        UnavailableCategory { category: Category::Exports, reason: UnavailableReason::RequiresFullGraph },
        UnavailableCategory {
            category: Category::Dependencies,
            reason: UnavailableReason::RequiresFullGraph,
        },
        UnavailableCategory { category: Category::Circular, reason: UnavailableReason::RequiresFullGraph },
        UnavailableCategory {
            category: Category::Framework,
            reason: UnavailableReason::RequiresPackageJson,
        },
    ]
}

impl AnalysisCapabilities {
    /// The set of available categories.
    pub closed spec fn available_set(&self) -> Set<Category> {
        self.available@.to_set()
    }

    /// The available categories in the order they were recorded.
    pub closed spec fn available_seq(&self) -> Seq<Category> {
        self.available@
    }

    /// The unavailable categories with their reasons, in the order they were recorded.
    pub closed spec fn unavailable_seq(&self) -> Seq<UnavailableCategory> {
        self.unavailable@
    }

    /// The mode that determined these capabilities.
    pub closed spec fn mode_spec(&self) -> AnalysisMode {
        self.mode
    }

    /// Well-formedness: no category is listed twice, and no category is both
    /// available and unavailable.
    pub closed spec fn wf(&self) -> bool {
        &&& self.available@.no_duplicates()
        &&& categories_of(self.unavailable@).no_duplicates()
        &&& forall|i: int|
            0 <= i < self.unavailable@.len() ==> !self.available@.contains(
                #[trigger] self.unavailable@[i].category,
            )
    }

    /// Capabilities made by `package_mode` or `files_mode` and then changed by
    /// any sequence of `mark_available` and `mark_unavailable` calls (all of
    /// which keep `wf`) list no unavailable category twice, and no category is
    /// both available and unavailable, and no available category twice.
    pub proof fn law_capability_lists_disjoint(&self)
        requires
            self.wf(),
        ensures
            self.available_seq().no_duplicates(),
            categories_of(self.unavailable_seq()).no_duplicates(),
            forall|i: int|
                0 <= i < self.unavailable_seq().len() ==> !self.available_set().contains(
                    #[trigger] self.unavailable_seq()[i].category,
                ),
    {
    }

    /// Create capabilities for package mode.
    pub fn package_mode() -> (r: Self)
        ensures
            r.wf(),
            r.available_set() == package_mode_available(),
            r.unavailable_seq() == Seq::<UnavailableCategory>::empty(),
            r.mode_spec() == AnalysisMode::Package,
    {
        let available = vec![
            Category::Files,
            Category::Exports,
            Category::Symbols,
            Category::Types,
            Category::Imports,
            Category::Circular,
            Category::Quality,
        ];
        let r = AnalysisCapabilities { available, unavailable: Vec::new(), mode: AnalysisMode::Package };
        assert(r.available@.to_set() =~= package_mode_available()) by {
            assert forall|c: Category| package_mode_available().contains(c) implies r.available@.contains(c) by {
                match c {
                    Category::Files => assert(r.available@[0] == c),
                    Category::Exports => assert(r.available@[1] == c),
                    Category::Symbols => assert(r.available@[2] == c),
                    Category::Types => assert(r.available@[3] == c),
                    Category::Imports => assert(r.available@[4] == c),
                    Category::Circular => assert(r.available@[5] == c),
                    Category::Quality => assert(r.available@[6] == c),
                    _ => {},
                }
            }
        }
        assert(categories_of(r.unavailable@) =~= Seq::<Category>::empty());
        r
    }

    /// Create capabilities for files mode.
    pub fn files_mode() -> (r: Self)
        ensures
            r.wf(),
            r.available_set() == files_mode_available(),
            r.unavailable_seq() == files_mode_unavailable(),
            r.mode_spec() == AnalysisMode::Files,
    {
        let available = vec![Category::Symbols, Category::Quality, Category::Imports, Category::Types];
        let unavailable = vec![
            UnavailableCategory { category: Category::Files, reason: UnavailableReason::RequiresFullGraph },
            UnavailableCategory { category: Category::Exports, reason: UnavailableReason::RequiresFullGraph },
            UnavailableCategory {
                category: Category::Dependencies,
                reason: UnavailableReason::RequiresFullGraph,
            },
            UnavailableCategory { category: Category::Circular, reason: UnavailableReason::RequiresFullGraph },
            UnavailableCategory {
                category: Category::Framework,
                reason: UnavailableReason::RequiresPackageJson,
            },
        ];
        let r = AnalysisCapabilities { available, unavailable, mode: AnalysisMode::Files };
        assert(r.available@.to_set() =~= files_mode_available()) by {
            assert forall|c: Category| files_mode_available().contains(c) implies r.available@.contains(c) by {
                match c {
                    Category::Symbols => assert(r.available@[0] == c),
                    Category::Quality => assert(r.available@[1] == c),
                    Category::Imports => assert(r.available@[2] == c),
                    Category::Types => assert(r.available@[3] == c),
                    _ => {},
                }
            }
        }
        assert(r.unavailable@ =~= files_mode_unavailable());
        let ghost cs = categories_of(r.unavailable@);
        assert(cs =~= seq![Category::Files, Category::Exports, Category::Dependencies, Category::Circular, Category::Framework]);
        r
    }

    /// Check if a category is supported.
    pub fn supports(&self, category: Category) -> (r: bool)
        ensures
            r == self.available_set().contains(category),
    {
        let mut i: usize = 0;
        while i < self.available.len()
            invariant
                i <= self.available@.len(),
                forall|j: int| 0 <= j < i ==> self.available@[j] != category,
            decreases self.available@.len() - i,
        {
            if self.available[i] == category {
                return true;
            }
            i = i + 1;
        }
        false
    }

    /// Mark a category as available (for conditional categories like Dependencies/Framework):
    /// it joins the available set and leaves the unavailable list.
    pub fn mark_available(&mut self, category: Category)
        requires
            old(self).wf(),
        ensures
            final(self).wf(),
            final(self).available_set() == old(self).available_set().insert(category),
            final(self).unavailable_seq() == old(self).unavailable_seq().filter(
                |u: UnavailableCategory| u.category != category,
            ),
            final(self).mode_spec() == old(self).mode_spec(),
    {
        let ghost old_unavail = self.unavailable@;
        if !self.supports(category) {
            self.available.push(category);
            proof {
                assert(self.available@.to_set() =~= old(self).available@.to_set().insert(category));
            }
        } else {
            proof {
                assert(old(self).available@.to_set().insert(category) =~= old(self).available@.to_set());
            }
        }
        let mut kept: Vec<UnavailableCategory> = Vec::new();
        let mut i: usize = 0;
        while i < self.unavailable.len()
            invariant
                self.unavailable@ == old_unavail,
                i <= old_unavail.len(),
                kept@ == old_unavail.take(i as int).filter(|u: UnavailableCategory| u.category != category),
            decreases old_unavail.len() - i,
        {
            let u = self.unavailable[i];
            if u.category != category {
                kept.push(u);
            }
            proof {
                let f = |u: UnavailableCategory| u.category != category;
                assert(old_unavail.take(i + 1).drop_last() =~= old_unavail.take(i as int));
                reveal_with_fuel(Seq::filter, 1);
            }
            i = i + 1;
        }
        assert(old_unavail.take(old_unavail.len() as int) =~= old_unavail);
        proof {
            let f = |u: UnavailableCategory| u.category != category;
            lemma_filter_keeps_unique(old_unavail, f);
            lemma_filter_subset(old_unavail, f);
        }
        self.unavailable = kept;
        proof {
            let f = |u: UnavailableCategory| u.category != category;
            assert forall|k: int| 0 <= k < self.unavailable@.len() implies !self.available@.contains(
                #[trigger] self.unavailable@[k].category,
            ) by {
                let e = self.unavailable@[k];
                assert(f(e));
                assert(old_unavail.contains(e));
                let m = choose|m: int| 0 <= m < old_unavail.len() && old_unavail[m] == e;
                assert(!old(self).available@.contains(old_unavail[m].category));
                if self.available@.contains(e.category) {
                    assert(self.available@.to_set().contains(e.category));
                    assert(old(self).available@.to_set().contains(e.category));
                }
            }
        }
    }

    /// Mark a category as unavailable: it leaves the available set, and joins the
    /// unavailable list with `reason` unless it is already listed there.
    pub fn mark_unavailable(&mut self, category: Category, reason: UnavailableReason)
        requires
            old(self).wf(),
        ensures
            final(self).wf(),
            final(self).available_set() == old(self).available_set().remove(category),
            final(self).unavailable_seq() == if categories_of(old(self).unavailable_seq()).contains(category) {
                old(self).unavailable_seq()
            } else {
                old(self).unavailable_seq().push(UnavailableCategory { category, reason })
            },
            final(self).mode_spec() == old(self).mode_spec(),
    {
        let ghost old_avail = self.available@;
        let mut kept: Vec<Category> = Vec::new();
        let mut i: usize = 0;
        while i < self.available.len()
            invariant
                self.available@ == old_avail,
                i <= old_avail.len(),
                kept@ == old_avail.take(i as int).filter(|c: Category| c != category),
            decreases old_avail.len() - i,
        {
            let c = self.available[i];
            if c != category {
                kept.push(c);
            }
            proof {
                assert(old_avail.take(i + 1).drop_last() =~= old_avail.take(i as int));
                reveal_with_fuel(Seq::filter, 1);
            }
            i = i + 1;
        }
        assert(old_avail.take(old_avail.len() as int) =~= old_avail);
        proof {
            let f = |c: Category| c != category;
            lemma_filter_no_dup(old_avail, f);
            assert(kept@.to_set() =~= old_avail.to_set().remove(category)) by {
                assert forall|c: Category| old_avail.to_set().remove(category).contains(c) implies kept@.contains(c) by {
                    let m = choose|m: int| 0 <= m < old_avail.len() && old_avail[m] == c;
                    lemma_filter_contains(old_avail, f, m);
                }
                assert forall|c: Category| kept@.contains(c) implies old_avail.to_set().remove(category).contains(c) by {
                    old_avail.lemma_filter_contains_rev(f, c);
                    let k = choose|k: int| 0 <= k < kept@.len() && kept@[k] == c;
                    old_avail.lemma_filter_pred(f, k);
                }
            }
        }
        self.available = kept;
        let mut listed = false;
        let mut j: usize = 0;
        while j < self.unavailable.len()
            invariant
                j <= self.unavailable@.len(),
                listed == exists|k: int| 0 <= k < j && self.unavailable@[k].category == category,
            decreases self.unavailable@.len() - j,
        {
            if self.unavailable[j].category == category {
                listed = true;
            }
            j = j + 1;
        }
        proof {
            if listed {
                let k = choose|k: int| 0 <= k < j && self.unavailable@[k].category == category;
                assert(categories_of(self.unavailable@)[k] == category);
            } else {
                assert(!categories_of(self.unavailable@).contains(category));
            }
        }
        if !listed {
            let ghost before = self.unavailable@;
            self.unavailable.push(UnavailableCategory { category, reason });
            proof {
                assert(categories_of(self.unavailable@) =~= categories_of(before).push(category));
            }
        }
        proof {
            assert forall|k: int| 0 <= k < self.unavailable@.len() implies !self.available@.contains(
                #[trigger] self.unavailable@[k].category,
            ) by {
                let c = self.unavailable@[k].category;
                if self.available@.contains(c) {
                    assert(self.available@.to_set().contains(c));
                    assert(c != category);
                    assert(old(self).unavailable@[k].category == c);
                    assert(old_avail.contains(c));
                }
            }
        }
    }

    /// Get all available categories (each listed once).
    pub fn available_categories(&self) -> (r: &Vec<Category>)
        requires
            self.wf(),
        ensures
            r@ == self.available_seq(),
            r@.to_set() == self.available_set(),
            r@.no_duplicates(),
    {
        &self.available
    }

    /// Get unavailable categories with reasons.
    pub fn unavailable_categories(&self) -> (r: &Vec<UnavailableCategory>)
        ensures
            r@ == self.unavailable_seq(),
    {
        &self.unavailable
    }

    /// Get the analysis mode.
    pub fn mode(&self) -> (r: AnalysisMode)
        ensures
            r == self.mode_spec(),
    {
        self.mode
    }

    /// The requested categories that are available, in request order.
    pub fn filter_available(&self, requested: &[Category]) -> (r: Vec<Category>)
        ensures
            r@ == requested@.filter(|c: Category| self.available_set().contains(c)),
    {
        let mut r: Vec<Category> = Vec::new();
        let mut i: usize = 0;
        while i < requested.len()
            invariant
                i <= requested@.len(),
                r@ == requested@.take(i as int).filter(|c: Category| self.available_set().contains(c)),
            decreases requested@.len() - i,
        {
            let c = requested[i];
            if self.supports(c) {
                r.push(c);
            }
            proof {
                assert(requested@.take(i + 1).drop_last() =~= requested@.take(i as int));
                reveal_with_fuel(Seq::filter, 1);
            }
            i = i + 1;
        }
        assert(requested@.take(requested@.len() as int) =~= requested@);
        r
    }

    /// The requested categories that are not available, in request order.
    pub fn filter_unavailable(&self, requested: &[Category]) -> (r: Vec<Category>)
        ensures
            r@ == requested@.filter(|c: Category| !self.available_set().contains(c)),
    {
        let mut r: Vec<Category> = Vec::new();
        let mut i: usize = 0;
        while i < requested.len()
            invariant
                i <= requested@.len(),
                r@ == requested@.take(i as int).filter(|c: Category| !self.available_set().contains(c)),
            decreases requested@.len() - i,
        {
            let c = requested[i];
            if !self.supports(c) {
                r.push(c);
            }
            proof {
                assert(requested@.take(i + 1).drop_last() =~= requested@.take(i as int));
                reveal_with_fuel(Seq::filter, 1);
            }
            i = i + 1;
        }
        assert(requested@.take(requested@.len() as int) =~= requested@);
        r
    }
}

/// Filtering keeps a sequence free of duplicates.
proof fn lemma_filter_no_dup<A>(s: Seq<A>, f: spec_fn(A) -> bool)
    requires
        s.no_duplicates(),
    ensures
        s.filter(f).no_duplicates(),
    decreases s.len(),
{
    reveal_with_fuel(Seq::filter, 1);
    if s.len() > 0 {
        let init = s.drop_last();
        assert(init.no_duplicates());
        lemma_filter_no_dup(init, f);
        if f(s.last()) {
            assert(!init.contains(s.last()));
            if init.filter(f).contains(s.last()) {
                init.lemma_filter_contains_rev(f, s.last());
            }
            let t = init.filter(f);
            assert(s.filter(f) == t.push(s.last()));
            assert forall|i: int, j: int| 0 <= i < j < t.push(s.last()).len() implies
                t.push(s.last())[i] != t.push(s.last())[j] by {
                if j == t.len() {
                    assert(t.contains(t[i]));
                }
            }
        }
    }
}

/// An element of a sequence that passes a filter is in the filtered sequence.
proof fn lemma_filter_contains<A>(s: Seq<A>, f: spec_fn(A) -> bool, i: int)
    requires
        0 <= i < s.len(),
        f(s[i]),
    ensures
        s.filter(f).contains(s[i]),
    decreases s.len(),
{
    reveal_with_fuel(Seq::filter, 1);
    let init = s.drop_last();
    if i == s.len() - 1 {
        assert(s.filter(f) == init.filter(f).push(s[i]));
        assert(s.filter(f)[init.filter(f).len() as int] == s[i]);
    } else {
        lemma_filter_contains(init, f, i);
        assert(init[i] == s[i]);
        let j = choose|j: int| 0 <= j < init.filter(f).len() && init.filter(f)[j] == s[i];
        if f(s.last()) {
            assert(s.filter(f)[j] == s[i]);
        }
    }
}

/// Every element of a filtered list of unavailable entries was in the list.
proof fn lemma_filter_subset(s: Seq<UnavailableCategory>, f: spec_fn(UnavailableCategory) -> bool)
    ensures
        forall|e: UnavailableCategory| s.filter(f).contains(e) ==> s.contains(e) && f(e),
{
    assert forall|e: UnavailableCategory| s.filter(f).contains(e) implies s.contains(e) && f(e) by {
        s.lemma_filter_contains_rev(f, e);
        let k = choose|k: int| 0 <= k < s.filter(f).len() && s.filter(f)[k] == e;
        s.lemma_filter_pred(f, k);
    }
}

/// Filtering keeps the categories of a list of unavailable entries distinct.
proof fn lemma_filter_keeps_unique(s: Seq<UnavailableCategory>, f: spec_fn(UnavailableCategory) -> bool)
    requires
        categories_of(s).no_duplicates(),
    ensures
        categories_of(s.filter(f)).no_duplicates(),
    decreases s.len(),
{
    reveal_with_fuel(Seq::filter, 1);
    if s.len() > 0 {
        let init = s.drop_last();
        assert(categories_of(init) =~= categories_of(s).drop_last());
        lemma_filter_keeps_unique(init, f);
        if f(s.last()) {
            let t = init.filter(f);
            assert(s.filter(f) == t.push(s.last()));
            assert(categories_of(t.push(s.last())) =~= categories_of(t).push(s.last().category));
            lemma_filter_subset(init, f);
            assert forall|i: int| 0 <= i < categories_of(t).len() implies categories_of(t)[i] != s.last().category by {
                let e = t[i];
                assert(t.contains(e));
                assert(init.contains(e));
                let m = choose|m: int| 0 <= m < init.len() && init[m] == e;
                assert(categories_of(s)[m] == e.category);
                assert(categories_of(s)[s.len() - 1] == s.last().category);
            }
            let cs = categories_of(t).push(s.last().category);
            assert forall|i: int, j: int| 0 <= i < j < cs.len() implies cs[i] != cs[j] by {
                if j == cs.len() - 1 {
                    assert(cs[i] == categories_of(t)[i]);
                }
            }
        }
    }
}

} // verus!
