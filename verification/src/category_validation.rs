//! Validation of requested analysis categories against what the target can offer.
use vstd::prelude::*;
use crate::capabilities::{AnalysisCapabilities, AnalysisMode};
use crate::category_kind::Category;
use crate::config::AnalysisTarget;

verus! {

/// Result of category validation.
#[derive(Debug)]
pub enum CategoryValidation {
    /// No categories specified, using defaults.
    UseDefaults { categories: Vec<Category> },
    /// All requested categories are available.
    AllAvailable { categories: Vec<Category> },
    /// Some categories available, some not.
    PartiallyAvailable { available: Vec<Category>, unavailable: Vec<Category> },
    /// None of the requested categories are available.
    NoneAvailable { requested: Vec<Category>, unavailable: Vec<Category> },
}

impl CategoryValidation {
    /// Only a partially available request asks the user to confirm.
    pub fn requires_confirmation(&self) -> (r: bool)
        ensures
            r == (*self is PartiallyAvailable),
    {
        match self {
            CategoryValidation::PartiallyAvailable { .. } => true,
            _ => false,
        }
    }
}

/// The categories analysed when none are requested: everything available in
/// package mode, and symbols, quality, imports and types in files mode.
pub open spec fn default_categories_of(caps: AnalysisCapabilities) -> Seq<Category> {
    match caps.mode_spec() {
        AnalysisMode::Package => caps.available_seq(),
        AnalysisMode::Files => seq![Category::Symbols, Category::Quality, Category::Imports, Category::Types],
    }
}

/// The requested categories that `caps` offers, in request order.
pub open spec fn offered(caps: AnalysisCapabilities, requested: Seq<Category>) -> Seq<Category> {
    requested.filter(|c: Category| caps.available_set().contains(c))
}

/// The requested categories that `caps` does not offer, in request order.
pub open spec fn not_offered(caps: AnalysisCapabilities, requested: Seq<Category>) -> Seq<Category> {
    requested.filter(|c: Category| !caps.available_set().contains(c))
}

/// Validates requested categories against available capabilities.
pub struct CategoryValidator {
    capabilities: AnalysisCapabilities,
}

impl CategoryValidator {
    /// The capabilities the validator checks against.
    pub closed spec fn caps(&self) -> AnalysisCapabilities {
        self.capabilities
    }

    /// A validator for the capabilities of an analysis target.
    pub fn new(target: &AnalysisTarget) -> (v: Self)
        ensures
            v.caps().wf(),
            v.caps().mode_spec() == target.mode_of(),
            v.caps().available_set() == target.capabilities_spec_available(),
    {
        CategoryValidator { capabilities: target.capabilities() }
    }

    /// Sorts the request: no categories means the defaults; otherwise the
    /// request is all, partly or not at all available.
    pub fn validate(&self, requested: &[Category]) -> (r: CategoryValidation)
        requires
            self.caps().wf(),
        ensures
            match r {
                CategoryValidation::UseDefaults { categories } => requested@.len() == 0
                    && categories@ == default_categories_of(self.caps()),
                CategoryValidation::AllAvailable { categories } => requested@.len() > 0
                    && not_offered(self.caps(), requested@).len() == 0
                    && categories@ == offered(self.caps(), requested@),
                CategoryValidation::PartiallyAvailable { available, unavailable } => requested@.len() > 0
                    && available@ == offered(self.caps(), requested@) && available@.len() > 0
                    && unavailable@ == not_offered(self.caps(), requested@) && unavailable@.len() > 0,
                CategoryValidation::NoneAvailable { requested: req, unavailable } => requested@.len() > 0
                    && offered(self.caps(), requested@).len() == 0 && req@ == requested@
                    && unavailable@ == not_offered(self.caps(), requested@) && unavailable@.len() > 0,
            },
    {
        if requested.len() == 0 {
            return CategoryValidation::UseDefaults { categories: self.default_categories() };
        }
        let available = self.capabilities.filter_available(requested);
        let unavailable = self.capabilities.filter_unavailable(requested);
        if unavailable.len() == 0 {
            CategoryValidation::AllAvailable { categories: available }
        } else if available.len() == 0 {
            let mut all: Vec<Category> = Vec::new();
            let mut i: usize = 0;
            while i < requested.len()
                invariant
                    i <= requested@.len(),
                    all@ == requested@.take(i as int),
                decreases requested@.len() - i,
            {
                all.push(requested[i]);
                proof {
                    assert(requested@.take(i + 1) =~= requested@.take(i as int).push(requested@[i as int]));
                }
                i = i + 1;
            }
            proof {
                assert(requested@.take(requested@.len() as int) =~= requested@);
            }
            CategoryValidation::NoneAvailable { requested: all, unavailable }
        } else {
            CategoryValidation::PartiallyAvailable { available, unavailable }
        }
    }

    /// The default categories of the validator's mode.
    fn default_categories(&self) -> (r: Vec<Category>)
        requires
            self.caps().wf(),
        ensures
            r@ == default_categories_of(self.caps()),
    {
        match self.capabilities.mode() {
            AnalysisMode::Package => {
                let src = self.capabilities.available_categories();
                let mut out: Vec<Category> = Vec::new();
                let mut i: usize = 0;
                while i < src.len()
                    invariant
                        i <= src@.len(),
                        out@ == src@.take(i as int),
                    decreases src@.len() - i,
                {
                    out.push(src[i]);
                    proof {
                        assert(src@.take(i + 1) =~= src@.take(i as int).push(src@[i as int]));
                    }
                    i = i + 1;
                }
                proof {
                    assert(src@.take(src@.len() as int) =~= src@);
                }
                out
            },
            AnalysisMode::Files => {
                let v = vec![Category::Symbols, Category::Quality, Category::Imports, Category::Types];
                assert(v@ =~= seq![Category::Symbols, Category::Quality, Category::Imports, Category::Types]);
                v
            },
        }
    }

    /// The capabilities the validator checks against.
    pub fn capabilities(&self) -> (r: &AnalysisCapabilities)
        ensures
            *r == self.caps(),
    {
        &self.capabilities
    }
}

} // verus!
