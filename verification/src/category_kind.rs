//! Finding categories: the user-facing buckets that findings are grouped in.
use vstd::prelude::*;
use crate::text::{str_eq};

verus! {

/// User-facing category for organizing findings.
#[derive(Debug, Clone, Copy, PartialEq, Eq, Hash, Structural)]
pub enum Category {
    /// Unused files that can be deleted
    Files,
    /// Unused exports (runtime)
    Exports,
    /// Dead code within files
    Symbols,
    /// Unused TypeScript types/interfaces
    Types,
    /// Unused npm packages
    Dependencies,
    /// Import patterns & analysis
    Imports,
    /// Circular dependency cycles
    Circular,
    /// Code smells
    Quality,
    /// Framework-detected exports (informational)
    Framework,
}

/// Every category, in the order in which reports list them.
pub open spec fn all_categories() -> Seq<Category> {
    seq![
        Category::Files,
        Category::Exports,
        Category::Symbols,
        Category::Types,
        Category::Dependencies,
        Category::Imports,
        Category::Circular,
        Category::Quality,
        Category::Framework,
    ]
}

/// `r` is what parsing the command-line name `s` gives: the first category, in
/// the order of `all_categories`, named `s`, or `None` when no category is.
pub open spec fn parsed_cli_name(s: Seq<char>, r: Option<Category>) -> bool {
    match r {
        Some(c) => cli_name_of(c) == s && exists|i: int|
            0 <= i < 9 && all_categories()[i] == c && forall|j: int|
                0 <= j < i ==> cli_name_of(#[trigger] all_categories()[j]) != s,
        None => forall|c: Category| cli_name_of(c) != s,
    }
}

/// The title-case name of a category.
pub open spec fn display_name_of(c: Category) -> Seq<char> {
    match c {
        Category::Files => "Files"@,
        Category::Exports => "Exports"@,
        Category::Symbols => "Symbols"@,
        Category::Types => "Types"@,
        Category::Dependencies => "Dependencies"@,
        Category::Imports => "Imports"@,
        Category::Circular => "Circular"@,
        Category::Quality => "Quality"@,
        Category::Framework => "Framework"@,
    }
}

/// The lower-case name of a category, as written on the command line.
pub open spec fn cli_name_of(c: Category) -> Seq<char> {
    match c {
        Category::Files => "files"@,
        Category::Exports => "exports"@,
        Category::Symbols => "symbols"@,
        Category::Types => "types"@,
        Category::Dependencies => "dependencies"@,
        Category::Imports => "imports"@,
        Category::Circular => "circular"@,
        Category::Quality => "quality"@,
        Category::Framework => "framework"@,
    }
}

/// The one-line description of a category.
pub open spec fn description_of(c: Category) -> Seq<char> {
    match c {
        Category::Files => "Unused files that can be deleted"@,
        Category::Exports => "Unused exports (runtime)"@,
        Category::Symbols => "Dead code within files"@,
        Category::Types => "Unused TypeScript types/interfaces"@,
        Category::Dependencies => "Unused npm packages"@,
        Category::Imports => "Import pattern analysis"@,
        Category::Circular => "Circular dependency cycles"@,
        Category::Quality => "Code quality issues"@,
        Category::Framework => "Framework-specific exports"@,
    }
}

/// Categories that need the complete dependency graph of a package.
pub open spec fn needs_full_graph(c: Category) -> bool {
    c == Category::Files || c == Category::Exports || c == Category::Dependencies
        || c == Category::Circular || c == Category::Framework
}

impl Category {
    /// Returns all categories in a consistent order.
    pub fn all() -> (r: Vec<Category>)
        ensures
            r@ == all_categories(),
    {
        let r = vec![
            Category::Files,
            Category::Exports,
            Category::Symbols,
            Category::Types,
            Category::Dependencies,
            Category::Imports,
            Category::Circular,
            Category::Quality,
            Category::Framework,
        ];
        assert(r@ =~= all_categories());
        r
    }

    /// Returns the display name for this category.
    pub fn display_name(&self) -> (r: &'static str)
        ensures
            r@ == display_name_of(*self),
    {
        match self {
            Category::Files => "Files",
            Category::Exports => "Exports",
            Category::Symbols => "Symbols",
            Category::Types => "Types",
            Category::Dependencies => "Dependencies",
            Category::Imports => "Imports",
            Category::Circular => "Circular",
            Category::Quality => "Quality",
            Category::Framework => "Framework",
        }
    }

    /// Returns the lowercase name for CLI parsing.
    pub fn cli_name(&self) -> (r: &'static str)
        ensures
            r@ == cli_name_of(*self),
    {
        match self {
            Category::Files => "files",
            Category::Exports => "exports",
            Category::Symbols => "symbols",
            Category::Types => "types",
            Category::Dependencies => "dependencies",
            Category::Imports => "imports",
            Category::Circular => "circular",
            Category::Quality => "quality",
            Category::Framework => "framework",
        }
    }

    /// Returns the description for this category.
    pub fn description(&self) -> (r: &'static str)
        ensures
            r@ == description_of(*self),
    {
        match self {
            Category::Files => "Unused files that can be deleted",
            Category::Exports => "Unused exports (runtime)",
            Category::Symbols => "Dead code within files",
            Category::Types => "Unused TypeScript types/interfaces",
            Category::Dependencies => "Unused npm packages",
            Category::Imports => "Import pattern analysis",
            Category::Circular => "Circular dependency cycles",
            Category::Quality => "Code quality issues",
            Category::Framework => "Framework-specific exports",
        }
    }

    /// Checks whether this category requires a full dependency graph.
    pub fn requires_full_graph(&self) -> (r: bool)
        ensures
            r == needs_full_graph(*self),
    {
        match self {
            Category::Files | Category::Exports | Category::Dependencies | Category::Circular
            | Category::Framework => true,
            _ => false,
        }
    }

    /// Parses a category from its command-line name: the first category, in the
    /// order of `all`, whose `cli_name` is `s`.
    pub fn from_cli_name(s: &str) -> (r: Option<Category>)
        ensures
            parsed_cli_name(s@, r),
    {
        let all = Category::all();
        let mut i: usize = 0;
        while i < all.len()
            invariant
                all@ == all_categories(),
                i <= 9,
                forall|j: int| 0 <= j < i ==> cli_name_of(#[trigger] all_categories()[j]) != s@,
            decreases 9 - i,
        {
            let c = all[i];
            if str_eq(c.cli_name(), s) {
                assert(all_categories()[i as int] == c);
                return Some(c);
            }
            i = i + 1;
        }
        assert forall|c: Category| cli_name_of(c) != s@ by {
            let k: int = match c {
                Category::Files => 0,
                Category::Exports => 1,
                Category::Symbols => 2,
                Category::Types => 3,
                Category::Dependencies => 4,
                Category::Imports => 5,
                Category::Circular => 6,
                Category::Quality => 7,
                Category::Framework => 8,
            };
            assert(all_categories()[k] == c);
        }
        None
    }
}

} // verus!
