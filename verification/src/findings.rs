//! The findings an analysis reports, and the statistics that summarize them.
//!
//! Paths are held as strings. Free-form metadata is held as pairs of a key and
//! the JSON text of its value; a confidence is held as the bits of its `f32`.
use vstd::prelude::*;
use crate::category_kind::Category;

verus! {

/// Safety assessment for module deletion.
#[derive(Debug, Clone, PartialEq, Eq)]
pub enum SafetyAssessment {
    /// Module is safe to delete without risk
    SafeToDelete,
    /// Module should be reviewed carefully before deletion
    ReviewCarefully(String),
    /// Module should not be deleted
    Unsafe(String),
}

/// Types of code smells that can be detected.
#[derive(Debug, Clone, Copy, PartialEq, Eq, Hash, Structural)]
pub enum CodeSmellType {
    LongFunction,
    TooManyParameters,
    LargeClass,
    MagicNumber,
    MessageChain,
    ComplexConditional,
    DeepNesting,
    MultipleReturns,
    EmptyCatchBlock,
    DuplicatedCode,
    LongParameterList,
    TooManyMethods,
    TooManyFields,
    LowCohesion,
}

/// Severity level for code smells.
#[derive(Debug, Clone, Copy, PartialEq, Eq, Hash, Structural)]
pub enum SmellSeverity {
    Info,
    Warning,
    Error,
}

/// Detailed information about a code smell.
#[derive(Debug, Clone, PartialEq, Eq)]
pub struct CodeSmellDetails {
    /// Human-readable message describing the issue.
    pub message: String,
    /// Recommendation for fixing the issue.
    pub recommendation: Option<String>,
    /// Current value (e.g., line count, parameter count).
    pub current_value: Option<usize>,
    /// Recommended threshold value.
    pub recommended_threshold: Option<usize>,
    /// Additional metadata: key and JSON text of the value.
    pub metadata: Vec<(String, String)>,
}

/// Statistics for code quality analysis.
#[derive(Debug, Clone, PartialEq, Eq)]
pub struct CodeSmellStats {
    pub total_smells: usize,
    pub by_type: Vec<(CodeSmellType, usize)>,
    pub by_severity: Vec<(SmellSeverity, usize)>,
}

/// Types of patterns that can be detected.
#[derive(Debug, Clone, PartialEq, Eq)]
pub enum PatternType {
    ReactComponent,
    NextJsPage,
    NextJsApiRoute,
    NextJsLayout,
    VueComponent,
    Custom(String),
}

/// Export kind.
#[derive(Debug, Clone, Copy, PartialEq, Eq, Structural)]
pub enum ExportKind {
    Named,
    Default,
    ReExport,
    StarReExport,
    TypeOnly,
}

/// Symbol kind for intra-file analysis.
#[derive(Debug, Clone, Copy, PartialEq, Eq, Structural)]
pub enum SymbolKind {
    Function,
    Variable,
    Class,
    Parameter,
    TypeAlias,
    Interface,
    Enum,
}

/// Class member kind.
#[derive(Debug, Clone, Copy, PartialEq, Eq, Structural)]
pub enum ClassMemberKind {
    Method,
    Property,
    Getter,
    Setter,
    Constructor,
}

/// Member visibility.
#[derive(Debug, Clone, Copy, PartialEq, Eq, Structural)]
pub enum MemberVisibility {
    Private,
    Public,
    Protected,
}

/// Enum member value.
#[derive(Debug, Clone, PartialEq, Eq)]
pub enum EnumValue {
    Number(i64),
    String(String),
    Computed,
}

/// NPM dependency type.
#[derive(Debug, Clone, Copy, PartialEq, Eq, Structural)]
pub enum NpmDependencyType {
    Production,
    Development,
    Peer,
    Optional,
}

/// Symbol source location with line and column information.
#[derive(Debug, Clone, PartialEq, Eq)]
pub struct SymbolSpan {
    pub file: String,
    pub line: u32,
    pub column: u32,
    pub offset: u32,
}

/// Source code location information.
#[derive(Debug, Clone, PartialEq, Eq)]
pub struct SourceLocation {
    pub file: String,
    pub start: u32,
    pub end: u32,
}

/// Detailed explanation for why a finding was flagged (verbose mode).
#[derive(Debug, Clone, PartialEq, Eq)]
pub struct Explanation {
    pub reason: String,
    pub details: Vec<ExplanationDetail>,
}

/// A single explanation detail providing specific context.
#[derive(Debug, Clone, PartialEq, Eq)]
pub struct ExplanationDetail {
    pub category: String,
    pub label: String,
    pub value: String,
    pub context: Option<String>,
}

/// A dependency relationship.
#[derive(Debug, Clone, PartialEq, Eq)]
pub struct Dependency {
    pub specifier: String,
    pub resolved: String,
    pub is_external: bool,
    pub is_dynamic: bool,
}

/// Enriched metadata for unreachable modules.
#[derive(Debug, Clone, PartialEq, Eq)]
pub struct UnreachableModuleMetadata {
    pub has_side_effects: bool,
    pub size_bytes: usize,
    pub safe_to_delete: bool,
    pub safety_assessment: SafetyAssessment,
}

/// Size of one module, for the bundle size report.
#[derive(Debug, Clone, PartialEq, Eq)]
pub struct ModuleSizeInfo {
    pub path: String,
    pub size_bytes: usize,
    pub has_side_effects: bool,
}

/// Bundle size impact analysis.
#[derive(Debug, Clone, PartialEq, Eq)]
pub struct BundleSizeImpact {
    /// Total potential savings in bytes
    pub total_savings_bytes: usize,
    /// Breakdown by module
    pub by_module: Vec<ModuleSizeInfo>,
    /// Savings that are safe to realize (no side effects)
    pub safe_savings_bytes: usize,
}

/// Dynamic import analysis.
#[derive(Debug, Clone, PartialEq, Eq)]
pub struct DynamicImportInfo {
    pub from: String,
    pub to: String,
    pub source: String,
    pub creates_chunk: bool,
}

/// Circular dependency detected.
#[derive(Debug, Clone, PartialEq, Eq)]
pub struct CircularDependency {
    /// Modules involved in the cycle (ordered)
    pub cycle: Vec<String>,
    /// Whether all modules in cycle are unreachable
    pub all_unreachable: bool,
    /// Total size of modules in cycle
    pub total_size: usize,
}

/// A finding discovered during code analysis.
#[derive(Debug, Clone, PartialEq, Eq)]
pub enum Finding {
    Module { path: String, dependencies: Vec<Dependency>, metadata: Vec<(String, String)> },
    Dependency { from: String, to: String, specifier: String, is_external: bool },
    Pattern { pattern_type: PatternType, location: String, metadata: Vec<(String, String)> },
    /// A detected framework usage; `confidence_bits` are the bits of an `f32` in 0.0..=1.0.
    Framework { name: String, confidence_bits: u32, evidence: Vec<String> },
    UnusedExport {
        module: String,
        export_name: String,
        kind: ExportKind,
        span: Option<SourceLocation>,
        is_type_only: bool,
        explanation: Option<Explanation>,
    },
    UnreachableModule { path: String, size: usize, metadata: UnreachableModuleMetadata },
    UnreachableFile { path: String, size: usize, explanation: Option<Explanation> },
    UnusedSymbol {
        module: String,
        symbol_name: String,
        kind: SymbolKind,
        span: SymbolSpan,
        explanation: Option<Explanation>,
    },
    FrameworkExport {
        module: String,
        export_name: String,
        framework: String,
        rule: String,
        explanation: Option<Explanation>,
    },
    DynamicImport(DynamicImportInfo),
    CircularDependency(CircularDependency),
    UnusedPrivateClassMember {
        module: String,
        class_name: String,
        member_name: String,
        member_kind: ClassMemberKind,
        span: SymbolSpan,
    },
    UnusedPublicClassMember {
        module: String,
        class_name: String,
        member_name: String,
        member_kind: ClassMemberKind,
        span: SymbolSpan,
    },
    UnusedEnumMember {
        module: String,
        enum_name: String,
        member_name: String,
        value: Option<EnumValue>,
        span: SymbolSpan,
    },
    UnusedNpmDependency { package: String, version: String, dep_type: NpmDependencyType },
    SideEffectOnlyImport {
        module: String,
        source: String,
        resolved_to: Option<String>,
        span: SourceLocation,
    },
    NamespaceImport {
        module: String,
        namespace_name: String,
        source: String,
        resolved_to: Option<String>,
    },
    TypeOnlyImport { module: String, source: String, specifiers: Vec<String>, span: SourceLocation },
    DeadCodeModule { path: String, size: usize },
    DependencyChain { chain: Vec<String>, depth: usize },
    CodeSmell {
        smell_type: CodeSmellType,
        location: String,
        symbol_name: Option<String>,
        line: Option<u32>,
        column: Option<u32>,
        severity: SmellSeverity,
        details: CodeSmellDetails,
    },
}

/// The category a finding belongs to. Informational findings (modules,
/// dependencies, patterns, frameworks) are filed under Framework.
pub open spec fn finding_category(f: Finding) -> Category {
    match f {
        Finding::UnreachableFile { .. } | Finding::UnreachableModule { .. } | Finding::DeadCodeModule {
            ..
        } => Category::Files,
        Finding::UnusedExport { is_type_only, .. } => if is_type_only {
            Category::Types
        } else {
            Category::Exports
        },
        Finding::UnusedSymbol { .. } | Finding::UnusedPrivateClassMember { .. }
        | Finding::UnusedPublicClassMember { .. } | Finding::UnusedEnumMember { .. } => Category::Symbols,
        Finding::UnusedNpmDependency { .. } => Category::Dependencies,
        Finding::SideEffectOnlyImport { .. } | Finding::NamespaceImport { .. } | Finding::TypeOnlyImport {
            ..
        } | Finding::DependencyChain { .. } | Finding::DynamicImport(_) => Category::Imports,
        Finding::CircularDependency(_) => Category::Circular,
        Finding::CodeSmell { .. } => Category::Quality,
        Finding::FrameworkExport { .. } => Category::Framework,
        Finding::Module { .. } | Finding::Dependency { .. } | Finding::Pattern { .. }
        | Finding::Framework { .. } => Category::Framework,
    }
}

impl Finding {
    /// Returns the category this finding belongs to.
    pub fn category(&self) -> (r: Category)
        ensures
            r == finding_category(*self),
    {
        match self {
            Finding::UnreachableFile { .. } | Finding::UnreachableModule { .. }
            | Finding::DeadCodeModule { .. } => Category::Files,
            Finding::UnusedExport { is_type_only, .. } => if *is_type_only {
                Category::Types
            } else {
                Category::Exports
            },
            Finding::UnusedSymbol { .. } | Finding::UnusedPrivateClassMember { .. }
            | Finding::UnusedPublicClassMember { .. } | Finding::UnusedEnumMember { .. } => Category::Symbols,
            Finding::UnusedNpmDependency { .. } => Category::Dependencies,
            Finding::SideEffectOnlyImport { .. } | Finding::NamespaceImport { .. }
            | Finding::TypeOnlyImport { .. } | Finding::DependencyChain { .. } | Finding::DynamicImport(_) => {
                Category::Imports
            },
            Finding::CircularDependency(_) => Category::Circular,
            Finding::CodeSmell { .. } => Category::Quality,
            Finding::FrameworkExport { .. } => Category::Framework,
            Finding::Module { .. } | Finding::Dependency { .. } | Finding::Pattern { .. }
            | Finding::Framework { .. } => Category::Framework,
        }
    }
}

/// Symbol-level statistics.
#[derive(Debug, Clone, PartialEq, Eq)]
pub struct SymbolStats {
    pub total_symbols: usize,
    pub unused_symbols: usize,
    pub by_kind: Vec<(SymbolKind, usize)>,
}

/// Error severity levels.
#[derive(Debug, Clone, Copy, PartialEq, Eq, Structural)]
pub enum ErrorSeverity {
    Warning,
    Error,
}

/// A non-fatal error encountered during analysis.
#[derive(Debug, Clone, PartialEq, Eq)]
pub struct AnalysisError {
    pub file: String,
    pub message: String,
    pub severity: ErrorSeverity,
}

/// A finding that was filtered out by ignore patterns.
#[derive(Debug, Clone, PartialEq, Eq)]
pub struct IgnoredFinding {
    /// The original finding that was filtered.
    pub finding: Finding,
    /// The ignore pattern that matched this finding.
    pub matched_pattern: String,
    /// The file path that caused the match.
    pub matched_path: String,
}

/// Breakdown of ignored findings by finding type.
#[derive(Debug, Clone, Copy, PartialEq, Eq, Default, Structural)]
pub struct IgnoredFindingsBreakdown {
    pub unused_exports: usize,
    pub unreachable_modules: usize,
    pub unreachable_files: usize,
    pub unused_symbols: usize,
    pub framework_exports: usize,
    pub modules: usize,
    pub dependencies: usize,
    pub patterns: usize,
}

/// Class member statistics.
#[derive(Debug, Clone, PartialEq, Eq)]
pub struct ClassMemberStats {
    pub total_members: usize,
    pub unused_private: usize,
    pub unused_public: usize,
    pub by_visibility: Vec<(MemberVisibility, usize)>,
}

/// Enum member statistics.
#[derive(Debug, Clone, Copy, PartialEq, Eq, Structural)]
pub struct EnumStats {
    pub total_enums: usize,
    pub total_members: usize,
    pub unused_members: usize,
}

/// Coverage for a specific dependency type.
#[derive(Debug, Clone, Copy, PartialEq, Eq, Structural)]
pub struct TypeCoverage {
    pub declared: usize,
    pub used: usize,
    pub unused: usize,
}

/// Dependency coverage statistics; `coverage_percentage_bits` are the bits of an
/// `f64` in 0.0..=100.0.
#[derive(Debug, Clone, PartialEq, Eq)]
pub struct DependencyCoverageStats {
    pub total_declared: usize,
    pub total_used: usize,
    pub total_unused: usize,
    pub coverage_percentage_bits: u64,
    pub by_type: Vec<(NpmDependencyType, TypeCoverage)>,
}

/// Summary statistics from analysis.
#[derive(Debug, Clone, PartialEq, Eq)]
pub struct Statistics {
    pub total_modules: usize,
    pub total_dependencies: usize,
    pub external_dependencies: usize,
    pub frameworks_detected: Vec<String>,
    pub unused_exports_count: usize,
    pub unreachable_modules_count: usize,
    pub unreachable_files_count: usize,
    pub framework_exports_count: usize,
    pub symbol_statistics: Option<SymbolStats>,
    pub bundle_size_impact: Option<BundleSizeImpact>,
    pub dynamic_imports_count: usize,
    pub circular_dependencies_count: usize,
    pub type_only_unused_exports_count: usize,
    pub unused_private_class_members_count: usize,
    pub unused_public_class_members_count: usize,
    pub unused_enum_members_count: usize,
    pub unused_npm_dependencies_count: usize,
    pub side_effect_only_imports_count: usize,
    pub namespace_imports_count: usize,
    pub type_only_imports_count: usize,
    pub dead_code_modules_count: usize,
    pub dependency_chains_count: usize,
    pub class_member_stats: Option<ClassMemberStats>,
    pub enum_stats: Option<EnumStats>,
    pub dependency_coverage_stats: Option<DependencyCoverageStats>,
    pub ignored_findings_count: usize,
    pub ignored_findings_breakdown: Option<IgnoredFindingsBreakdown>,
    pub duration_ms: u64,
    pub code_quality_stats: Option<CodeSmellStats>,
    pub code_smells_count: usize,
}

/// Every count is zero, no framework is listed, and no optional breakdown is
/// present.
pub open spec fn is_empty_statistics(r: Statistics) -> bool {
    &&& r.total_modules == 0
    &&& r.total_dependencies == 0
    &&& r.external_dependencies == 0
    &&& r.unused_exports_count == 0
    &&& r.unreachable_modules_count == 0
    &&& r.unreachable_files_count == 0
    &&& r.framework_exports_count == 0
    &&& r.dynamic_imports_count == 0
    &&& r.circular_dependencies_count == 0
    &&& r.type_only_unused_exports_count == 0
    &&& r.unused_private_class_members_count == 0
    &&& r.unused_public_class_members_count == 0
    &&& r.unused_enum_members_count == 0
    &&& r.unused_npm_dependencies_count == 0
    &&& r.side_effect_only_imports_count == 0
    &&& r.namespace_imports_count == 0
    &&& r.type_only_imports_count == 0
    &&& r.dead_code_modules_count == 0
    &&& r.dependency_chains_count == 0
    &&& r.ignored_findings_count == 0
    &&& r.duration_ms == 0
    &&& r.code_smells_count == 0
    &&& r.frameworks_detected@.len() == 0
    &&& r.symbol_statistics is None
    &&& r.bundle_size_impact is None
    &&& r.class_member_stats is None
    &&& r.enum_stats is None
    &&& r.dependency_coverage_stats is None
    &&& r.ignored_findings_breakdown is None
    &&& r.code_quality_stats is None
}

impl Statistics {
    /// All counts zero, no lists, no optional breakdowns.
    pub fn empty() -> (r: Statistics)
        ensures
            is_empty_statistics(r),
    {
        Statistics {
            total_modules: 0,
            total_dependencies: 0,
            external_dependencies: 0,
            frameworks_detected: Vec::new(),
            unused_exports_count: 0,
            unreachable_modules_count: 0,
            unreachable_files_count: 0,
            framework_exports_count: 0,
            symbol_statistics: None,
            bundle_size_impact: None,
            dynamic_imports_count: 0,
            circular_dependencies_count: 0,
            type_only_unused_exports_count: 0,
            unused_private_class_members_count: 0,
            unused_public_class_members_count: 0,
            unused_enum_members_count: 0,
            unused_npm_dependencies_count: 0,
            side_effect_only_imports_count: 0,
            namespace_imports_count: 0,
            type_only_imports_count: 0,
            dead_code_modules_count: 0,
            dependency_chains_count: 0,
            class_member_stats: None,
            enum_stats: None,
            dependency_coverage_stats: None,
            ignored_findings_count: 0,
            ignored_findings_breakdown: None,
            duration_ms: 0,
            code_quality_stats: None,
            code_smells_count: 0,
        }
    }
}

impl Default for Statistics {
    fn default() -> (r: Statistics)
        ensures
            is_empty_statistics(r),
    {
        Statistics::empty()
    }
}

/// Result of analyzing a project.
#[derive(Debug, Clone, PartialEq, Eq)]
pub struct AnalysisResult {
    pub findings: Vec<Finding>,
    pub statistics: Statistics,
    pub errors: Vec<AnalysisError>,
    pub ignored_findings: Vec<IgnoredFinding>,
}

} // verus!
