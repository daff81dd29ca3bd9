//! Code quality analysis: flags functions and classes whose measured size or
//! complexity exceeds the configured thresholds.
use vstd::prelude::*;
use crate::findings::{CodeSmellDetails, CodeSmellType, Finding, SmellSeverity};
use crate::paths::{is_virtual, is_virtual_path};
use crate::text::{decimal, push_str, to_owned_string, u64_to_string};
use crate::toml_config::CodeQualityConfig;

verus! {

/// The kinds of symbols the quality checks measure.
#[derive(Debug, Clone, Copy, PartialEq, Eq, Structural)]
pub enum MeasuredKind {
    Function,
    Class,
    Other,
}

/// A measurement taken from a symbol.
#[derive(Debug, Clone, Copy, PartialEq, Eq, Structural)]
pub enum Metric {
    LineCount,
    ParameterCount,
    MethodCount,
    FieldCount,
    Complexity,
    NestingDepth,
    ReturnCount,
}

/// One symbol of the module graph with its measurements and the module it
/// lives in. A measurement is `None` where it does not apply to the symbol.
#[derive(Debug, Clone)]
pub struct SymbolMetrics {
    pub name: String,
    pub kind: MeasuredKind,
    /// Identifier of the containing module.
    pub module_id: String,
    /// Path of the containing module, `None` when the graph has no such module.
    pub module_location: Option<String>,
    pub line: u32,
    pub column: u32,
    pub line_count: Option<usize>,
    pub parameter_count: Option<usize>,
    pub method_count: Option<usize>,
    pub field_count: Option<usize>,
    pub complexity: Option<usize>,
    pub max_nesting_depth: Option<usize>,
    pub return_count: Option<usize>,
}

/// Errors that can occur during code quality analysis.
#[derive(Debug, Clone, PartialEq, Eq)]
pub enum QualityAnalysisError {
    /// Failed to retrieve symbols from the module graph.
    SymbolAccess(String),
    /// Failed to retrieve a specific module from the graph.
    ModuleAccess { module_id: String, source: String },
    /// A module referenced by a symbol was not found in the graph.
    ModuleNotFound(String),
}

/// The text of a quality analysis error.
pub open spec fn quality_error_text(e: QualityAnalysisError) -> Seq<char> {
    match e {
        QualityAnalysisError::SymbolAccess(m) => "Failed to get symbols: "@ + m@,
        QualityAnalysisError::ModuleAccess { module_id, source } => "Failed to get module "@
            + module_id@ + ": "@ + source@,
        QualityAnalysisError::ModuleNotFound(m) => "Module not found: "@ + m@,
    }
}

impl QualityAnalysisError {
    /// The error's message.
    pub fn message(&self) -> (r: String)
        ensures
            r@ == quality_error_text(*self),
    {
        match self {
            QualityAnalysisError::SymbolAccess(m) => {
                let mut r = to_owned_string("Failed to get symbols: ");
                push_str(&mut r, m.as_str());
                r
            },
            QualityAnalysisError::ModuleAccess { module_id, source } => {
                let mut r = to_owned_string("Failed to get module ");
                push_str(&mut r, module_id.as_str());
                push_str(&mut r, ": ");
                push_str(&mut r, source.as_str());
                r
            },
            QualityAnalysisError::ModuleNotFound(m) => {
                let mut r = to_owned_string("Module not found: ");
                push_str(&mut r, m.as_str());
                r
            },
        }
    }
}

/// The measurement `m` of symbol `s`.
pub open spec fn metric_of(s: SymbolMetrics, m: Metric) -> Option<usize> {
    match m {
        Metric::LineCount => s.line_count,
        Metric::ParameterCount => s.parameter_count,
        Metric::MethodCount => s.method_count,
        Metric::FieldCount => s.field_count,
        Metric::Complexity => s.complexity,
        Metric::NestingDepth => s.max_nesting_depth,
        Metric::ReturnCount => s.return_count,
    }
}

/// The message of a smell: `"{subject} '{name}' has {before}{value}{after} (recommended: {threshold})"`.
pub open spec fn smell_message(
    subject: Seq<char>,
    name: Seq<char>,
    before: Seq<char>,
    value: nat,
    after: Seq<char>,
    threshold: nat,
) -> Seq<char> {
    subject + " '"@ + name + "' has "@ + before + decimal(value) + after + " (recommended: "@
        + decimal(threshold) + ")"@
}

/// How one quality check reports: which symbols it looks at, the threshold,
/// the smell it reports, and how its message and recommendation read.
pub struct SmellRule {
    pub kind: MeasuredKind,
    pub metric: Metric,
    pub threshold: usize,
    pub smell_type: CodeSmellType,
    pub subject: Seq<char>,
    pub before: Seq<char>,
    pub after: Seq<char>,
    pub recommendation: Seq<char>,
}

/// The symbol's module is missing from the graph, for a symbol the rule looks at.
pub open spec fn module_missing(s: SymbolMetrics, rule: SmellRule) -> bool {
    s.kind == rule.kind && s.module_location is None
}

/// The rule reports symbol `s`: it has the rule's kind, lives in a real
/// (non-virtual) module, and its measurement exceeds the threshold.
pub open spec fn violates(s: SymbolMetrics, rule: SmellRule) -> bool {
    &&& s.kind == rule.kind
    &&& s.module_location matches Some(p) && !is_virtual(p@)
    &&& metric_of(s, rule.metric) matches Some(v) && v > rule.threshold
}

/// `f` is the smell finding the rule reports for symbol `s`.
pub open spec fn reports_smell(f: Finding, s: SymbolMetrics, rule: SmellRule) -> bool {
    let v = metric_of(s, rule.metric).unwrap();
    match f {
        Finding::CodeSmell { smell_type, location, symbol_name, line, column, severity, details } => {
            &&& smell_type == rule.smell_type
            &&& Some(location) == s.module_location
            &&& symbol_name == Some(s.name)
            &&& line == Some(s.line)
            &&& column == Some(s.column)
            &&& severity == SmellSeverity::Warning
            &&& details.message@ == smell_message(
                rule.subject,
                s.name@,
                rule.before,
                v as nat,
                rule.after,
                rule.threshold as nat,
            )
            &&& details.recommendation matches Some(r) && r@ == rule.recommendation
            &&& details.current_value == Some(v)
            &&& details.recommended_threshold == Some(rule.threshold)
            &&& details.metadata@.len() == 0
        },
        _ => false,
    }
}

/// `found` holds, in order, one reported smell for each symbol of `symbols`
/// that violates the rule.
pub open spec fn smells_match(symbols: Seq<SymbolMetrics>, found: Seq<Finding>, rule: SmellRule) -> bool
    decreases symbols.len(),
{
    if symbols.len() == 0 {
        found.len() == 0
    } else if violates(symbols.last(), rule) {
        &&& found.len() > 0
        &&& reports_smell(found.last(), symbols.last(), rule)
        &&& smells_match(symbols.drop_last(), found.drop_last(), rule)
    } else {
        smells_match(symbols.drop_last(), found, rule)
    }
}

/// The outcome of a quality check: the first symbol the rule looks at whose
/// module is missing makes it fail with that module's identifier; otherwise it
/// reports the violating symbols.
pub open spec fn check_outcome(
    symbols: Seq<SymbolMetrics>,
    rule: SmellRule,
    r: Result<Vec<Finding>, QualityAnalysisError>,
) -> bool {
    match r {
        Ok(found) => (forall|i: int| 0 <= i < symbols.len() ==> !module_missing(#[trigger] symbols[i], rule))
            && smells_match(symbols, found@, rule),
        Err(QualityAnalysisError::ModuleNotFound(id)) => exists|i: int|
            0 <= i < symbols.len() && module_missing(#[trigger] symbols[i], rule) && id == symbols[i].module_id
                && forall|j: int| 0 <= j < i ==> !module_missing(#[trigger] symbols[j], rule),
        Err(_) => false,
    }
}

proof fn lemma_smells_match_push(symbols: Seq<SymbolMetrics>, found: Seq<Finding>, s: SymbolMetrics, f: Finding, rule: SmellRule)
    requires
        smells_match(symbols, found, rule),
        violates(s, rule),
        reports_smell(f, s, rule),
    ensures
        smells_match(symbols.push(s), found.push(f), rule),
{
    assert(symbols.push(s).drop_last() =~= symbols);
    assert(found.push(f).drop_last() =~= found);
}

proof fn lemma_smells_match_skip(symbols: Seq<SymbolMetrics>, found: Seq<Finding>, s: SymbolMetrics, rule: SmellRule)
    requires
        smells_match(symbols, found, rule),
        !violates(s, rule),
    ensures
        smells_match(symbols.push(s), found, rule),
{
    assert(symbols.push(s).drop_last() =~= symbols);
}

/// The rule that flags functions with more lines than `max_function_lines`.
pub open spec fn long_function_rule(config: CodeQualityConfig) -> SmellRule {
    SmellRule {
        kind: MeasuredKind::Function,
        metric: Metric::LineCount,
        threshold: config.max_function_lines,
        smell_type: CodeSmellType::LongFunction,
        subject: "Function"@,
        before: ""@,
        after: " lines"@,
        recommendation: "Extract logical sections into separate functions"@,
    }
}

/// The rule that flags functions with more parameters than `max_parameters`.
pub open spec fn too_many_parameters_rule(config: CodeQualityConfig) -> SmellRule {
    SmellRule {
        kind: MeasuredKind::Function,
        metric: Metric::ParameterCount,
        threshold: config.max_parameters,
        smell_type: CodeSmellType::TooManyParameters,
        subject: "Function"@,
        before: ""@,
        after: " parameters"@,
        recommendation: "Use options object to reduce parameter count"@,
    }
}

/// The rule that flags classes with more lines than `max_class_lines`.
pub open spec fn large_class_rule(config: CodeQualityConfig) -> SmellRule {
    SmellRule {
        kind: MeasuredKind::Class,
        metric: Metric::LineCount,
        threshold: config.max_class_lines,
        smell_type: CodeSmellType::LargeClass,
        subject: "Class"@,
        before: ""@,
        after: " lines"@,
        recommendation: "Consider splitting into smaller, focused classes"@,
    }
}

/// The rule that flags classes with more methods than `max_methods`.
pub open spec fn too_many_methods_rule(config: CodeQualityConfig) -> SmellRule {
    SmellRule {
        kind: MeasuredKind::Class,
        metric: Metric::MethodCount,
        threshold: config.max_methods,
        smell_type: CodeSmellType::TooManyMethods,
        subject: "Class"@,
        before: ""@,
        after: " methods"@,
        recommendation: "Consider splitting into smaller classes or using composition"@,
    }
}

/// The rule that flags classes with more fields than `max_fields`.
pub open spec fn too_many_fields_rule(config: CodeQualityConfig) -> SmellRule {
    SmellRule {
        kind: MeasuredKind::Class,
        metric: Metric::FieldCount,
        threshold: config.max_fields,
        smell_type: CodeSmellType::TooManyFields,
        subject: "Class"@,
        before: ""@,
        after: " fields"@,
        recommendation: "Group related fields into separate objects or split the class"@,
    }
}

/// The rule that flags functions whose cyclomatic complexity exceeds `max_complexity`.
pub open spec fn complex_conditional_rule(config: CodeQualityConfig) -> SmellRule {
    SmellRule {
        kind: MeasuredKind::Function,
        metric: Metric::Complexity,
        threshold: config.max_complexity,
        smell_type: CodeSmellType::ComplexConditional,
        subject: "Function"@,
        before: "cyclomatic complexity of "@,
        after: ""@,
        recommendation: "Break down into smaller functions with single responsibilities"@,
    }
}

/// The rule that flags functions nested deeper than `max_nesting`.
pub open spec fn deep_nesting_rule(config: CodeQualityConfig) -> SmellRule {
    SmellRule {
        kind: MeasuredKind::Function,
        metric: Metric::NestingDepth,
        threshold: config.max_nesting,
        smell_type: CodeSmellType::DeepNesting,
        subject: "Function"@,
        before: "nesting depth of "@,
        after: ""@,
        recommendation: "Use early returns or extract nested logic into separate functions"@,
    }
}

/// The rule that flags functions with more return statements than `max_return_count`.
pub open spec fn multiple_returns_rule(config: CodeQualityConfig) -> SmellRule {
    SmellRule {
        kind: MeasuredKind::Function,
        metric: Metric::ReturnCount,
        threshold: config.max_return_count,
        smell_type: CodeSmellType::MultipleReturns,
        subject: "Function"@,
        before: ""@,
        after: " return statements"@,
        recommendation: "Refactor to use single return point or reduce control flow complexity"@,
    }
}

/// Analyzer for code quality issues (code smells).
pub struct QualityAnalyzer;

impl QualityAnalyzer {
    /// Flags functions with more lines than `max_function_lines`.
    pub fn detect_long_functions(symbols: &Vec<SymbolMetrics>, config: &CodeQualityConfig) -> (r: Result<Vec<Finding>, QualityAnalysisError>)
        ensures
            check_outcome(symbols@, long_function_rule(*config), r),
    {
        Self::detect_metric_violation(
            symbols,
            MeasuredKind::Function,
            config.max_function_lines,
            CodeSmellType::LongFunction,
            "Extract logical sections into separate functions",
            Metric::LineCount,
            "Function",
            "",
            " lines",
        )
    }

    /// Flags functions with more parameters than `max_parameters`.
    pub fn detect_too_many_parameters(symbols: &Vec<SymbolMetrics>, config: &CodeQualityConfig) -> (r: Result<Vec<Finding>, QualityAnalysisError>)
        ensures
            check_outcome(symbols@, too_many_parameters_rule(*config), r),
    {
        Self::detect_metric_violation(
            symbols,
            MeasuredKind::Function,
            config.max_parameters,
            CodeSmellType::TooManyParameters,
            "Use options object to reduce parameter count",
            Metric::ParameterCount,
            "Function",
            "",
            " parameters",
        )
    }

    /// Flags classes with more lines than `max_class_lines`.
    pub fn detect_large_classes(symbols: &Vec<SymbolMetrics>, config: &CodeQualityConfig) -> (r: Result<Vec<Finding>, QualityAnalysisError>)
        ensures
            check_outcome(symbols@, large_class_rule(*config), r),
    {
        Self::detect_metric_violation(
            symbols,
            MeasuredKind::Class,
            config.max_class_lines,
            CodeSmellType::LargeClass,
            "Consider splitting into smaller, focused classes",
            Metric::LineCount,
            "Class",
            "",
            " lines",
        )
    }

    /// Flags classes with more methods than `max_methods`.
    pub fn detect_too_many_methods(symbols: &Vec<SymbolMetrics>, config: &CodeQualityConfig) -> (r: Result<Vec<Finding>, QualityAnalysisError>)
        ensures
            check_outcome(symbols@, too_many_methods_rule(*config), r),
    {
        Self::detect_metric_violation(
            symbols,
            MeasuredKind::Class,
            config.max_methods,
            CodeSmellType::TooManyMethods,
            "Consider splitting into smaller classes or using composition",
            Metric::MethodCount,
            "Class",
            "",
            " methods",
        )
    }

    /// Flags classes with more fields than `max_fields`.
    pub fn detect_too_many_fields(symbols: &Vec<SymbolMetrics>, config: &CodeQualityConfig) -> (r: Result<Vec<Finding>, QualityAnalysisError>)
        ensures
            check_outcome(symbols@, too_many_fields_rule(*config), r),
    {
        Self::detect_metric_violation(
            symbols,
            MeasuredKind::Class,
            config.max_fields,
            CodeSmellType::TooManyFields,
            "Group related fields into separate objects or split the class",
            Metric::FieldCount,
            "Class",
            "",
            " fields",
        )
    }

    /// Flags functions whose cyclomatic complexity exceeds `max_complexity`.
    pub fn detect_complex_conditionals(symbols: &Vec<SymbolMetrics>, config: &CodeQualityConfig) -> (r: Result<Vec<Finding>, QualityAnalysisError>)
        ensures
            check_outcome(symbols@, complex_conditional_rule(*config), r),
    {
        Self::detect_metric_violation(
            symbols,
            MeasuredKind::Function,
            config.max_complexity,
            CodeSmellType::ComplexConditional,
            "Break down into smaller functions with single responsibilities",
            Metric::Complexity,
            "Function",
            "cyclomatic complexity of ",
            "",
        )
    }

    /// Flags functions nested deeper than `max_nesting`.
    pub fn detect_deep_nesting(symbols: &Vec<SymbolMetrics>, config: &CodeQualityConfig) -> (r: Result<Vec<Finding>, QualityAnalysisError>)
        ensures
            check_outcome(symbols@, deep_nesting_rule(*config), r),
    {
        Self::detect_metric_violation(
            symbols,
            MeasuredKind::Function,
            config.max_nesting,
            CodeSmellType::DeepNesting,
            "Use early returns or extract nested logic into separate functions",
            Metric::NestingDepth,
            "Function",
            "nesting depth of ",
            "",
        )
    }

    /// Flags functions with more return statements than `max_return_count`.
    pub fn detect_multiple_returns(symbols: &Vec<SymbolMetrics>, config: &CodeQualityConfig) -> (r: Result<Vec<Finding>, QualityAnalysisError>)
        ensures
            check_outcome(symbols@, multiple_returns_rule(*config), r),
    {
        Self::detect_metric_violation(
            symbols,
            MeasuredKind::Function,
            config.max_return_count,
            CodeSmellType::MultipleReturns,
            "Refactor to use single return point or reduce control flow complexity",
            Metric::ReturnCount,
            "Function",
            "",
            " return statements",
        )
    }

    /// Magic numbers need a syntax-tree walk that the symbol measurements do
    /// not provide, so this check reports nothing.
    pub fn detect_magic_numbers(symbols: &Vec<SymbolMetrics>, config: &CodeQualityConfig) -> (r: Result<Vec<Finding>, QualityAnalysisError>)
        ensures
            r matches Ok(found) && found@.len() == 0,
    {
        Ok(Vec::new())
    }

    /// Message chains need a syntax-tree walk that the symbol measurements do
    /// not provide, so this check reports nothing.
    pub fn detect_message_chains(symbols: &Vec<SymbolMetrics>, config: &CodeQualityConfig) -> (r: Result<Vec<Finding>, QualityAnalysisError>)
        ensures
            r matches Ok(found) && found@.len() == 0,
    {
        Ok(Vec::new())
    }

    /// The measurement `metric` of `symbol`.
    fn metric_value(symbol: &SymbolMetrics, metric: Metric) -> (r: Option<usize>)
        ensures
            r == metric_of(*symbol, metric),
    {
        match metric {
            Metric::LineCount => symbol.line_count,
            Metric::ParameterCount => symbol.parameter_count,
            Metric::MethodCount => symbol.method_count,
            Metric::FieldCount => symbol.field_count,
            Metric::Complexity => symbol.complexity,
            Metric::NestingDepth => symbol.max_nesting_depth,
            Metric::ReturnCount => symbol.return_count,
        }
    }

    /// Builds the message of a smell.
    fn smell_text(subject: &str, name: &str, before: &str, value: usize, after: &str, threshold: usize) -> (r: String)
        ensures
            r@ == smell_message(subject@, name@, before@, value as nat, after@, threshold as nat),
    {
        let mut m = to_owned_string(subject);
        push_str(&mut m, " '");
        push_str(&mut m, name);
        push_str(&mut m, "' has ");
        push_str(&mut m, before);
        let v = u64_to_string(value as u64);
        push_str(&mut m, v.as_str());
        push_str(&mut m, after);
        push_str(&mut m, " (recommended: ");
        let t = u64_to_string(threshold as u64);
        push_str(&mut m, t.as_str());
        push_str(&mut m, ")");
        m
    }

    /// Checks every symbol of the given kind that lives in a real module
    /// against the threshold, reporting a warning for each one whose
    /// measurement exceeds it.
    #[allow(clippy::too_many_arguments)]
    fn detect_metric_violation(
        symbols: &Vec<SymbolMetrics>,
        kind: MeasuredKind,
        threshold: usize,
        smell_type: CodeSmellType,
        recommendation: &str,
        metric: Metric,
        subject: &str,
        before: &str,
        after: &str,
    ) -> (r: Result<Vec<Finding>, QualityAnalysisError>)
        ensures
            check_outcome(
                symbols@,
                SmellRule {
                    kind,
                    metric,
                    threshold,
                    smell_type,
                    subject: subject@,
                    before: before@,
                    after: after@,
                    recommendation: recommendation@,
                },
                r,
            ),
    {
        let ghost rule = SmellRule {
            kind,
            metric,
            threshold,
            smell_type,
            subject: subject@,
            before: before@,
            after: after@,
            recommendation: recommendation@,
        };
        let mut findings: Vec<Finding> = Vec::new();
        let mut i: usize = 0;
        while i < symbols.len()
            invariant
                rule == (SmellRule {
                    kind,
                    metric,
                    threshold,
                    smell_type,
                    subject: subject@,
                    before: before@,
                    after: after@,
                    recommendation: recommendation@,
                }),
                i <= symbols@.len(),
                forall|j: int| 0 <= j < i ==> !module_missing(#[trigger] symbols@[j], rule),
                smells_match(symbols@.take(i as int), findings@, rule),
            decreases symbols@.len() - i,
        {
            let symbol = &symbols[i];
            let ghost found_before = findings@;
            proof {
                assert(symbols@.take(i + 1) =~= symbols@.take(i as int).push(symbols@[i as int]));
            }
            if symbol.kind == kind {
                match &symbol.module_location {
                    None => {
                        proof {
                            assert(module_missing(symbols@[i as int], rule));
                        }
                        return Err(QualityAnalysisError::ModuleNotFound(symbol.module_id.clone()));
                    },
                    Some(path) => {
                        if !is_virtual_path(path.as_str()) {
                            match Self::metric_value(symbol, metric) {
                                Some(value) => {
                                    if value > threshold {
                                        let message = Self::smell_text(
                                            subject,
                                            symbol.name.as_str(),
                                            before,
                                            value,
                                            after,
                                            threshold,
                                        );
                                        let f = Self::create_smell_finding(
                                            smell_type,
                                            path.clone(),
                                            Some(symbol.name.clone()),
                                            Some(symbol.line),
                                            Some(symbol.column),
                                            SmellSeverity::Warning,
                                            message,
                                            Some(to_owned_string(recommendation)),
                                            Some(value),
                                            Some(threshold),
                                        );
                                        proof {
                                            assert(symbols@[i as int] == *symbol);
                                            assert(symbol.kind == rule.kind);
                                            assert(symbol.module_location == Some(*path));
                                            assert(!is_virtual(path@));
                                            assert(metric_of(*symbol, rule.metric) == Some(value));
                                            lemma_smells_match_push(symbols@.take(i as int), findings@, symbols@[i as int], f, rule);
                                        }
                                        findings.push(f);
                                        i = i + 1;
                                        continue;
                                    }
                                },
                                None => {},
                            }
                        }
                    },
                }
            }
            proof {
                lemma_smells_match_skip(symbols@.take(i as int), findings@, symbols@[i as int], rule);
            }
            i = i + 1;
        }
        proof {
            assert(symbols@.take(symbols@.len() as int) =~= symbols@);
        }
        Ok(findings)
    }

    /// Builds a code smell finding from its parts.
    #[allow(clippy::too_many_arguments)]
    pub fn create_smell_finding(
        smell_type: CodeSmellType,
        location: String,
        symbol_name: Option<String>,
        line: Option<u32>,
        column: Option<u32>,
        severity: SmellSeverity,
        message: String,
        recommendation: Option<String>,
        current_value: Option<usize>,
        recommended_threshold: Option<usize>,
    ) -> (f: Finding)
        ensures
            match f {
                Finding::CodeSmell {
                    smell_type: st,
                    location: l,
                    symbol_name: sn,
                    line: ln,
                    column: c,
                    severity: sv,
                    details: d,
                } => {
                    &&& st == smell_type
                    &&& l == location
                    &&& sn == symbol_name
                    &&& ln == line
                    &&& c == column
                    &&& sv == severity
                    &&& d.message == message
                    &&& d.recommendation == recommendation
                    &&& d.current_value == current_value
                    &&& d.recommended_threshold == recommended_threshold
                    &&& d.metadata@.len() == 0
                },
                _ => false,
            },
    {
        Finding::CodeSmell {
            smell_type,
            location,
            symbol_name,
            line,
            column,
            severity,
            details: CodeSmellDetails {
                message,
                recommendation,
                current_value,
                recommended_threshold,
                metadata: Vec::new(),
            },
        }
    }

    /// Whether a path names a bundler-generated (virtual) module.
    pub fn is_virtual_path(path: &str) -> (r: bool)
        ensures
            r == is_virtual(path@),
    {
        is_virtual_path(path)
    }
}

} // verus!
