use danny::findings::{
    BundleSizeImpact, CircularDependency, ClassMemberKind, CodeSmellDetails, CodeSmellStats, CodeSmellType,
    DynamicImportInfo, EnumValue, ExportKind, Finding, ModuleSizeInfo, NpmDependencyType, SmellSeverity, SourceLocation,
    Statistics, SymbolKind, SymbolSpan, UnreachableModuleMetadata, SafetyAssessment,
};
use danny::report::{
    circular_section, dependencies_section, exports_section, files_section, framework_section, imports_section,
    quality_section, results_lines, symbols_section, types_section,
};

fn s(x: &str) -> String {
    x.to_string()
}

fn smell(t: CodeSmellType, sev: SmellSeverity, loc: &str, name: Option<&str>, line: Option<u32>, rec: Option<&str>) -> Finding {
    Finding::CodeSmell {
        smell_type: t,
        location: s(loc),
        symbol_name: name.map(s),
        line,
        column: None,
        severity: sev,
        details: CodeSmellDetails {
            message: s("m"),
            recommendation: rec.map(s),
            current_value: None,
            recommended_threshold: None,
            metadata: vec![],
        },
    }
}

#[test]
fn quality_section_lines() {
    let findings = vec![
        smell(CodeSmellType::LongFunction, SmellSeverity::Warning, "a.ts", Some("run"), Some(3), Some("Split it")),
        smell(CodeSmellType::LargeClass, SmellSeverity::Error, "b.ts", None, None, None),
        smell(CodeSmellType::LongFunction, SmellSeverity::Info, "c.ts", Some("go"), Some(9), None),
        smell(CodeSmellType::DeepNesting, SmellSeverity::Warning, "d.ts", Some("deep"), None, Some("Flatten")),
    ];
    let lines = quality_section(&findings);
    assert_eq!(
        lines,
        vec![
            s("\n⚡ Quality (4):"),
            s("  🔥 High Impact Issues (fix these first):"),
            s("\n    Large Functions (1):"),
            s("      ⚠️  a.ts:3 - run()"),
            s("         💡 Split it"),
            s("\n    Large Classes (1):"),
            s("      ⚠️  b.ts - unknown"),
            s("\n  Code Quality Issues (2):"),
            s("    💡 c.ts:9 - go (Code Smell)"),
            s("    💡 d.ts - deep (Deep Nesting)"),
            s("       Flatten"),
        ]
    );
}

#[test]
fn quality_section_caps_long_lists() {
    let mut findings = Vec::new();
    for k in 0..12 {
        findings.push(smell(CodeSmellType::TooManyParameters, SmellSeverity::Warning, "p.ts", Some("f"), Some(k), None));
    }
    let lines = quality_section(&findings);
    assert_eq!(lines.len(), 2 + 1 + 10 + 1);
    assert_eq!(lines[2], "\n    Too Many Parameters (12):");
    assert_eq!(lines[13], "      ... and 2 more");
}

#[test]
fn symbols_section_lines() {
    let span = SymbolSpan { file: s("m.ts"), line: 7, column: 1, offset: 0 };
    let findings = vec![
        Finding::UnusedSymbol {
            module: s("m.ts"),
            symbol_name: s("helper"),
            kind: SymbolKind::Function,
            span: span.clone(),
            explanation: None,
        },
        Finding::UnusedPrivateClassMember {
            module: s("m.ts"),
            class_name: s("A"),
            member_name: s("x"),
            member_kind: ClassMemberKind::Property,
            span: span.clone(),
        },
        Finding::UnusedEnumMember {
            module: s("e.ts"),
            enum_name: s("Color"),
            member_name: s("Red"),
            value: Some(EnumValue::Number(-4)),
            span: span.clone(),
        },
        Finding::UnusedEnumMember {
            module: s("e.ts"),
            enum_name: s("Color"),
            member_name: s("Blue"),
            value: Some(EnumValue::String(s("b"))),
            span,
        },
    ];
    assert_eq!(
        symbols_section(&findings),
        vec![
            s("\n🔍 Symbols (4):"),
            s("  Unused Symbols:"),
            s("    function 'helper' in m.ts (line 7)"),
            s("\n  Unused Private Class Members (Safe to Remove):"),
            s("    ✓ A::x (property) in m.ts"),
            s("\n  Unused Enum Members:"),
            s("    → Color::Red = -4 in e.ts"),
            s("    → Color::Blue = \"b\" in e.ts"),
        ]
    );
}

#[test]
fn imports_and_framework_lines() {
    let findings = vec![
        Finding::DynamicImport(DynamicImportInfo { from: s("a.ts"), to: s("b.ts"), source: s("./b"), creates_chunk: true }),
        Finding::TypeOnlyImport {
            module: s("a.ts"),
            source: s("./t"),
            specifiers: vec![s("A"), s("B")],
            span: SourceLocation { file: s("a.ts"), start: 0, end: 1 },
        },
        Finding::DependencyChain { chain: vec![s("src/a.ts"), s("src/lib/b.ts")], depth: 7 },
        Finding::FrameworkExport {
            module: s("pages/index.tsx"),
            export_name: s("default"),
            framework: s("Next.js"),
            rule: s("Built-in"),
            explanation: None,
        },
    ];
    assert_eq!(
        imports_section(&findings),
        vec![
            s("\n📥 Imports (3):"),
            s("  Dynamic Imports (Code-Split Points):"),
            s("    a.ts → b.ts (creates chunk)"),
            s("\n  Type-Only Imports (TypeScript import type):"),
            s("    📝 import type { A, B } from './t' in a.ts"),
            s("\n  Dependency Chains (Import Path Analysis):"),
            s("    🔗 a.ts → b.ts (depth: 7)"),
        ]
    );
    assert_eq!(
        framework_section(&findings),
        vec![
            s("\n🎯 Framework (1):"),
            s("  Framework-Used Exports:"),
            s("    'default' in pages/index.tsx (used by Next.js via Built-in)"),
        ]
    );
}

#[test]
fn circular_and_files_lines() {
    let findings = vec![
        Finding::CircularDependency(CircularDependency {
            cycle: vec![s("src/a.ts"), s("src/b.ts")],
            all_unreachable: true,
            total_size: 2048,
        }),
        Finding::UnreachableModule {
            path: s("old.ts"),
            size: 500,
            metadata: UnreachableModuleMetadata {
                has_side_effects: true,
                size_bytes: 500,
                safe_to_delete: false,
                safety_assessment: SafetyAssessment::ReviewCarefully(s("Module has side effects")),
            },
        },
        Finding::DeadCodeModule { path: s("dead.ts"), size: 1536 },
    ];
    assert_eq!(
        circular_section(&findings),
        vec![s("\n🔄 Circular Dependencies (1):"), s("  ⚠️  Cycle 1 (2 modules, 2.0 KB) (all unreachable):"), s("     a.ts → b.ts")]
    );
    assert_eq!(
        files_section(&findings, &None),
        vec![
            s("\n📁 Files (2):"),
            s("    old.ts (500 bytes) ⚠️  Review carefully (has side effects)"),
            s("\n  Dead Code Modules:"),
            s("    🗑️  dead.ts (1.5 KB) - Strong candidate for removal"),
        ]
    );
    let impact = BundleSizeImpact {
        total_savings_bytes: 3000,
        safe_savings_bytes: 1000,
        by_module: vec![
            ModuleSizeInfo { path: s("x.ts"), size_bytes: 2000, has_side_effects: true },
            ModuleSizeInfo { path: s("y.ts"), size_bytes: 1000, has_side_effects: false },
        ],
    };
    assert_eq!(
        files_section(&findings, &Some(impact)),
        vec![
            s("\n📁 Files (2):"),
            s("  Total potential savings: 2.9 KB (1000 bytes safe, 2.0 KB review)"),
            s("    y.ts (1000 bytes) ✓ Safe to delete"),
            s("    x.ts (2.0 KB) ⚠️  Review carefully (has side effects)"),
            s("\n  Dead Code Modules:"),
            s("    🗑️  dead.ts (1.5 KB) - Strong candidate for removal"),
        ]
    );
}

fn export(module: &str, name: &str, type_only: bool) -> Finding {
    Finding::UnusedExport {
        module: s(module),
        export_name: s(name),
        kind: ExportKind::Named,
        span: None,
        is_type_only: type_only,
        explanation: None,
    }
}

#[test]
fn exports_types_and_dependencies_lines() {
    let findings = vec![
        export("a.ts", "x", false),
        export("b.ts", "y", false),
        export("a.ts", "z", false),
        export("t.ts", "T", true),
        Finding::UnusedNpmDependency { package: s("lodash"), version: s("4.0.0"), dep_type: NpmDependencyType::Production },
        Finding::UnusedNpmDependency { package: s("jest"), version: s("29"), dep_type: NpmDependencyType::Development },
    ];
    assert_eq!(exports_section(&findings), vec![s("\n📤 Exports (3):"), s("    a.ts: x, z"), s("    b.ts: y")]);
    assert_eq!(
        types_section(&findings),
        vec![s("\n📝 Types (1):"), s("  Type-Only Exports (0 runtime impact):"), s("    t.ts: T")]
    );
    assert_eq!(
        dependencies_section(&findings),
        vec![
            s("\n📦 Dependencies (2):"),
            s("  dependencies (1):"),
            s("    💡 lodash@4.0.0 - Suggestion: Remove from package.json"),
            s("  devDependencies (1):"),
            s("    💡 jest@29 - Suggestion: Remove from package.json"),
        ]
    );
}

#[test]
fn results_report_lines() {
    let mut stats = Statistics::empty();
    stats.total_modules = 4;
    stats.total_dependencies = 6;
    stats.frameworks_detected = vec![s("React"), s("Next.js")];
    stats.duration_ms = 12;
    stats.code_quality_stats = Some(CodeSmellStats {
        total_smells: 1,
        by_type: vec![(CodeSmellType::LongFunction, 1)],
        by_severity: vec![(SmellSeverity::Warning, 1)],
    });
    let findings = vec![
        export("a.ts", "x", false),
        smell(CodeSmellType::LongFunction, SmellSeverity::Warning, "a.ts", Some("run"), Some(3), None),
    ];
    let lines = results_lines(&stats, &findings, "0.0");
    assert_eq!(
        lines,
        vec![
            s("\nDanny Analysis Results"),
            s("======================\n"),
            s("Statistics:"),
            s("  Total modules: 4"),
            s("  Total dependencies: 6"),
            s("  External dependencies: 0"),
            s("  Frameworks detected: React, Next.js"),
            s("  Duration: 12ms\n"),
            s("Findings by Category:"),
            s("  Exports: 1"),
            s("  Quality: 1"),
            s(""),
            s("\n📤 Exports (1):"),
            s("    a.ts: x"),
            s("\n⚡ Quality (1):"),
            s("  🔥 High Impact Issues (fix these first):"),
            s("\n    Large Functions (1):"),
            s("      ⚠️  a.ts:3 - run()"),
            s("\nCode Quality Statistics:"),
            s("  Total code smells: 1"),
            s("  By type:"),
            s("    Long Function: 1"),
            s(""),
        ]
    );
}
