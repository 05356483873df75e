use std::collections::BTreeSet;

use code_intel_kernel::evaluation::checks::{impact_evidence_valid, inspect_evidence_valid};
use code_intel_kernel::evaluation::run::{evaluate_case, evaluate_cases, CaseOutput, CaseRun};
use code_intel_kernel::evaluation::{EvalCase, EvalCaseKind, EvalCounters, EvalExpect};
use code_intel_kernel::repo_graph::config::ConfigValue;
use code_intel_kernel::repo_graph::impact::analyze_impact;
use code_intel_kernel::repo_graph::inspect::inspect_snapshot;
use code_intel_kernel::repo_graph::snapshot::{FileText, ParsedDocument, RepoSnapshot, SnapshotEntry};
use code_intel_kernel::repo_graph::types::{ImpactStatus, RepoInspection};

fn entry(path: &str, is_dir: bool, document: ParsedDocument) -> SnapshotEntry {
    SnapshotEntry { path: path.to_string(), is_dir, text: FileText::NotRead, document }
}

fn cargo_repo() -> RepoInspection {
    let manifest = ConfigValue::Table(vec![(
        "package".to_string(),
        ConfigValue::Table(vec![("name".to_string(), ConfigValue::Text("demo".to_string()))]),
    )]);
    let snapshot = RepoSnapshot {
        root: "fixtures/minimal-cargo".to_string(),
        entries: vec![
            entry("Cargo.toml", false, ParsedDocument::Parsed(manifest)),
            entry("src", true, ParsedDocument::NotParsed),
            entry("src/main.rs", false, ParsedDocument::NotParsed),
        ],
    };
    inspect_snapshot(&snapshot)
}

fn case(name: &str, kind: EvalCaseKind, changed: &[&str], expect: EvalExpect) -> EvalCase {
    EvalCase {
        name: name.to_string(),
        fixture: "fixtures/minimal-cargo".to_string(),
        kind,
        changed_files: changed.iter().map(|f| f.to_string()).collect(),
        expect,
    }
}

fn inspect_run(graph: RepoInspection) -> CaseRun {
    CaseRun { output: CaseOutput::Inspect { graph }, deterministic: true }
}

#[test]
fn a_plain_inspect_case_passes() {
    let graph = cargo_repo();
    assert!(inspect_evidence_valid(&graph));
    let mut counters = EvalCounters::new();
    let result = evaluate_case(&case("plain", EvalCaseKind::Inspect, &[], EvalExpect::default()), &inspect_run(graph), &mut counters);
    assert!(result.passed);
    assert!(result.failures.is_empty());
    assert_eq!(result.name, "plain");
    assert_eq!((counters.deterministic_cases, counters.deterministic_passed), (1, 1));
    assert_eq!((counters.evidence_cases, counters.evidence_passed), (1, 1));
    assert_eq!(counters.expected_checks, 0);
}

#[test]
fn a_missing_component_is_a_false_narrow_failure() {
    let graph = cargo_repo();
    let names: Vec<String> = graph.components.iter().map(|c| c.name.clone()).collect();
    assert_eq!(names, vec!["demo".to_string(), "demo".to_string()]);
    let expect = EvalExpect { components_contains: vec!["missing-component".to_string(), "demo".to_string()], ..EvalExpect::default() };
    let mut counters = EvalCounters::new();
    let result = evaluate_case(&case("deliberate_false_narrow", EvalCaseKind::Inspect, &[], expect), &inspect_run(graph), &mut counters);
    assert!(!result.passed);
    assert_eq!(result.failures.len(), 1);
    let failure = &result.failures[0];
    assert_eq!(failure.case_name, "deliberate_false_narrow");
    assert_eq!(failure.expected, "components_contains: missing-component");
    assert_eq!(failure.actual, format!("{:?}", names));
    assert_eq!(failure.severity, "error");
    assert_eq!(failure.category, "false_narrow");
    assert_eq!(counters.false_narrow_count, 1);
    assert_eq!((counters.expected_checks, counters.expected_checks_passed), (2, 1));
}

#[test]
fn too_many_impacted_components_is_a_false_broad_failure() {
    let graph = cargo_repo();
    let report = analyze_impact(&graph, vec!["Cargo.toml".to_string()]);
    assert_eq!(report.impacted_components.len(), 2);
    let expect = EvalExpect { max_impacted_components: Some(0), ..EvalExpect::default() };
    let mut counters = EvalCounters::new();
    let run = CaseRun { output: CaseOutput::Impact { report }, deterministic: true };
    let result = evaluate_case(&case("deliberate_false_broad", EvalCaseKind::Impact, &["Cargo.toml"], expect), &run, &mut counters);
    assert!(!result.passed);
    assert_eq!(result.failures.len(), 1);
    assert_eq!(result.failures[0].expected, "max_impacted_components: at most 0");
    assert_eq!(result.failures[0].actual, "2");
    assert_eq!(result.failures[0].category, "false_broad");
    assert_eq!(counters.false_broad_count, 1);
}

#[test]
fn warning_expectations_show_the_reported_categories() {
    let graph = cargo_repo();
    let report = analyze_impact(&graph, vec!["src/main.rs".to_string()]);
    assert!(impact_evidence_valid(&report));
    let categories: BTreeSet<String> = report
        .warnings
        .iter()
        .map(|w| format!("{:?}", w.category))
        .map(|name| {
            let mut out = String::new();
            for (i, c) in name.chars().enumerate() {
                if c.is_ascii_uppercase() {
                    if i > 0 {
                        out.push('_');
                    }
                    out.push(c.to_ascii_lowercase());
                } else {
                    out.push(c);
                }
            }
            out
        })
        .collect();
    assert!(categories.contains("repo_graph_only"));
    let expect = EvalExpect {
        warnings_contains_categories: vec!["repo_graph_only".to_string(), "ignored_path".to_string()],
        warnings_not_contains_categories: vec!["repo_graph_only".to_string(), "malformed_manifest".to_string()],
        ..EvalExpect::default()
    };
    let mut counters = EvalCounters::new();
    let run = CaseRun { output: CaseOutput::Impact { report }, deterministic: true };
    let result = evaluate_case(&case("warnings", EvalCaseKind::Impact, &["src/main.rs"], expect), &run, &mut counters);
    let shown = format!("{:?}", categories);
    let failures: Vec<(&str, &str, &str)> = result
        .failures
        .iter()
        .map(|f| (f.expected.as_str(), f.actual.as_str(), f.category.as_str()))
        .collect();
    assert_eq!(
        failures,
        vec![
            ("warnings_contains_categories: ignored_path", shown.as_str(), "missing_expected_warning"),
            ("warnings_not_contains_categories: not repo_graph_only", shown.as_str(), "unexpected_warning"),
        ]
    );
    assert_eq!(counters.missing_expected_warning_count, 1);
    assert_eq!(counters.unexpected_warning_count, 1);
    assert_eq!((counters.expected_checks, counters.expected_checks_passed), (4, 2));
}

#[test]
fn value_mismatches_name_the_values() {
    let graph = cargo_repo();
    let report = analyze_impact(&graph, vec!["src/main.rs".to_string()]);
    assert_eq!(report.status, ImpactStatus::Partial);
    let expect = EvalExpect { status: Some(ImpactStatus::Complete), ..EvalExpect::default() };
    let mut counters = EvalCounters::new();
    let run = CaseRun { output: CaseOutput::Impact { report }, deterministic: true };
    let result = evaluate_case(&case("status", EvalCaseKind::Impact, &["src/main.rs"], expect), &run, &mut counters);
    assert_eq!(result.failures.len(), 1);
    assert_eq!(result.failures[0].expected, "status: Ok");
    assert_eq!(result.failures[0].actual, "Partial");
    assert_eq!(result.failures[0].category, "mismatch");
}

#[test]
fn forbidden_commands_are_false_broad() {
    let graph = cargo_repo();
    let commands: Vec<String> = graph.commands.iter().map(|c| c.command.clone()).collect();
    assert!(commands.contains(&"cargo test".to_string()));
    let expect = EvalExpect { forbidden_commands_contains: vec!["cargo test".to_string()], ..EvalExpect::default() };
    let mut counters = EvalCounters::new();
    let result = evaluate_case(&case("forbidden", EvalCaseKind::Inspect, &[], expect), &inspect_run(graph), &mut counters);
    assert_eq!(result.failures.len(), 1);
    assert_eq!(result.failures[0].expected, "forbidden_commands_contains: not cargo test");
    assert_eq!(result.failures[0].actual, format!("{:?}", commands.iter().map(|c| c.as_str()).collect::<Vec<_>>()));
    assert_eq!(result.failures[0].category, "false_broad");
}

#[test]
fn missing_evidence_and_differing_runs_fail() {
    let mut graph = cargo_repo();
    graph.evidence.clear();
    assert!(!inspect_evidence_valid(&graph));
    let mut counters = EvalCounters::new();
    let run = CaseRun { output: CaseOutput::Inspect { graph }, deterministic: false };
    let result = evaluate_case(&case("broken", EvalCaseKind::Inspect, &[], EvalExpect::default()), &run, &mut counters);
    let failures: Vec<(&str, &str, &str)> = result
        .failures
        .iter()
        .map(|f| (f.expected.as_str(), f.actual.as_str(), f.category.as_str()))
        .collect();
    assert_eq!(
        failures,
        vec![
            ("deterministic_output: same output across repeated runs", "outputs differed", "determinism"),
            ("evidence_coverage: all inspect facts have valid evidence", "missing or invalid evidence reference", "evidence_coverage"),
        ]
    );
    assert_eq!((counters.deterministic_cases, counters.deterministic_passed), (1, 0));
    assert_eq!((counters.evidence_cases, counters.evidence_passed), (1, 0));
}

#[test]
fn a_run_tallies_cases_and_failures_in_order() {
    let graph = cargo_repo();
    let report = analyze_impact(&graph, vec!["Cargo.toml".to_string()]);
    let cases = vec![
        case("ok", EvalCaseKind::Inspect, &[], EvalExpect::default()),
        case("broad", EvalCaseKind::Impact, &["Cargo.toml"], EvalExpect { max_impacted_components: Some(0), ..EvalExpect::default() }),
    ];
    let runs = vec![inspect_run(graph), CaseRun { output: CaseOutput::Impact { report }, deterministic: true }];
    let tally = evaluate_cases(cases, runs);
    assert_eq!(tally.total_cases, 2);
    assert_eq!(tally.passed_cases, 1);
    assert_eq!(tally.failed_cases, 1);
    assert_eq!((tally.inspect_cases, tally.impact_cases), (1, 1));
    assert_eq!(tally.failures.len(), 1);
    assert_eq!(tally.failures[0].case_name, "broad");
    assert_eq!(tally.cases.iter().map(|c| c.passed).collect::<Vec<_>>(), vec![true, false]);
    assert_eq!(tally.counters.deterministic_cases, 2);
    assert_eq!(tally.counters.evidence_passed, 2);
    assert_eq!(tally.counters.false_broad_count, 1);
}
