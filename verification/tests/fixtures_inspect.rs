use code_intel_kernel::evaluation::checks::{impact_evidence_valid, inspect_evidence_valid};
use code_intel_kernel::evaluation::run::{evaluate_cases, CaseOutput, CaseRun};
use code_intel_kernel::evaluation::{EvalCase, EvalCaseKind, EvalExpect};
use code_intel_kernel::repo_graph::config::ConfigValue;
use code_intel_kernel::repo_graph::impact::analyze_impact;
use code_intel_kernel::repo_graph::inspect::inspect_snapshot;
use code_intel_kernel::repo_graph::snapshot::{FileText, ParsedDocument, RepoSnapshot, SnapshotEntry};
use code_intel_kernel::repo_graph::types::{
    DetectionCategory, DetectionSeverity, ImpactConfidence, ImpactKind, ImpactScope, ImpactStatus, RelationshipKind,
    RepoInspection, IMPACT_CONTRACT_VERSION, INSPECT_CONTRACT_VERSION,
};

fn table(items: Vec<(&str, ConfigValue)>) -> ConfigValue {
    ConfigValue::Table(items.into_iter().map(|(k, v)| (k.to_string(), v)).collect())
}

fn text(s: &str) -> ConfigValue {
    ConfigValue::Text(s.to_string())
}

fn dir(path: &str) -> SnapshotEntry {
    SnapshotEntry { path: path.to_string(), is_dir: true, text: FileText::NotRead, document: ParsedDocument::NotParsed }
}

fn file(path: &str) -> SnapshotEntry {
    SnapshotEntry { path: path.to_string(), is_dir: false, text: FileText::NotRead, document: ParsedDocument::NotParsed }
}

fn doc(path: &str, value: ConfigValue) -> SnapshotEntry {
    SnapshotEntry { path: path.to_string(), is_dir: false, text: FileText::NotRead, document: ParsedDocument::Parsed(value) }
}

fn malformed(path: &str, error: &str) -> SnapshotEntry {
    SnapshotEntry {
        path: path.to_string(),
        is_dir: false,
        text: FileText::NotRead,
        document: ParsedDocument::Malformed(error.to_string()),
    }
}

fn lines(path: &str, contents: &str) -> SnapshotEntry {
    SnapshotEntry { path: path.to_string(), is_dir: false, text: FileText::Text(contents.to_string()), document: ParsedDocument::NotParsed }
}

fn repo(root: &str, entries: Vec<SnapshotEntry>) -> RepoInspection {
    inspect_snapshot(&RepoSnapshot { root: root.to_string(), entries })
}

fn package(name: &str) -> ConfigValue {
    table(vec![("package", table(vec![("name", text(name))]))])
}

fn minimal_cargo() -> RepoInspection {
    repo("minimal-cargo", vec![doc("Cargo.toml", package("minimal-cargo")), dir("src"), file("src/lib.rs")])
}

fn python_pytest_evidence() -> RepoInspection {
    let manifest = table(vec![
        ("project", table(vec![("name", text("python-pytest-evidence"))])),
        ("tool", table(vec![("pytest", table(vec![("ini_options", table(vec![]))]))])),
    ]);
    repo("python-pytest-evidence", vec![doc("pyproject.toml", manifest), dir("tests"), file("tests/test_basic.py")])
}

fn python_tests_ambiguous() -> RepoInspection {
    let manifest = table(vec![("project", table(vec![("name", text("python-tests-ambiguous"))]))]);
    repo("python-tests-ambiguous", vec![doc("pyproject.toml", manifest), dir("tests"), file("tests/test_example.py")])
}

fn go_module_basic() -> RepoInspection {
    repo("go-module-basic", vec![lines("go.mod", "module example.com/go-basic\n\ngo 1.22\n"), file("main.go")])
}

fn go_module_with_tests() -> RepoInspection {
    repo(
        "go-module-with-tests",
        vec![file("foo.go"), file("foo_test.go"), lines("go.mod", "module example.com/go-tests\n\ngo 1.22\n")],
    )
}

fn malformed_manifest() -> RepoInspection {
    repo("malformed-manifest", vec![malformed("package.json", "expected value at line 1 column 1")])
}

fn assert_all_warnings_are_structured(graph: &RepoInspection) {
    assert!(graph.warnings.iter().all(|w| !w.id.is_empty() && !w.message.is_empty()));
}

#[test]
fn parses_minimal_cargo_toml_fixture() {
    let graph = minimal_cargo();
    assert_eq!(graph.contract_version, "0.2");
    assert!(graph.detected_files.iter().any(|file| file.path == "Cargo.toml"));
    assert!(graph.components.iter().any(|component| component.name == "minimal-cargo"));
    assert!(graph
        .components
        .iter()
        .any(|component| component.kind == "rust_lib_target" && component.file_patterns == vec!["src/lib.rs"]));
    assert!(graph.commands.iter().any(|command| command.command == "cargo test"));
}

#[test]
fn detects_explicit_cargo_bin_target_fixture() {
    let manifest = table(vec![
        ("package", table(vec![("name", text("cargo-explicit-bin"))])),
        ("bin", ConfigValue::List(vec![table(vec![("name", text("worker")), ("path", text("src/bin/worker.rs"))])])),
    ]);
    let graph = repo("cargo-explicit-bin", vec![doc("Cargo.toml", manifest), dir("src"), dir("src/bin"), file("src/bin/worker.rs")]);
    assert!(graph.components.iter().any(|component| component.name == "worker"
        && component.kind == "rust_bin_target"
        && component.file_patterns == vec!["src/bin/worker.rs"]));
    assert!(inspect_evidence_valid(&graph));
}

#[test]
fn detects_npm_package_json_fixture() {
    let manifest = table(vec![("name", text("minimal-node")), ("scripts", table(vec![("test", text("node test.js"))]))]);
    let graph = repo("minimal-node", vec![doc("package.json", manifest)]);
    assert!(graph.detected_files.iter().any(|file| file.path == "package.json"));
    assert!(graph.components.iter().any(|component| component.name == "minimal-node"));
    assert!(graph.commands.iter().any(|command| command.command == "npm run test"));
}

#[test]
fn detects_minimal_python_project_fixture() {
    let manifest = table(vec![("project", table(vec![("name", text("minimal-python"))]))]);
    let graph = repo("minimal-python", vec![doc("pyproject.toml", manifest), dir("tests")]);
    assert!(graph.detected_files.iter().any(|file| file.path == "pyproject.toml"));
    assert!(graph.components.iter().any(|component| component.name == "minimal-python"));
    assert!(graph.tests.is_empty());
    assert!(graph.warnings.iter().any(|warning| warning.category == DetectionCategory::AmbiguousDetection));
}

#[test]
fn detects_minimal_go_module_fixture() {
    let graph = repo("minimal-go", vec![lines("go.mod", "module example.com/minimal-go\n\ngo 1.22\n")]);
    assert!(graph.components.iter().any(|component| component.name == "example.com/minimal-go"));
    assert!(graph.tests.iter().any(|test| test.command == "go test ./..."));
    assert!(graph.commands.iter().any(|command| command.command == "go build ./..."));
}

#[test]
fn detects_generic_makefile_fixture() {
    let graph = repo(
        "generic-make",
        vec![lines("Makefile", ".PHONY: test check build lint fmt\n\ntest:\n\t./run-tests\n\ncheck:\n\t./check\n\nbuild:\n\t./build\n\nlint:\n\t./lint\n\nfmt:\n\t./fmt\n")],
    );
    for command in ["make test", "make check", "make build", "make lint", "make fmt"] {
        assert!(graph.commands.iter().any(|candidate| candidate.command == command), "missing {command}");
    }
    assert!(graph.tests.iter().any(|test| test.command == "make test"));
    assert!(inspect_evidence_valid(&graph));
}

#[test]
fn detects_generic_justfile_fixture() {
    let graph = repo(
        "generic-just",
        vec![lines("justfile", "test:\n    ./run-tests\n\ncheck:\n    ./check\n\nbuild:\n    ./build\n\nlint:\n    ./lint\n\nformat:\n    ./format\n")],
    );
    for command in ["just test", "just check", "just build", "just lint", "just format"] {
        assert!(graph.commands.iter().any(|candidate| candidate.command == command), "missing {command}");
    }
    assert!(graph.tests.iter().any(|test| test.command == "just test"));
    assert!(inspect_evidence_valid(&graph));
}

#[test]
fn detects_workspace_members_fixture() {
    let root = table(vec![("workspace", table(vec![("members", ConfigValue::List(vec![text("crates/core")]))]))]);
    let graph = repo(
        "cargo-workspace",
        vec![doc("Cargo.toml", root), dir("crates"), dir("crates/core"), doc("crates/core/Cargo.toml", package("core"))],
    );
    assert_eq!(graph.workspaces.len(), 1);
    assert_eq!(graph.workspaces[0].members, vec!["crates/core"]);
}

#[test]
fn every_component_command_test_and_package_manager_has_evidence() {
    let graph = minimal_cargo();
    assert!(inspect_evidence_valid(&graph));
    assert!(graph.components.iter().all(|c| graph.evidence.iter().any(|e| e.id == c.evidence_id)));
    assert!(graph.commands.iter().all(|c| graph.evidence.iter().any(|e| e.id == c.evidence_id)));
    assert!(graph.tests.iter().all(|t| graph.evidence.iter().any(|e| e.id == t.evidence_id)));
    assert!(graph.package_managers.iter().all(|p| graph.evidence.iter().any(|e| e.id == p.evidence_id)));
}

#[test]
fn ignored_directories_do_not_create_graph_facts() {
    let entries = [".git", "target", "node_modules", "dist", "build", ".cache", ".venv", "__pycache__"]
        .into_iter()
        .map(dir)
        .collect::<Vec<_>>();
    let graph = repo("ignored", entries);
    assert!(graph.components.is_empty());
    assert!(graph.package_managers.is_empty());
    assert!(graph.commands.is_empty());
    assert!(graph.tests.is_empty());
    assert!(graph.warnings.iter().any(|warning| warning.category == DetectionCategory::IgnoredPath));
    assert!(graph.warnings.iter().any(|warning| warning.category == DetectionCategory::NoSupportedManifests));
}

#[test]
fn evidence_ids_are_deterministic_for_same_repo_state() {
    let first = minimal_cargo();
    let second = minimal_cargo();
    let first_ids = first.evidence.iter().map(|e| e.id.as_str()).collect::<Vec<_>>();
    let second_ids = second.evidence.iter().map(|e| e.id.as_str()).collect::<Vec<_>>();
    assert_eq!(first_ids, second_ids);
    assert!(first_ids.iter().all(|id| id.starts_with("evidence-")));
}

#[test]
fn malformed_manifest_produces_structured_warning() {
    let graph = malformed_manifest();
    assert!(graph.components.is_empty());
    assert!(graph.commands.is_empty());
    assert!(graph.warnings.iter().any(|warning| warning.severity == DetectionSeverity::Error
        && warning.category == DetectionCategory::MalformedManifest
        && warning.path.as_deref() == Some("package.json")
        && warning.evidence_id.is_some()));
    assert_all_warnings_are_structured(&graph);
}

#[test]
fn python_pyproject_name_is_extracted() {
    let manifest = table(vec![("project", table(vec![("name", text("python-basic"))]))]);
    let graph = repo("python-pyproject-basic", vec![doc("pyproject.toml", manifest)]);
    assert!(graph.components.iter().any(|component| component.name == "python-basic"));
    assert!(graph.tests.is_empty());
    assert!(graph.warnings.iter().any(|warning| warning.category == DetectionCategory::MissingCommand));
}

#[test]
fn python_pytest_evidence_produces_test_command() {
    let graph = python_pytest_evidence();
    assert!(graph.tests.iter().any(|test| test.command == "pytest" && !test.evidence_id.is_empty()));
    assert!(graph.commands.iter().any(|command| command.command == "pytest"));
    assert!(inspect_evidence_valid(&graph));
}

#[test]
fn python_tests_without_pytest_evidence_warns_without_guessing() {
    let graph = python_tests_ambiguous();
    assert!(graph.tests.is_empty());
    assert!(graph.commands.is_empty());
    assert!(graph.warnings.iter().any(|warning| warning.category == DetectionCategory::AmbiguousDetection));
}

#[test]
fn malformed_pyproject_produces_warning_without_panic() {
    let graph = repo("python-malformed-pyproject", vec![malformed("pyproject.toml", "expected `=`, found newline")]);
    assert!(graph.components.is_empty());
    assert!(graph.commands.is_empty());
    assert!(graph.warnings.iter().any(|warning| warning.category == DetectionCategory::MalformedManifest));
}

#[test]
fn go_module_recommends_test_and_build_with_evidence() {
    let graph = go_module_basic();
    assert!(graph.components.iter().any(|component| component.name == "example.com/go-basic"));
    assert!(graph.commands.iter().any(|command| command.command == "go test ./..."));
    assert!(graph.commands.iter().any(|command| command.command == "go build ./..."));
    assert!(inspect_evidence_valid(&graph));
}

#[test]
fn go_test_file_strengthens_test_command_evidence() {
    let graph = go_module_with_tests();
    assert!(graph.detected_files.iter().any(|file| file.path == "foo_test.go"));
    let test = graph.tests.iter().find(|test| test.command == "go test ./...").expect("go test target should exist");
    assert!(graph.evidence.iter().any(|evidence| evidence.id == test.evidence_id && evidence.path == "foo_test.go"));
}

#[test]
fn go_workspace_members_are_parsed_when_simple() {
    let graph = repo("go-workspace-basic", vec![lines("go.work", "go 1.22\n\nuse (\n\t./apps/api\n\t./libs/core\n)\n")]);
    assert_eq!(graph.workspaces.len(), 1);
    assert_eq!(graph.workspaces[0].members, vec!["./apps/api", "./libs/core"]);
}

#[test]
fn malformed_go_mod_warns_without_fake_component() {
    let graph = repo("go-malformed-mod", vec![lines("go.mod", "this is not a go module\n")]);
    assert!(graph.components.is_empty());
    assert!(graph.commands.is_empty());
    assert!(graph.warnings.iter().any(|warning| warning.category == DetectionCategory::MalformedManifest));
}

#[test]
fn repeated_inspect_output_has_stable_ordering() {
    let first = minimal_cargo();
    let second = minimal_cargo();
    assert_eq!(first.detected_files, second.detected_files);
    assert_eq!(first.package_managers, second.package_managers);
    assert_eq!(first.components, second.components);
    assert_eq!(first.commands, second.commands);
    assert_eq!(first.tests, second.tests);
    assert_eq!(first.relationships, second.relationships);
    assert_eq!(first.evidence, second.evidence);
    assert_eq!(first.warnings, second.warnings);
}

fn changed(files: &[&str]) -> Vec<String> {
    files.iter().map(|f| f.to_string()).collect()
}

#[test]
fn impact_for_rust_source_recommends_rust_commands() {
    let graph = minimal_cargo();
    let impact = analyze_impact(&graph, changed(&["src/lib.rs"]));
    assert_eq!(impact.contract_version, IMPACT_CONTRACT_VERSION);
    assert_eq!(impact.status, ImpactStatus::Partial);
    assert_eq!(impact.impact_scope, ImpactScope::Targeted);
    assert_eq!(impact.confidence, ImpactConfidence::Medium);
    let component = impact
        .impacted_components
        .iter()
        .find(|component| component.name == "minimal-cargo")
        .expect("minimal-cargo component should be impacted");
    assert_eq!(component.impact_kind, ImpactKind::Direct);
    assert_eq!(component.distance, Some(0));
    assert!(impact.recommended_commands.iter().any(|command| command.command == "cargo check"));
    assert!(impact_evidence_valid(&impact));
}

#[test]
fn impact_for_manifest_change_broadens_to_all_repo_commands() {
    let graph = minimal_cargo();
    let impact = analyze_impact(&graph, changed(&["Cargo.toml"]));
    assert_eq!(impact.status, ImpactStatus::Partial);
    assert_eq!(impact.impact_scope, ImpactScope::Broad);
    assert_eq!(impact.impacted_components.len(), graph.components.len());
    assert!(impact.impacted_components.iter().all(|component| component.impact_kind == ImpactKind::Broad));
    assert_eq!(impact.recommended_commands.len(), graph.commands.len());
    assert_eq!(impact.recommended_tests.len(), graph.tests.len());
}

#[test]
fn impact_for_test_file_recommends_test_command() {
    let graph = minimal_cargo();
    let impact = analyze_impact(&graph, changed(&["tests/smoke.rs"]));
    assert!(impact.recommended_tests.iter().any(|test| test.command == "cargo test" && !test.reason.is_empty()));
}

#[test]
fn impact_for_unknown_file_is_insufficient_evidence() {
    let graph = minimal_cargo();
    let impact = analyze_impact(&graph, changed(&["docs/unknown.md"]));
    assert_eq!(impact.status, ImpactStatus::InsufficientEvidence);
    assert_eq!(impact.impact_scope, ImpactScope::Unknown);
    assert_eq!(impact.confidence, ImpactConfidence::Insufficient);
    assert!(impact.warnings.iter().any(|warning| warning.category == DetectionCategory::UnmappedChange));
}

#[test]
fn impact_for_python_manifest_is_broad_and_conservative() {
    let graph = python_pytest_evidence();
    let impact = analyze_impact(&graph, changed(&["pyproject.toml"]));
    assert_eq!(impact.status, ImpactStatus::Partial);
    assert_eq!(impact.impact_scope, ImpactScope::Broad);
    assert!(impact
        .impacted_components
        .iter()
        .any(|component| component.name == "python-pytest-evidence" && component.impact_kind == ImpactKind::Broad));
    assert!(impact.recommended_tests.iter().any(|test| test.command == "pytest"));
}

#[test]
fn impact_for_python_ambiguous_test_file_does_not_guess_test_command() {
    let graph = python_tests_ambiguous();
    let impact = analyze_impact(&graph, changed(&["tests/test_example.py"]));
    assert_eq!(impact.status, ImpactStatus::Partial);
    assert!(impact.recommended_tests.is_empty());
    assert!(impact.warnings.iter().any(|warning| warning.category == DetectionCategory::AmbiguousDetection));
}

#[test]
fn impact_for_go_mod_is_broad_and_recommends_go_commands() {
    let graph = go_module_basic();
    let impact = analyze_impact(&graph, changed(&["go.mod"]));
    assert_eq!(impact.impact_scope, ImpactScope::Broad);
    assert!(impact.recommended_commands.iter().any(|command| command.command == "go test ./..."));
    assert!(impact.recommended_commands.iter().any(|command| command.command == "go build ./..."));
}

#[test]
fn impact_for_go_test_file_recommends_go_test() {
    let graph = go_module_with_tests();
    let impact = analyze_impact(&graph, changed(&["foo_test.go"]));
    assert_eq!(impact.status, ImpactStatus::Partial);
    assert!(impact.recommended_tests.iter().any(|test| test.command == "go test ./..."));
}

#[test]
fn impact_for_reverse_dependency_includes_transitive_dependents() {
    let root = table(vec![(
        "workspace",
        table(vec![("members", ConfigValue::List(vec![text("crates/a"), text("crates/b")]))]),
    )]);
    let crate_a = table(vec![
        ("package", table(vec![("name", text("a"))])),
        ("dependencies", table(vec![("b", table(vec![("path", text("../b"))]))])),
    ]);
    let graph = repo(
        "cargo-workspace-deps",
        vec![
            doc("Cargo.toml", root),
            dir("crates"),
            dir("crates/a"),
            doc("crates/a/Cargo.toml", crate_a),
            dir("crates/b"),
            doc("crates/b/Cargo.toml", package("b")),
            dir("crates/b/src"),
            file("crates/b/src/lib.rs"),
        ],
    );
    let impact = analyze_impact(&graph, changed(&["crates/b/src/lib.rs"]));
    assert!(graph.relationships.iter().any(|relationship| relationship.kind == RelationshipKind::DependsOn));
    let direct = impact
        .impacted_components
        .iter()
        .find(|component| component.name == "b")
        .expect("changed crate should be directly impacted");
    assert_eq!(direct.impact_kind, ImpactKind::Direct);
    let transitive = impact
        .impacted_components
        .iter()
        .find(|component| component.name == "a")
        .expect("dependent crate should be transitively impacted");
    assert_eq!(transitive.impact_kind, ImpactKind::Transitive);
    assert_eq!(transitive.distance, Some(1));
    assert!(transitive.evidence_ids.len() >= 2);
}

#[test]
fn impact_does_not_claim_transitive_without_dependency_edges() {
    let graph = minimal_cargo();
    let impact = analyze_impact(&graph, changed(&["src/lib.rs"]));
    assert!(!impact.impacted_components.iter().any(|component| component.impact_kind == ImpactKind::Transitive));
    assert!(impact.limitations.iter().any(|limitation| limitation.contains("No depends_on relationships")));
}

#[test]
fn impact_recommendations_include_rank_reason_confidence_and_evidence() {
    let graph = minimal_cargo();
    let impact = analyze_impact(&graph, changed(&["src/lib.rs"]));
    let command = impact
        .recommended_commands
        .iter()
        .find(|command| command.command == "cargo check")
        .expect("cargo check should be recommended");
    assert!(command.rank > 0);
    assert!(!command.reason.is_empty());
    assert_eq!(command.confidence, ImpactConfidence::Medium);
    assert!(!command.evidence_ids.is_empty());
}

#[test]
fn repeated_impact_output_has_stable_ordering() {
    let graph = minimal_cargo();
    let first = analyze_impact(&graph, changed(&["src/lib.rs", "Cargo.toml"]));
    let second = analyze_impact(&graph, changed(&["Cargo.toml", "src/lib.rs"]));
    assert_eq!(first.changed_files, second.changed_files);
    assert_eq!(first.impacted_components, second.impacted_components);
    assert_eq!(first.impacted_workspaces, second.impacted_workspaces);
    assert_eq!(first.recommended_commands, second.recommended_commands);
    assert_eq!(first.recommended_tests, second.recommended_tests);
    assert_eq!(first.warnings, second.warnings);
}

#[test]
fn impact_with_malformed_manifest_keeps_warning_and_does_not_panic() {
    let graph = malformed_manifest();
    let impact = analyze_impact(&graph, changed(&["package.json"]));
    assert_eq!(impact.contract_version, IMPACT_CONTRACT_VERSION);
    assert!(impact.warnings.iter().any(|warning| warning.category == DetectionCategory::MalformedManifest));
}

fn eval_case(name: &str, kind: EvalCaseKind, changed_files: Vec<String>, expect: EvalExpect) -> EvalCase {
    EvalCase { name: name.to_string(), fixture: "tests/fixtures/minimal-cargo".to_string(), kind, changed_files, expect }
}

#[test]
fn evaluator_reports_deliberate_false_narrow() {
    let case = eval_case(
        "deliberate_false_narrow",
        EvalCaseKind::Inspect,
        Vec::new(),
        EvalExpect { components_contains: vec!["missing-component".to_string()], ..EvalExpect::default() },
    );
    let graph = minimal_cargo();
    let runs = vec![CaseRun { output: CaseOutput::Inspect { graph }, deterministic: true }];
    let report = evaluate_cases(vec![case], runs);
    assert_eq!(report.failed_cases, 1);
    assert_eq!(report.counters.false_narrow_count, 1);
    assert!(report.failures.iter().any(|failure| failure.category == "false_narrow"));
}

#[test]
fn evaluator_reports_deliberate_false_broad() {
    let case = eval_case(
        "deliberate_false_broad",
        EvalCaseKind::Impact,
        vec!["Cargo.toml".to_string()],
        EvalExpect { max_impacted_components: Some(0), ..EvalExpect::default() },
    );
    let graph = minimal_cargo();
    let report_for_case = analyze_impact(&graph, vec!["Cargo.toml".to_string()]);
    let runs = vec![CaseRun { output: CaseOutput::Impact { report: report_for_case }, deterministic: true }];
    let report = evaluate_cases(vec![case], runs);
    assert_eq!(report.failed_cases, 1);
    assert_eq!(report.counters.false_broad_count, 1);
    assert!(report.failures.iter().any(|failure| failure.category == "false_broad"));
}

#[test]
fn inspection_contract_version_is_current() {
    assert_eq!(minimal_cargo().contract_version, INSPECT_CONTRACT_VERSION);
}

#[test]
fn impact_distances_follow_the_shortest_dependency_path() {
    let root = table(vec![(
        "workspace",
        table(vec![("members", ConfigValue::List(vec![text("crates/a"), text("crates/b"), text("crates/c"), text("crates/d")]))]),
    )]);
    let with_deps = |name: &str, deps: Vec<&str>| {
        let deps = deps.into_iter().map(|d| (d, table(vec![("path", text(&format!("../{d}")))]))).collect::<Vec<_>>();
        table(vec![("package", table(vec![("name", text(name))])), ("dependencies", table(deps))])
    };
    let graph = repo(
        "diamond",
        vec![
            doc("Cargo.toml", root),
            doc("crates/a/Cargo.toml", with_deps("a", vec!["b", "c"])),
            doc("crates/b/Cargo.toml", with_deps("b", vec!["c"])),
            doc("crates/c/Cargo.toml", with_deps("c", vec![])),
            doc("crates/d/Cargo.toml", with_deps("d", vec!["a"])),
        ],
    );
    let impact = analyze_impact(&graph, changed(&["crates/c/src/lib.rs"]));
    let distance = |name: &str| {
        impact.impacted_components.iter().find(|c| c.name == name).map(|c| (c.impact_kind, c.distance))
    };
    assert_eq!(distance("c"), Some((ImpactKind::Direct, Some(0))));
    assert_eq!(distance("b"), Some((ImpactKind::Transitive, Some(1))));
    assert_eq!(distance("a"), Some((ImpactKind::Transitive, Some(1))));
    assert_eq!(distance("d"), Some((ImpactKind::Transitive, Some(2))));
    assert!(impact_evidence_valid(&impact));
}
