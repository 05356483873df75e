use code_intel_kernel::lsp_bridge::session::{parse_lsp_range, RawRange};
use code_intel_kernel::repo_graph::config::ConfigValue;
use code_intel_kernel::repo_graph::impact::analyze_impact;
use code_intel_kernel::repo_graph::inspect::inspect_snapshot;
use code_intel_kernel::repo_graph::snapshot::{FileText, ParsedDocument, RepoSnapshot, SnapshotEntry};
use code_intel_kernel::repo_graph::types::{DetectionCategory, ImpactKind, ImpactScope, RepoInspection};
use code_intel_kernel::source_evidence::bundle::build_source_evidence_bundle_from_graphs;
use code_intel_kernel::source_evidence::{
    BundleStatus, BundleWarningCategory, RepoContextRole, MAX_CANDIDATE_SYMBOLS,
};
use code_intel_kernel::symbol_graph::builder::SymbolGraphBuilder;

fn entry(path: &str, is_dir: bool, text: FileText, document: ParsedDocument) -> SnapshotEntry {
    SnapshotEntry { path: path.to_string(), is_dir, text, document }
}

fn table(items: Vec<(&str, ConfigValue)>) -> ConfigValue {
    ConfigValue::Table(items.into_iter().map(|(k, v)| (k.to_string(), v)).collect())
}

fn text(s: &str) -> ConfigValue {
    ConfigValue::Text(s.to_string())
}

fn plain(path: &str) -> SnapshotEntry {
    entry(path, false, FileText::NotRead, ParsedDocument::NotParsed)
}

/// The evidence item that a warning of the category cites, as (path, kind, reason).
fn cited(graph: &RepoInspection, category: DetectionCategory) -> (String, String, String) {
    let warning = graph.warnings.iter().find(|w| w.category == category).expect("warning of the category");
    let id = warning.evidence_id.as_ref().expect("evidence for the warning");
    let ev = graph.evidence.iter().find(|e| &e.id == id).expect("cited evidence is present");
    (ev.path.clone(), ev.kind.clone(), ev.reason.clone())
}

fn demo_graph() -> RepoInspection {
    let manifest = table(vec![("package", table(vec![("name", text("demo"))]))]);
    inspect_snapshot(&RepoSnapshot {
        root: "demo".to_string(),
        entries: vec![
            entry("Cargo.toml", false, FileText::NotRead, ParsedDocument::Parsed(manifest)),
            entry("src", true, FileText::NotRead, ParsedDocument::NotParsed),
            plain("src/lib.rs"),
        ],
    })
}

#[test]
fn a_broad_query_on_built_graphs_is_truncated_and_warned() {
    let mut source = String::new();
    for i in 0..20 {
        source.push_str(&format!("pub fn repo_item_{i}() {{}}\n"));
    }
    let mut symbols = SymbolGraphBuilder::new("demo".to_string());
    symbols.inspect_rust_source("src/lib.rs", Some(source));
    let bundle = build_source_evidence_bundle_from_graphs(&demo_graph(), &symbols.finish(), "repo");
    assert_eq!(bundle.status, BundleStatus::Partial);
    assert_eq!(bundle.candidate_symbols.len(), MAX_CANDIDATE_SYMBOLS);
    assert!(bundle.candidate_files.len() <= 8);
    assert!(bundle.repo_context.len() <= 12);
    assert!(bundle.warnings.iter().any(|w| w.category == BundleWarningCategory::CandidateLimitExceeded));
}

#[test]
fn a_matched_file_gets_its_containing_component_as_context() {
    let mut symbols = SymbolGraphBuilder::new("demo".to_string());
    symbols.inspect_rust_source("src/lib.rs", Some("pub fn only_here() {}\n".to_string()));
    let bundle = build_source_evidence_bundle_from_graphs(&demo_graph(), &symbols.finish(), "only_here");
    assert!(bundle
        .repo_context
        .iter()
        .any(|c| c.role == RepoContextRole::ContainingComponent && c.id == "component-rust-lib"));
    assert!(bundle.repo_context.iter().any(|c| c.role == RepoContextRole::ImpactContext));
}

#[test]
fn a_line_at_the_largest_number_wraps_to_zero() {
    let range = parse_lsp_range(&RawRange {
        start_line: Some(u64::MAX),
        start_character: Some(2),
        end_line: None,
        end_character: None,
    });
    if usize::BITS == 64 {
        assert_eq!(range.start_line, 0);
    }
    assert_eq!(range.start_character, 2);
    assert_eq!(range.end_line, 1);
    assert_eq!(range.end_character, 0);
}

#[test]
fn a_malformed_package_json_warning_cites_the_manifest() {
    let graph = inspect_snapshot(&RepoSnapshot {
        root: "node".to_string(),
        entries: vec![
            entry("package.json", false, FileText::NotRead, ParsedDocument::Malformed("Failed to parse package.json".to_string())),
            plain("package-lock.json"),
        ],
    });
    assert_eq!(
        cited(&graph, DetectionCategory::MalformedManifest),
        ("package.json".to_string(), "manifest".to_string(), "Node package manifest detected.".to_string())
    );
    assert!(graph.components.is_empty());
    assert!(graph.commands.is_empty());
}

#[test]
fn a_test_script_leaves_no_missing_command_warning() {
    let manifest = table(vec![("name", text("web")), ("scripts", table(vec![("test", text("jest"))]))]);
    let graph = inspect_snapshot(&RepoSnapshot {
        root: "node".to_string(),
        entries: vec![entry("package.json", false, FileText::NotRead, ParsedDocument::Parsed(manifest)), plain("package-lock.json")],
    });
    assert!(graph.commands.iter().any(|c| c.command == "npm run test"));
    assert!(!graph.warnings.iter().any(|w| w.category == DetectionCategory::MissingCommand));
    assert!(!graph.warnings.iter().any(|w| w.category == DetectionCategory::AmbiguousDetection));
}

#[test]
fn pytest_ini_backs_the_pytest_test_target() {
    let graph = inspect_snapshot(&RepoSnapshot {
        root: "py".to_string(),
        entries: vec![plain("requirements.txt"), plain("pytest.ini"), entry("tests", true, FileText::NotRead, ParsedDocument::NotParsed)],
    });
    let test = graph.tests.iter().find(|t| t.command == "pytest").expect("pytest test target");
    let ev = graph.evidence.iter().find(|e| e.id == test.evidence_id).expect("cited evidence");
    assert_eq!((ev.path.as_str(), ev.kind.as_str()), ("pytest.ini", "test_config"));
    assert!(!graph.warnings.iter().any(|w| w.category == DetectionCategory::AmbiguousDetection
        || w.category == DetectionCategory::MissingCommand));
}

#[test]
fn a_missing_workspace_member_warning_cites_the_members_field() {
    let root = table(vec![("workspace", table(vec![("members", ConfigValue::List(vec![text("gone")]))]))]);
    let graph = inspect_snapshot(&RepoSnapshot {
        root: "ws".to_string(),
        entries: vec![entry("Cargo.toml", false, FileText::NotRead, ParsedDocument::Parsed(root))],
    });
    let warning = graph
        .warnings
        .iter()
        .find(|w| w.category == DetectionCategory::UnsupportedPattern && w.path.as_deref() == Some("gone/Cargo.toml"))
        .expect("warning for the missing member");
    let id = warning.evidence_id.as_ref().expect("evidence for the warning");
    let ev = graph.evidence.iter().find(|e| &e.id == id).expect("cited evidence");
    assert_eq!(ev.field.as_deref(), Some("workspace.members"));
    assert_eq!(ev.reason, "Cargo workspace members.");
}

#[test]
fn a_manifest_change_keeps_dependents_broad() {
    let root = table(vec![("workspace", table(vec![("members", ConfigValue::List(vec![text("app"), text("core")]))]))]);
    let core = table(vec![("package", table(vec![("name", text("core-lib"))]))]);
    let app = table(vec![
        ("package", table(vec![("name", text("app"))])),
        ("dependencies", table(vec![("core-lib", table(vec![("path", text("../core"))]))])),
    ]);
    let graph = inspect_snapshot(&RepoSnapshot {
        root: "ws".to_string(),
        entries: vec![
            entry("Cargo.toml", false, FileText::NotRead, ParsedDocument::Parsed(root)),
            entry("app", true, FileText::NotRead, ParsedDocument::NotParsed),
            entry("app/Cargo.toml", false, FileText::NotRead, ParsedDocument::Parsed(app)),
            entry("core", true, FileText::NotRead, ParsedDocument::NotParsed),
            entry("core/Cargo.toml", false, FileText::NotRead, ParsedDocument::Parsed(core)),
        ],
    });
    assert!(graph.relationships.iter().any(|r| r.src_id == "component-rust-crate-app"
        && r.dst_id == "component-rust-crate-core-lib"));
    let report = analyze_impact(&graph, vec!["Cargo.toml".to_string()]);
    assert_eq!(report.impact_scope, ImpactScope::Broad);
    assert_eq!(report.impacted_components.len(), graph.components.len());
    assert!(report.impacted_components.iter().all(|c| c.impact_kind == ImpactKind::Broad && c.distance.is_none()));
}

/// The evidence item that an item cites, as (path, kind, field, reason).
fn described(graph: &RepoInspection, evidence_id: &str) -> (String, String, Option<String>, String) {
    let ev = graph.evidence.iter().find(|e| e.id == evidence_id).expect("cited evidence is present");
    (ev.path.clone(), ev.kind.clone(), ev.field.clone(), ev.reason.clone())
}

#[test]
fn node_script_commands_cite_their_script_fields() {
    let manifest = table(vec![
        ("name", text("web")),
        ("scripts", table(vec![("test", text("jest")), ("build", text("tsc"))])),
    ]);
    let graph = inspect_snapshot(&RepoSnapshot {
        root: "node".to_string(),
        entries: vec![entry("package.json", false, FileText::NotRead, ParsedDocument::Parsed(manifest)), plain("package-lock.json")],
    });
    let build = graph.commands.iter().find(|c| c.command == "npm run build").expect("build command");
    assert_eq!(
        described(&graph, &build.evidence_id),
        ("package.json".to_string(), "manifest".to_string(), Some("scripts.build".to_string()), "Node package script detected.".to_string())
    );
    let test = graph.tests.iter().find(|t| t.command == "npm run test").expect("test target");
    assert_eq!(described(&graph, &test.evidence_id).2, Some("scripts.test".to_string()));
    let component = graph.components.iter().find(|c| c.id == "component-node-package").expect("package component");
    assert_eq!(described(&graph, &component.evidence_id).2, Some("name".to_string()));
}

#[test]
fn cargo_commands_cite_the_manifest() {
    let graph = demo_graph();
    for command in &graph.commands {
        assert_eq!(
            described(&graph, &command.evidence_id),
            ("Cargo.toml".to_string(), "manifest".to_string(), None, "Rust Cargo manifest detected.".to_string())
        );
    }
    let package = graph.components.iter().find(|c| c.id == "component-rust-package").expect("package component");
    assert_eq!(described(&graph, &package.evidence_id).2, Some("package.name".to_string()));
}

#[test]
fn make_targets_cite_their_lines() {
    let graph = inspect_snapshot(&RepoSnapshot {
        root: "mk".to_string(),
        entries: vec![entry("Makefile", false, FileText::Text("test:\n\t./run\n".to_string()), ParsedDocument::NotParsed)],
    });
    let test = graph.commands.iter().find(|c| c.command == "make test").expect("make test");
    assert_eq!(
        described(&graph, &test.evidence_id),
        ("Makefile".to_string(), "build_target".to_string(), Some("target.test".to_string()), "Build file target detected.".to_string())
    );
}
