use code_intel_kernel::evaluation::checks::{impact_evidence_valid, inspect_evidence_valid};
use code_intel_kernel::repo_graph::config::ConfigValue;
use code_intel_kernel::repo_graph::impact::analyze_impact;
use code_intel_kernel::repo_graph::inspect::inspect_snapshot;
use code_intel_kernel::repo_graph::snapshot::{FileText, ParsedDocument, RepoSnapshot, SnapshotEntry};
use code_intel_kernel::repo_graph::types::{
    DetectionCategory, ImpactConfidence, ImpactKind, ImpactScope, ImpactStatus, RepoInspection,
};
use code_intel_kernel::source_evidence::bundle::build_source_evidence_bundle_from_graphs;
use code_intel_kernel::source_evidence::{
    source_evidence_bundle_evidence_valid, BundleConfidence, BundleStatus, BundleWarningCategory, RepoContextRole,
};
use code_intel_kernel::symbol_graph::builder::SymbolGraphBuilder;
use code_intel_kernel::symbol_graph::SymbolKind;

fn entry(path: &str, is_dir: bool, text: FileText, document: ParsedDocument) -> SnapshotEntry {
    SnapshotEntry { path: path.to_string(), is_dir, text, document }
}

fn cargo_snapshot() -> RepoSnapshot {
    let manifest = ConfigValue::Table(vec![(
        "package".to_string(),
        ConfigValue::Table(vec![("name".to_string(), ConfigValue::Text("demo".to_string()))]),
    )]);
    RepoSnapshot {
        root: "demo".to_string(),
        entries: vec![
            entry("Cargo.toml", false, FileText::NotRead, ParsedDocument::Parsed(manifest)),
            entry("src", true, FileText::NotRead, ParsedDocument::NotParsed),
            entry("src/lib.rs", false, FileText::NotRead, ParsedDocument::NotParsed),
        ],
    }
}

fn cargo_repo() -> RepoInspection {
    inspect_snapshot(&cargo_snapshot())
}

#[test]
fn cargo_manifest_gives_package_commands_and_tests_with_evidence() {
    let graph = cargo_repo();
    assert!(graph.repo.read_only);
    assert_eq!(graph.repo.root, "demo");
    assert_eq!(graph.components.iter().map(|c| c.name.as_str()).collect::<Vec<_>>(), vec!["lib", "demo"]);
    let commands: Vec<&str> = graph.commands.iter().map(|c| c.command.as_str()).collect();
    for expected in ["cargo check", "cargo test", "cargo build", "cargo clippy -- -D warnings", "cargo fmt --check"] {
        assert!(commands.contains(&expected), "missing {expected}");
    }
    assert!(graph.tests.iter().any(|t| t.command == "cargo test"));
    assert!(inspect_evidence_valid(&graph));
    assert!(graph.evidence.iter().all(|e| !e.id.is_empty()));
}

#[test]
fn repeated_inspection_is_equal() {
    assert_eq!(cargo_repo(), cargo_repo());
}

#[test]
fn a_malformed_manifest_is_a_structured_warning() {
    let snapshot = RepoSnapshot {
        root: "bad".to_string(),
        entries: vec![entry(
            "Cargo.toml",
            false,
            FileText::NotRead,
            ParsedDocument::Malformed("Failed to parse Cargo.toml: expected `=`".to_string()),
        )],
    };
    let graph = inspect_snapshot(&snapshot);
    assert!(graph.components.is_empty());
    assert!(graph.warnings.iter().any(|w| w.category == DetectionCategory::MalformedManifest && w.evidence_id.is_some()));
    assert!(inspect_evidence_valid(&graph));
}

#[test]
fn an_empty_repository_warns_that_no_manifest_is_supported() {
    let graph = inspect_snapshot(&RepoSnapshot { root: "empty".to_string(), entries: Vec::new() });
    assert!(graph.components.is_empty());
    assert!(graph.warnings.iter().any(|w| w.category == DetectionCategory::NoSupportedManifests));
}

#[test]
fn impact_of_an_unknown_file_is_insufficient_evidence() {
    let graph = cargo_repo();
    let report = analyze_impact(&graph, vec!["docs/notes.txt".to_string()]);
    assert_eq!(report.status, ImpactStatus::InsufficientEvidence);
    assert!(report.impacted_components.is_empty());
    assert!(report.warnings.iter().any(|w| w.category == DetectionCategory::UnmappedChange));
    assert!(impact_evidence_valid(&report));
}

#[test]
fn impact_of_a_source_file_is_direct_and_recommends_tests() {
    let graph = cargo_repo();
    let report = analyze_impact(&graph, vec!["./src/lib.rs".to_string()]);
    assert_eq!(report.changed_files, vec!["src/lib.rs".to_string()]);
    assert_eq!(report.status, ImpactStatus::Partial);
    assert_eq!(report.impacted_components.len(), 2);
    assert!(report.impacted_components.iter().all(|c| c.impact_kind == ImpactKind::Direct && c.distance == Some(0)));
    assert_eq!(report.impact_scope, ImpactScope::Targeted);
    assert!(report.recommended_tests.iter().any(|t| t.command == "cargo test"));
    assert!(report.recommended_commands.iter().any(|c| c.command == "cargo check"));
    assert!(impact_evidence_valid(&report));
    assert_ne!(report.confidence, ImpactConfidence::Insufficient);
}

#[test]
fn impact_of_the_manifest_is_broad() {
    let graph = cargo_repo();
    let report = analyze_impact(&graph, vec!["Cargo.toml".to_string()]);
    assert_eq!(report.impacted_components.len(), 2);
    assert!(report.impacted_components.iter().all(|c| c.impact_kind == ImpactKind::Broad && c.distance.is_none()));
    assert_eq!(report.impact_scope, ImpactScope::Broad);
    assert_eq!(report.evidence, graph.evidence);
    assert!(impact_evidence_valid(&report));
    let ranks: Vec<u32> = report.recommended_commands.iter().map(|c| c.rank).collect();
    let mut sorted = ranks.clone();
    sorted.sort();
    assert_eq!(ranks, sorted);
}

#[test]
fn repeated_impact_is_equal() {
    let graph = cargo_repo();
    assert_eq!(analyze_impact(&graph, vec!["src/lib.rs".to_string()]), analyze_impact(&graph, vec!["src/lib.rs".to_string()]));
}

const BASIC_LIB: &str = "pub fn top_level_function() {}

pub struct Widget {
    value: i32,
}

pub enum Mode {
    Fast,
    Slow,
}

pub trait Runner {
    fn run(&self);
}

pub type WidgetId = u64;

pub const DEFAULT_LIMIT: usize = 10;

pub static GLOBAL_LIMIT: usize = DEFAULT_LIMIT;

pub mod nested {
    pub fn child() {}
}

impl Widget {
    pub fn new(value: i32) -> Self {
        fn nested_helper(value: i32) -> i32 {
            value
        }

        Self {
            value: nested_helper(value),
        }
    }
}
";

#[test]
fn an_exact_symbol_query_gives_an_evidence_backed_candidate() {
    let graph = cargo_repo();
    let mut symbols = SymbolGraphBuilder::new("demo".to_string());
    symbols.inspect_rust_source("src/lib.rs", Some(BASIC_LIB.to_string()));
    let symbols = symbols.finish();
    let bundle = build_source_evidence_bundle_from_graphs(&graph, &symbols, "top_level_function");
    assert_eq!(bundle.status, BundleStatus::Partial);
    assert_eq!(bundle.confidence, BundleConfidence::High);
    assert!(bundle.candidate_symbols.iter().any(|s| s.name == "top_level_function"
        && s.kind == SymbolKind::Function
        && !s.evidence_ids.is_empty()));
    assert!(bundle.candidate_files.iter().any(|f| f.path == "src/lib.rs" && !f.evidence_ids.is_empty()));
    assert!(source_evidence_bundle_evidence_valid(&bundle));
    assert!(bundle.repo_context.iter().any(|c| c.role == RepoContextRole::ContainingComponent));
    assert!(bundle.refusal_reason.as_deref().is_some_and(|r| r.contains("localization_not_supported")));
}

#[test]
fn a_query_matching_nothing_is_refused() {
    let graph = cargo_repo();
    let mut symbols = SymbolGraphBuilder::new("demo".to_string());
    symbols.inspect_rust_source("src/lib.rs", Some(BASIC_LIB.to_string()));
    let bundle = build_source_evidence_bundle_from_graphs(&graph, &symbols.finish(), "no_such_symbol_zz");
    assert_eq!(bundle.status, BundleStatus::InsufficientEvidence);
    assert_eq!(bundle.confidence, BundleConfidence::Insufficient);
    assert!(bundle.candidate_files.is_empty());
    assert!(bundle.candidate_symbols.is_empty());
    assert!(bundle.warnings.iter().any(|w| w.category == BundleWarningCategory::NoMatchingSourceSymbols));
    assert!(bundle.refusal_reason.as_deref().is_some_and(|r| r.contains("no_source_match")));
    assert!(source_evidence_bundle_evidence_valid(&bundle));
}

#[test]
fn source_evidence_ambiguous_query_returns_partial_with_warning() {
    let graph = cargo_repo();
    let mut symbols = SymbolGraphBuilder::new("demo".to_string());
    symbols.inspect_rust_source("src/lib.rs", Some(BASIC_LIB.to_string()));
    let bundle = build_source_evidence_bundle_from_graphs(&graph, &symbols.finish(), "widget");
    assert_eq!(bundle.status, BundleStatus::Partial);
    assert!(bundle.candidate_symbols.len() > 1);
    assert!(bundle.warnings.iter().any(|w| w.category == BundleWarningCategory::MultipleCandidates));
}

fn table(items: Vec<(&str, ConfigValue)>) -> ConfigValue {
    ConfigValue::Table(items.into_iter().map(|(k, v)| (k.to_string(), v)).collect())
}

fn text(s: &str) -> ConfigValue {
    ConfigValue::Text(s.to_string())
}

fn file(path: &str) -> SnapshotEntry {
    entry(path, false, FileText::NotRead, ParsedDocument::NotParsed)
}

fn commands_of(graph: &RepoInspection) -> Vec<String> {
    graph.commands.iter().map(|c| c.command.clone()).collect()
}

#[test]
fn node_manifest_scripts_become_commands() {
    let manifest = table(vec![
        ("name", text("web")),
        ("scripts", table(vec![("test", text("jest")), ("build", text("tsc")), ("lint", ConfigValue::Other)])),
        ("workspaces", ConfigValue::List(vec![text("packages/*")])),
    ]);
    let snapshot = RepoSnapshot {
        root: "web".to_string(),
        entries: vec![entry("package.json", false, FileText::NotRead, ParsedDocument::Parsed(manifest)), file("yarn.lock")],
    };
    let graph = inspect_snapshot(&snapshot);
    let commands = commands_of(&graph);
    assert!(commands.contains(&"npm run test".to_string()));
    assert!(commands.contains(&"npm run build".to_string()));
    assert!(!commands.contains(&"npm run lint".to_string()));
    assert!(graph.tests.iter().any(|t| t.command == "npm run test"));
    assert!(graph.components.iter().any(|c| c.id == "component-node-package" && c.name == "web"));
    assert!(graph.workspaces.iter().any(|w| w.id == "workspace-node" && w.members == vec!["packages/*".to_string()]));
    assert!(graph.package_managers.iter().any(|p| p.name == "yarn"));
    assert!(!graph.warnings.iter().any(|w| w.category == DetectionCategory::AmbiguousDetection));
    assert!(inspect_evidence_valid(&graph));
}

#[test]
fn node_manifest_without_lockfile_or_scripts_warns() {
    let snapshot = RepoSnapshot {
        root: "web".to_string(),
        entries: vec![entry("package.json", false, FileText::NotRead, ParsedDocument::Parsed(table(vec![])))],
    };
    let graph = inspect_snapshot(&snapshot);
    assert!(graph.warnings.iter().any(|w| w.category == DetectionCategory::AmbiguousDetection));
    assert!(graph.warnings.iter().any(|w| w.category == DetectionCategory::MissingCommand
        && w.message == "package.json does not define scripts; no Node commands were inferred."));
    assert!(graph.commands.is_empty());
}

#[test]
fn python_project_with_pytest_config_gets_pytest() {
    let manifest = table(vec![
        ("project", table(vec![("name", text("svc"))])),
        ("tool", table(vec![("pytest", table(vec![]))])),
    ]);
    let snapshot = RepoSnapshot {
        root: "py".to_string(),
        entries: vec![
            entry("pyproject.toml", false, FileText::NotRead, ParsedDocument::Parsed(manifest)),
            entry("tests", true, FileText::NotRead, ParsedDocument::NotParsed),
            file("uv.lock"),
        ],
    };
    let graph = inspect_snapshot(&snapshot);
    assert!(commands_of(&graph).contains(&"pytest".to_string()));
    assert!(graph.tests.iter().any(|t| t.command == "pytest"));
    assert!(graph.components.iter().any(|c| c.id == "component-python-project" && c.name == "svc"));
    assert!(graph.package_managers.iter().any(|p| p.name == "uv"));
    assert!(graph.detected_files.iter().any(|f| f.path == "tests"));
    assert!(inspect_evidence_valid(&graph));
}

#[test]
fn python_tests_without_pytest_evidence_is_ambiguous() {
    let snapshot = RepoSnapshot {
        root: "py".to_string(),
        entries: vec![
            entry("requirements.txt", false, FileText::Text("requests\n".to_string()), ParsedDocument::NotParsed),
            entry("tests", true, FileText::NotRead, ParsedDocument::NotParsed),
        ],
    };
    let graph = inspect_snapshot(&snapshot);
    assert!(graph.commands.is_empty());
    assert!(graph.warnings.iter().any(|w| w.category == DetectionCategory::AmbiguousDetection && w.path.as_deref() == Some("tests")));
}

#[test]
fn go_module_gets_go_commands() {
    let snapshot = RepoSnapshot {
        root: "go".to_string(),
        entries: vec![
            entry("go.mod", false, FileText::Text("module example.com/app\n\ngo 1.22\n".to_string()), ParsedDocument::NotParsed),
            file("app_test.go"),
        ],
    };
    let graph = inspect_snapshot(&snapshot);
    let commands = commands_of(&graph);
    assert!(commands.contains(&"go test ./...".to_string()));
    assert!(commands.contains(&"go build ./...".to_string()));
    assert!(graph.components.iter().any(|c| c.id == "component-go-module" && c.name == "example.com/app"));
    assert!(graph.detected_files.iter().any(|f| f.path == "app_test.go"));
    assert!(inspect_evidence_valid(&graph));
}

#[test]
fn go_module_without_declaration_is_malformed() {
    let snapshot = RepoSnapshot {
        root: "go".to_string(),
        entries: vec![entry("go.mod", false, FileText::Text("go 1.22\n".to_string()), ParsedDocument::NotParsed)],
    };
    let graph = inspect_snapshot(&snapshot);
    assert!(graph.commands.is_empty());
    assert!(graph.warnings.iter().any(|w| w.category == DetectionCategory::MalformedManifest && w.path.as_deref() == Some("go.mod")));
}

#[test]
fn makefile_targets_become_make_commands() {
    let snapshot = RepoSnapshot {
        root: "mk".to_string(),
        entries: vec![
            entry("Makefile", false, FileText::Text("build:\n\tcc main.c\ntest: build\n\t./run\n".to_string()), ParsedDocument::NotParsed),
            file("Dockerfile"),
            file(".github/workflows/ci.yml"),
        ],
    };
    let graph = inspect_snapshot(&snapshot);
    let commands = commands_of(&graph);
    assert!(commands.contains(&"make build".to_string()));
    assert!(commands.contains(&"make test".to_string()));
    assert!(graph.tests.iter().any(|t| t.command == "make test"));
    assert!(graph.package_managers.iter().any(|p| p.name == "docker"));
    assert!(graph.package_managers.iter().any(|p| p.name == "github_actions"));
    assert!(graph.detected_files.iter().any(|f| f.path == ".github/workflows/ci.yml"));
    assert!(inspect_evidence_valid(&graph));
}

#[test]
fn cargo_workspace_members_become_crates() {
    let root = table(vec![("workspace", table(vec![("members", ConfigValue::List(vec![text("core"), text("missing")]))]))]);
    let core = table(vec![("package", table(vec![("name", text("core-lib"))]))]);
    let snapshot = RepoSnapshot {
        root: "ws".to_string(),
        entries: vec![
            entry("Cargo.toml", false, FileText::NotRead, ParsedDocument::Parsed(root)),
            entry("core", true, FileText::NotRead, ParsedDocument::NotParsed),
            entry("core/Cargo.toml", false, FileText::NotRead, ParsedDocument::Parsed(core)),
        ],
    };
    let graph = inspect_snapshot(&snapshot);
    assert!(graph.workspaces.iter().any(|w| w.id == "workspace-cargo"
        && w.members == vec!["core".to_string(), "missing".to_string()]));
    assert!(graph.components.iter().any(|c| c.id == "component-rust-crate-core-lib" && c.name == "core-lib"));
    assert!(graph.warnings.iter().any(|w| w.category == DetectionCategory::UnsupportedPattern
        && w.path.as_deref() == Some("missing/Cargo.toml")));
    assert!(inspect_evidence_valid(&graph));
}

#[test]
fn present_ignored_directories_are_reported() {
    let snapshot = RepoSnapshot {
        root: "r".to_string(),
        entries: vec![entry("node_modules", true, FileText::NotRead, ParsedDocument::NotParsed), file("Cargo.lock")],
    };
    let graph = inspect_snapshot(&snapshot);
    assert!(graph.warnings.iter().any(|w| w.category == DetectionCategory::IgnoredPath && w.path.as_deref() == Some("node_modules")));
    assert!(!graph.warnings.iter().any(|w| w.category == DetectionCategory::NoSupportedManifests));
}

#[test]
fn source_evidence_output_is_deterministic() {
    let build = || {
        let mut symbols = SymbolGraphBuilder::new("demo".to_string());
        symbols.inspect_rust_source("src/lib.rs", Some(BASIC_LIB.to_string()));
        build_source_evidence_bundle_from_graphs(&cargo_repo(), &symbols.finish(), "widget")
    };
    assert_eq!(build(), build());
}

#[test]
fn source_evidence_malformed_source_warns_without_panic() {
    let graph = inspect_snapshot(&RepoSnapshot { root: "malformed".to_string(), entries: Vec::new() });
    let mut symbols = SymbolGraphBuilder::new("malformed".to_string());
    symbols.inspect_rust_source("src/lib.rs", Some("pub fn broken( {\n".to_string()));
    let bundle = build_source_evidence_bundle_from_graphs(&graph, &symbols.finish(), "broken");
    assert_eq!(bundle.status, BundleStatus::InsufficientEvidence);
    assert!(bundle.warnings.iter().any(|w| w.category == BundleWarningCategory::ParseErrorPresent));
    assert!(source_evidence_bundle_evidence_valid(&bundle));
}

#[test]
fn source_evidence_ignored_directories_do_not_produce_candidates() {
    let graph = inspect_snapshot(&RepoSnapshot { root: "ignored".to_string(), entries: Vec::new() });
    let mut symbols = SymbolGraphBuilder::new("ignored".to_string());
    let sources = [
        ("src/lib.rs", "pub fn visible() {}\n"),
        ("target/debug/build/gen.rs", "pub fn ignored_target_symbol() {}\n"),
        ("node_modules/pkg/lib.rs", "pub fn ignored_node_symbol() {}\n"),
    ];
    for (path, text) in sources {
        if !path.split('/').any(code_intel_kernel::symbol_graph::is_ignored_dir_name) {
            symbols.inspect_rust_source(path, Some(text.to_string()));
        }
    }
    let bundle = build_source_evidence_bundle_from_graphs(&graph, &symbols.finish(), "ignored_target_symbol");
    assert_eq!(bundle.status, BundleStatus::InsufficientEvidence);
    assert!(!bundle.candidate_files.iter().any(|f| f.path.contains("target/") || f.path.contains("node_modules/")));
    assert!(!bundle.candidate_symbols.iter().any(|s| s.name == "ignored_target_symbol"));
}
