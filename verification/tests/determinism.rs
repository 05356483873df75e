use code_intel_kernel::repo_graph::impact::analyze_impact;
use code_intel_kernel::repo_graph::inspect::inspect_snapshot;
use code_intel_kernel::repo_graph::manifest_parse::parsed_document;
use code_intel_kernel::repo_graph::snapshot::{DocumentFormat, FileText, ParsedDocument, RepoSnapshot, SnapshotEntry};
use code_intel_kernel::repo_graph::types::RepoInspection;
use code_intel_kernel::source_context::report::build_source_context_report_from_symbols;
use code_intel_kernel::source_context::{SourceContextStatus, SourceContextWarningCategory};
use code_intel_kernel::source_evidence::bundle::build_source_evidence_bundle_from_graphs;
use code_intel_kernel::symbol_graph::builder::SymbolGraphBuilder;

fn snapshot() -> RepoSnapshot {
    let cargo = parsed_document(DocumentFormat::Toml, Ok("[package]\nname = \"twice\"\n".to_string()));
    let node = parsed_document(DocumentFormat::Json, Ok("{\"name\": \"web\", \"scripts\": {\"test\": \"jest\", \"lint\": \"eslint\"}}".to_string()));
    RepoSnapshot {
        root: "/work/twice".to_string(),
        entries: vec![
            SnapshotEntry { path: "Cargo.toml".to_string(), is_dir: false, text: FileText::NotRead, document: cargo },
            SnapshotEntry {
                path: "Makefile".to_string(),
                is_dir: false,
                text: FileText::Text("test:\n\tcargo test\nbuild:\n\tcargo build\n".to_string()),
                document: ParsedDocument::NotParsed,
            },
            SnapshotEntry { path: "package.json".to_string(), is_dir: false, text: FileText::NotRead, document: node },
            SnapshotEntry { path: "src".to_string(), is_dir: true, text: FileText::NotRead, document: ParsedDocument::NotParsed },
            SnapshotEntry { path: "src/lib.rs".to_string(), is_dir: false, text: FileText::NotRead, document: ParsedDocument::NotParsed },
        ],
    }
}

fn summary(g: &RepoInspection) -> (Vec<(String, String, String)>, Vec<(String, String)>, Vec<String>) {
    (
        g.components.iter().map(|c| (c.id.clone(), c.name.clone(), c.kind.clone())).collect(),
        g.commands.iter().map(|c| (c.id.clone(), c.command.clone())).collect(),
        g.tests.iter().map(|t| t.command.clone()).collect(),
    )
}

#[test]
fn inspecting_the_same_snapshot_twice_gives_the_same_facts() {
    let first = inspect_snapshot(&snapshot());
    let second = inspect_snapshot(&snapshot());
    assert_eq!(summary(&first), summary(&second));
    assert!(first.components.iter().any(|c| c.id == "component-rust-package" && c.name == "twice"));
    assert!(first.components.iter().any(|c| c.id == "component-make-project" && c.kind == "generic_make_project"));
    assert!(first.commands.iter().any(|c| c.command == "npm run lint"));
    assert!(first.commands.iter().any(|c| c.command == "make test"));
}

#[test]
fn changes_with_the_same_normalized_paths_give_the_same_changed_files() {
    let graph = inspect_snapshot(&snapshot());
    let a = analyze_impact(&graph, vec!["./src/lib.rs".to_string(), "Cargo.toml".to_string()]);
    let b = analyze_impact(&graph, vec!["Cargo.toml".to_string(), "src/lib.rs".to_string(), "src/lib.rs".to_string()]);
    assert_eq!(a.changed_files, b.changed_files);
    assert_eq!(a.changed_files, vec!["Cargo.toml".to_string(), "src/lib.rs".to_string()]);
    assert_eq!(a.limitations, b.limitations);
}

#[test]
fn no_selectors_warn_of_a_missing_file_without_a_path() {
    let report = build_source_context_report_from_symbols(&SymbolGraphBuilder::new("repo".to_string()).finish(), Vec::new(), Vec::new());
    assert_eq!(report.status, SourceContextStatus::InsufficientEvidence);
    assert!(report.slices.is_empty());
    assert!(report.warnings.iter().any(|w| w.category == SourceContextWarningCategory::MissingFile
        && w.path.is_none()
        && w.message == "No source context selectors were provided."));
}

#[test]
fn bundle_evidence_has_each_identifier_once_in_order() {
    let graph = inspect_snapshot(&snapshot());
    let mut symbols = SymbolGraphBuilder::new("/work/twice".to_string());
    symbols.inspect_rust_source("src/lib.rs", Some("pub fn twice() {}\npub struct Pair;\n".to_string()));
    let bundle = build_source_evidence_bundle_from_graphs(&graph, &symbols.finish(), "twice");
    assert!(!bundle.source_evidence.is_empty());
    assert!(bundle.source_evidence.windows(2).all(|w| w[0].id < w[1].id));
}
