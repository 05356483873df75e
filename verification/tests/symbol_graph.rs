use code_intel_kernel::symbol_graph::builder::SymbolGraphBuilder;
use code_intel_kernel::symbol_graph::{
    ignored_paths, is_ignored_dir_name, reported_ignored_dirs, symbol_graph_evidence_valid, ParseStatus, SymbolGraph, SymbolKind, SymbolWarningCategory, SYMBOLS_CONTRACT_VERSION,
};

const BASIC_LIB: &str = "pub fn top_level_function() {}

pub struct Widget {
    value: i32,
}

pub enum Mode {
    Fast,
    Slow,
}

pub trait Runner {
    fn run(&self);
}

pub type WidgetId = u64;

pub const DEFAULT_LIMIT: usize = 10;

pub static GLOBAL_LIMIT: usize = DEFAULT_LIMIT;

pub mod nested {
    pub fn child() {}
}

impl Widget {
    pub fn new(value: i32) -> Self {
        fn nested_helper(value: i32) -> i32 {
            value
        }

        Self {
            value: nested_helper(value),
        }
    }
}
";

fn basic_graph() -> SymbolGraph {
    let mut builder = SymbolGraphBuilder::new("tests/fixtures/rust-symbols-basic".to_string());
    builder.inspect_rust_source("src/lib.rs", Some(BASIC_LIB.to_string()));
    builder.finish()
}

fn assert_symbol_graph_evidence_refs_exist(graph: &SymbolGraph) {
    let ids: Vec<&str> = graph.evidence.iter().map(|e| e.id.as_str()).collect();
    for file in &graph.source_files {
        assert!(!file.evidence_ids.is_empty());
        assert!(file.evidence_ids.iter().all(|id| ids.contains(&id.as_str())));
    }
    for symbol in &graph.symbols {
        assert!(!symbol.evidence_ids.is_empty());
        assert!(symbol.evidence_ids.iter().all(|id| ids.contains(&id.as_str())));
    }
    for warning in &graph.warnings {
        if let Some(id) = &warning.evidence_id {
            assert!(ids.contains(&id.as_str()));
        }
    }
}

#[test]
fn symbol_graph_extracts_top_level_rust_symbols() {
    let graph = basic_graph();

    assert_eq!(graph.contract_version, SYMBOLS_CONTRACT_VERSION);
    assert!(graph
        .source_files
        .iter()
        .any(|file| file.path == "src/lib.rs" && file.parse_status == ParseStatus::Parsed));
    for (kind, name) in [
        (SymbolKind::Function, "top_level_function"),
        (SymbolKind::Struct, "Widget"),
        (SymbolKind::Enum, "Mode"),
        (SymbolKind::Trait, "Runner"),
        (SymbolKind::TypeAlias, "WidgetId"),
        (SymbolKind::Const, "DEFAULT_LIMIT"),
        (SymbolKind::Static, "GLOBAL_LIMIT"),
        (SymbolKind::Module, "nested"),
    ] {
        assert!(
            graph.symbols.iter().any(|symbol| symbol.kind == kind && symbol.name == name),
            "missing symbol {kind:?} {name}"
        );
    }
    assert!(graph
        .symbols
        .iter()
        .any(|symbol| symbol.kind == SymbolKind::ImplBlock && symbol.name.starts_with("impl@")));
    assert_symbol_graph_evidence_refs_exist(&graph);
}

#[test]
fn symbol_graph_does_not_extract_nested_functions_as_top_level() {
    let graph = basic_graph();

    assert!(!graph.symbols.iter().any(|symbol| symbol.name == "nested_helper"));
    assert!(!graph.symbols.iter().any(|symbol| symbol.name == "new"));
}

#[test]
fn symbol_graph_ids_and_order_are_deterministic() {
    let first = basic_graph();
    let second = basic_graph();

    assert_eq!(first.source_files, second.source_files);
    assert_eq!(first.symbols, second.symbols);
    assert_eq!(first.evidence, second.evidence);
    assert_eq!(first.warnings, second.warnings);
    assert!(first.symbols.iter().all(|symbol| symbol.id.starts_with("symbol-")));
}

#[test]
fn every_symbol_graph_source_file_and_symbol_has_valid_evidence() {
    let graph = basic_graph();

    assert!(symbol_graph_evidence_valid(&graph));
    assert_symbol_graph_evidence_refs_exist(&graph);
}

#[test]
fn top_level_function_has_its_lines_and_columns() {
    let graph = basic_graph();
    let symbol = graph.symbols.iter().find(|s| s.name == "top_level_function").unwrap();
    assert_eq!(symbol.range.start_line, 1);
    assert_eq!(symbol.range.end_line, 1);
    assert_eq!(symbol.range.start_column, 0);
    assert_eq!(symbol.range.start_byte, 0);
    assert_eq!(symbol.range.end_byte, "pub fn top_level_function() {}".len());
    assert_eq!(symbol.path, "src/lib.rs");
}

#[test]
fn malformed_source_warns_with_evidence_and_keeps_no_symbols() {
    let mut builder = SymbolGraphBuilder::new("repo".to_string());
    builder.inspect_rust_source("src/lib.rs", Some("pub fn broken( {".to_string()));
    let graph = builder.finish();
    assert!(graph
        .source_files
        .iter()
        .any(|file| file.path == "src/lib.rs" && file.parse_status == ParseStatus::Error));
    assert!(graph.symbols.is_empty());
    assert!(graph
        .warnings
        .iter()
        .any(|warning| warning.category == SymbolWarningCategory::ParseError && warning.evidence_id.is_some()));
    assert!(symbol_graph_evidence_valid(&graph));
}

#[test]
fn tampered_symbol_graph_fails_the_evidence_check() {
    let mut graph = basic_graph();
    graph.evidence.clear();
    assert!(!symbol_graph_evidence_valid(&graph));
}

#[test]
fn ignored_directories_are_listed_and_recognised() {
    assert_eq!(
        ignored_paths(),
        vec![".git", "target", "node_modules", "dist", "build", ".cache", ".venv", "__pycache__", "coverage"]
    );
    assert_eq!(reported_ignored_dirs().len(), 8);
    assert!(!reported_ignored_dirs().contains(&".git"));
    assert!(is_ignored_dir_name("target"));
    assert!(is_ignored_dir_name(".git"));
    assert!(!is_ignored_dir_name("src"));
}

#[test]
fn present_ignored_directory_is_warned() {
    let mut builder = SymbolGraphBuilder::new("/repo".to_string());
    builder.note_ignored_dir("target");
    let graph = builder.finish();
    assert_eq!(graph.warnings.len(), 1);
    assert_eq!(graph.warnings[0].category, SymbolWarningCategory::IgnoredPath);
    assert_eq!(graph.warnings[0].path.as_deref(), Some("target"));
    assert_eq!(
        graph.warnings[0].message,
        "Generated, dependency, or cache directory was ignored by SymbolGraph inspection."
    );
}

#[test]
fn malformed_rust_source_produces_symbol_warning_without_panic() {
    let mut builder = SymbolGraphBuilder::new("/repo".to_string());
    builder.inspect_rust_source("src/lib.rs", Some("pub fn broken( {\n    let x = ;\n".to_string()));
    let graph = builder.finish();
    assert!(graph.source_files.iter().any(|file| file.path == "src/lib.rs" && file.parse_status == ParseStatus::Error));
    assert!(graph.symbols.is_empty());
    assert!(graph.warnings.iter().any(|warning| warning.category == SymbolWarningCategory::ParseError && warning.evidence_id.is_some()));
    assert!(symbol_graph_evidence_valid(&graph));
}

#[test]
fn symbol_graph_ignores_generated_and_dependency_directories() {
    let sources = [
        ("src/lib.rs", "pub fn visible() {}\n"),
        ("target/debug/build/out.rs", "pub fn ignored_target_symbol() {}\n"),
        ("node_modules/pkg/index.rs", "pub fn ignored_node_symbol() {}\n"),
    ];
    let mut builder = SymbolGraphBuilder::new("/repo".to_string());
    for (path, text) in sources {
        if !path.split('/').any(is_ignored_dir_name) {
            builder.inspect_rust_source(path, Some(text.to_string()));
        }
    }
    let graph = builder.finish();
    assert!(graph.symbols.iter().any(|symbol| symbol.name == "visible"));
    assert!(!graph.source_files.iter().any(|file| file.path.contains("target/") || file.path.contains("node_modules/")));
    assert!(!graph.symbols.iter().any(|symbol| symbol.name == "ignored_target_symbol" || symbol.name == "ignored_node_symbol"));
}
