use code_intel_kernel::source_context::builder::{PathProbe, SelectorInput};
use code_intel_kernel::source_context::report::{build_source_context_report_from_symbols, symbol_path_for};
use code_intel_kernel::source_context::slicing::content_hash;
use code_intel_kernel::source_context::{
    source_context_evidence_valid, LineRange, SourceContextReport, SourceContextSelector, SourceContextStatus,
    SourceContextWarningCategory, SOURCE_CONTEXT_CONTRACT_VERSION,
};
use code_intel_kernel::symbol_graph::builder::SymbolGraphBuilder;
use code_intel_kernel::symbol_graph::SymbolGraph;

const BASIC_LIB: &str = "pub fn top_level_function() {}

pub struct Widget {
    value: i32,
}

pub enum Mode {
    Fast,
    Slow,
}
";

fn graph_of(files: &[(&str, &str)]) -> SymbolGraph {
    let mut builder = SymbolGraphBuilder::new("repo".to_string());
    for (path, text) in files {
        builder.inspect_rust_source(path, Some(text.to_string()));
    }
    builder.finish()
}

fn file_input(relative: &str, bytes: &[u8]) -> SelectorInput {
    SelectorInput { probe: PathProbe::File { relative: relative.to_string() }, bytes: Some(bytes.to_vec()) }
}

fn probe_input(probe: PathProbe) -> SelectorInput {
    SelectorInput { probe, bytes: None }
}

fn file_selector(path: &str, lines: Option<(usize, usize)>) -> SourceContextSelector {
    SourceContextSelector::File {
        path: path.to_string(),
        line_range: lines.map(|(start_line, end_line)| LineRange { start_line, end_line }),
    }
}

fn one_file(path: &str, lines: Option<(usize, usize)>, bytes: &[u8]) -> SourceContextReport {
    build_source_context_report_from_symbols(&graph_of(&[]), vec![file_selector(path, lines)], vec![file_input(path, bytes)])
}

fn fnv(text: &str) -> String {
    let mut hash: u64 = 0xcbf29ce484222325;
    for byte in text.as_bytes() {
        hash ^= u64::from(*byte);
        hash = hash.wrapping_mul(0x100000001b3);
    }
    format!("{hash:016x}")
}

#[test]
fn source_context_file_selector_returns_bounded_slice_with_evidence() {
    let report = one_file("src/lib.rs", Some((1, 6)), BASIC_LIB.as_bytes());

    assert_eq!(report.contract_version, SOURCE_CONTEXT_CONTRACT_VERSION);
    assert_eq!(report.status, SourceContextStatus::Complete);
    assert_eq!(report.slices.len(), 1);
    let slice = &report.slices[0];
    assert_eq!(slice.file_path, "src/lib.rs");
    assert_eq!(slice.start_line, 1);
    assert_eq!(slice.end_line, 6);
    assert!(slice.text.contains("pub fn top_level_function"));
    assert!(!slice.text.contains("nested_helper"));
    assert!(!slice.evidence_ids.is_empty());
    assert!(source_context_evidence_valid(&report));
}

#[test]
fn file_slice_text_bytes_and_hash_are_exact() {
    let report = one_file("src/lib.rs", Some((1, 6)), BASIC_LIB.as_bytes());
    let slice = &report.slices[0];
    let expected = "pub fn top_level_function() {}\n\npub struct Widget {\n    value: i32,\n}\n";
    assert_eq!(slice.text, expected);
    assert_eq!(slice.start_byte, Some(0));
    assert_eq!(slice.end_byte, Some(expected.len() + 1));
    assert_eq!(slice.content_hash, fnv(expected));
    assert_eq!(slice.reason, "explicit_file_selector");
    assert!(!slice.truncated);
    assert_eq!(slice.evidence_ids, vec!["evidence-source-context-src-lib-rs-source-context-slice-lines-1-6".to_string()]);
    assert_eq!(slice.slice_id, "source-slice-src-lib-rs-file-1-6");
}

#[test]
fn content_hash_is_sixteen_hex_digits_of_fnv1a() {
    assert_eq!(content_hash(""), "cbf29ce484222325");
    assert_eq!(content_hash("a"), fnv("a"));
    assert_eq!(content_hash("a"), "af63dc4c8601ec8c");
}

#[test]
fn source_context_symbol_id_selector_returns_symbol_slice() {
    let graph = graph_of(&[("src/lib.rs", BASIC_LIB)]);
    let symbol = graph
        .symbols
        .iter()
        .find(|symbol| symbol.name == "top_level_function")
        .expect("fixture should contain top_level_function");
    assert_eq!(symbol_path_for(&graph, &symbol.id), Some("src/lib.rs".to_string()));
    let report = build_source_context_report_from_symbols(
        &graph,
        vec![SourceContextSelector::SymbolId { symbol_id: symbol.id.clone() }],
        vec![SelectorInput { probe: PathProbe::Missing, bytes: Some(BASIC_LIB.as_bytes().to_vec()) }],
    );

    assert_eq!(report.status, SourceContextStatus::Complete);
    assert!(report.slices.iter().any(|slice| {
        slice.symbol_id.as_deref() == Some(symbol.id.as_str())
            && slice.symbol_name.as_deref() == Some("top_level_function")
            && slice.context_after_lines <= 3
            && slice.text.contains("pub fn top_level_function")
    }));
    let slice = &report.slices[0];
    assert_eq!((slice.start_line, slice.end_line), (1, 4));
    assert_eq!((slice.context_before_lines, slice.context_after_lines), (0, 3));
    assert_eq!(slice.reason, "symbol_id_selector");
    for id in &symbol.evidence_ids {
        assert!(slice.evidence_ids.contains(id));
    }
    assert!(source_context_evidence_valid(&report));
}

#[test]
fn unknown_symbol_warns_without_slices() {
    let graph = graph_of(&[("src/lib.rs", BASIC_LIB)]);
    assert_eq!(symbol_path_for(&graph, "symbol-nope"), None);
    let report = build_source_context_report_from_symbols(
        &graph,
        vec![SourceContextSelector::SymbolId { symbol_id: "symbol-nope".to_string() }],
        vec![probe_input(PathProbe::Missing)],
    );
    assert_eq!(report.status, SourceContextStatus::InsufficientEvidence);
    assert!(report.slices.is_empty());
    assert!(report.warnings.iter().any(|w| w.category == SourceContextWarningCategory::SymbolNotFound));
}

#[test]
fn source_context_missing_ignored_and_outside_paths_warn_without_slices() {
    let graph = graph_of(&[]);
    let missing = build_source_context_report_from_symbols(
        &graph,
        vec![file_selector("src/missing.rs", None)],
        vec![probe_input(PathProbe::Missing)],
    );
    assert_eq!(missing.status, SourceContextStatus::InsufficientEvidence);
    assert!(missing.warnings.iter().any(|warning| warning.category == SourceContextWarningCategory::MissingFile));

    let ignored = build_source_context_report_from_symbols(
        &graph,
        vec![file_selector("target/generated.rs", None)],
        vec![file_input("target/generated.rs", b"pub fn generated() {}\n")],
    );
    assert_eq!(ignored.status, SourceContextStatus::InsufficientEvidence);
    assert!(ignored.warnings.iter().any(|warning| warning.category == SourceContextWarningCategory::IgnoredPath));

    let outside = build_source_context_report_from_symbols(
        &graph,
        vec![file_selector("../Cargo.toml", None)],
        vec![probe_input(PathProbe::Outside)],
    );
    assert_eq!(outside.status, SourceContextStatus::InsufficientEvidence);
    assert!(outside.warnings.iter().any(|warning| warning.category == SourceContextWarningCategory::PathOutsideRepo));
}

#[test]
fn source_context_large_and_non_utf8_files_warn_without_panic() {
    let large_text = (0..120).map(|index| format!("pub fn function_{index}() {{}}")).collect::<Vec<_>>().join("\n");
    let large = one_file("src/large.rs", Some((1, 120)), large_text.as_bytes());
    assert_eq!(large.slices.len(), 1);
    assert!(large.slices[0].truncated);
    assert!(large.slices[0].end_line - large.slices[0].start_line < 80);
    assert!(large.warnings.iter().any(|warning| warning.category == SourceContextWarningCategory::SliceTruncated));

    let non_utf8 = one_file("src/bad.rs", None, &[0xff, 0xfe, 0xfd]);
    assert_eq!(non_utf8.status, SourceContextStatus::InsufficientEvidence);
    assert!(non_utf8.warnings.iter().any(|warning| warning.category == SourceContextWarningCategory::NonUtf8File));
}

#[test]
fn source_context_symlink_selector_is_blocked() {
    let report = build_source_context_report_from_symbols(
        &graph_of(&[]),
        vec![file_selector("src/link.rs", None)],
        vec![probe_input(PathProbe::Symlink)],
    );
    assert_eq!(report.status, SourceContextStatus::InsufficientEvidence);
    assert!(report.warnings.iter().any(|warning| warning.category == SourceContextWarningCategory::SymlinkIgnored));
}

#[test]
fn repeated_reports_are_equal_and_carry_no_edit_targets() {
    let first = one_file("src/lib.rs", Some((1, 12)), BASIC_LIB.as_bytes());
    let second = one_file("src/lib.rs", Some((1, 12)), BASIC_LIB.as_bytes());
    assert_eq!(first, second);
    assert!(source_context_evidence_valid(&first));
    assert!(first
        .warnings
        .iter()
        .any(|w| w.category == SourceContextWarningCategory::SourceContextNotLocalization));
    assert_eq!(first.limitations.len(), 4);
}

#[test]
fn the_line_limit_keeps_eighty_lines() {
    let text = (1..=200).map(|i| format!("// line {i}")).collect::<Vec<_>>().join("\n");
    let report = one_file("src/long.rs", None, text.as_bytes());
    let slice = &report.slices[0];
    assert_eq!((slice.start_line, slice.end_line), (1, 80));
    assert!(!slice.truncated);
    let wide = one_file("src/long.rs", Some((10, 150)), text.as_bytes());
    let slice = &wide.slices[0];
    assert_eq!((slice.start_line, slice.end_line), (10, 89));
    assert!(slice.truncated);
    assert_eq!(wide.status, SourceContextStatus::Complete);
}

#[test]
fn requested_lines_are_clamped_to_the_file() {
    let report = one_file("src/lib.rs", Some((0, 500)), BASIC_LIB.as_bytes());
    let slice = &report.slices[0];
    assert_eq!((slice.start_line, slice.end_line), (1, 10));
    let past = one_file("src/lib.rs", Some((40, 2)), BASIC_LIB.as_bytes());
    let slice = &past.slices[0];
    assert_eq!((slice.start_line, slice.end_line), (10, 10));
    assert_eq!(slice.text, "}");
}

#[test]
fn the_byte_limit_cuts_at_a_character_boundary() {
    let line: String = std::iter::repeat('é').take(4001).collect();
    let report = one_file("src/wide.rs", None, line.as_bytes());
    let slice = &report.slices[0];
    assert_eq!(slice.text.len(), 8000);
    assert_eq!(slice.text.chars().count(), 4000);
    assert!(slice.truncated);
}

#[test]
fn the_report_byte_limit_truncates_later_slices() {
    let line: String = std::iter::repeat('x').take(8500).collect();
    let selectors = vec![
        file_selector("src/a.rs", None),
        file_selector("src/b.rs", None),
        file_selector("src/c.rs", None),
    ];
    let inputs = vec![
        file_input("src/a.rs", line.as_bytes()),
        file_input("src/b.rs", line.as_bytes()),
        file_input("src/c.rs", line.as_bytes()),
    ];
    let report = build_source_context_report_from_symbols(&graph_of(&[]), selectors, inputs);
    let sizes: Vec<usize> = report.slices.iter().map(|s| s.text.len()).collect();
    assert_eq!(sizes, vec![8000, 8000, 4000]);
    assert!(report
        .warnings
        .iter()
        .any(|w| w.category == SourceContextWarningCategory::SourceContextLimitExceeded));
    assert_eq!(report.status, SourceContextStatus::Partial);
}

#[test]
fn no_selectors_is_insufficient_evidence() {
    let report = build_source_context_report_from_symbols(&graph_of(&[]), Vec::new(), Vec::new());
    assert_eq!(report.status, SourceContextStatus::InsufficientEvidence);
    assert!(report.slices.is_empty());
    assert!(report.warnings.iter().any(|w| w.category == SourceContextWarningCategory::MissingFile));
}

#[test]
fn at_most_eight_selectors_are_sliced() {
    let mut selectors = Vec::new();
    let mut inputs = Vec::new();
    for i in 0..9 {
        let path = format!("src/m{i}.rs");
        selectors.push(file_selector(&path, None));
        inputs.push(file_input(&path, b"pub fn f() {}\n"));
    }
    let report = build_source_context_report_from_symbols(&graph_of(&[]), selectors, inputs);
    assert_eq!(report.slices.len(), 8);
    assert_eq!(report.selectors.len(), 9);
    assert!(report
        .warnings
        .iter()
        .any(|w| w.category == SourceContextWarningCategory::SourceContextLimitExceeded));
    let paths: Vec<&str> = report.slices.iter().map(|s| s.file_path.as_str()).collect();
    let mut sorted = paths.clone();
    sorted.sort();
    assert_eq!(paths, sorted);
}

#[test]
fn binary_and_non_rust_files_are_not_sliced() {
    let binary = one_file("src/blob.rs", None, &[b'a', 0, b'b']);
    assert!(binary.slices.is_empty());
    assert!(binary.warnings.iter().any(|w| w.category == SourceContextWarningCategory::BinaryFile));
    let python = one_file("tool.py", None, b"print(1)\n");
    assert!(python.slices.is_empty());
    assert!(python.warnings.iter().any(|w| w.category == SourceContextWarningCategory::UnsupportedLanguage));
    let unreadable = build_source_context_report_from_symbols(
        &graph_of(&[]),
        vec![file_selector("src/gone.rs", None)],
        vec![SelectorInput { probe: PathProbe::File { relative: "src/gone.rs".to_string() }, bytes: None }],
    );
    assert!(unreadable.warnings.iter().any(|w| w.category == SourceContextWarningCategory::MissingFile));
}

#[test]
fn a_report_without_its_evidence_fails_the_evidence_check() {
    let mut report = one_file("src/lib.rs", Some((1, 3)), BASIC_LIB.as_bytes());
    assert!(source_context_evidence_valid(&report));
    report.evidence.clear();
    assert!(!source_context_evidence_valid(&report));
}
