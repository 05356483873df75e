use code_intel_kernel::lsp_bridge::builder::LspDiagnosticsBuilder;
use code_intel_kernel::lsp_bridge::session::{
    begin_diagnostics, check_server_version, collect_publish_diagnostics, end_session, finish_listening,
    note_unreadable_file, validate_requested_files, version_text, wants_more_diagnostics, LspFileProbe, LspStep,
    PublishedItem, PublishedParams, RawRange,
};
use code_intel_kernel::lsp_bridge::{
    lsp_diagnostics_evidence_valid, lsp_id_exec, lsp_severity, LspAvailabilityStatus, LspDiagnosticSeverity,
    LspDiagnosticsOptions, LspDiagnosticsReport, LspWarningCategory, LSP_DIAGNOSTICS_CONTRACT_VERSION,
};

fn missing_rust_analyzer_options() -> LspDiagnosticsOptions {
    LspDiagnosticsOptions {
        command: Some("code-intel-missing-rust-analyzer".to_string()),
        timeout_ms: 50,
        max_diagnostics: 16,
    }
}

fn done(step: LspStep) -> LspDiagnosticsReport {
    match step {
        LspStep::Done { report } => report,
        LspStep::Continue { .. } => panic!("the request should have ended"),
    }
}

fn going_on(step: LspStep) -> (LspDiagnosticsBuilder, Vec<String>) {
    match step {
        LspStep::Done { .. } => panic!("the request should go on"),
        LspStep::Continue { builder, files } => (builder, files),
    }
}

fn has(report: &LspDiagnosticsReport, category: LspWarningCategory) -> bool {
    report.warnings.iter().any(|w| w.category == category)
}

fn item(line: u64, character: u64, severity: Option<u64>, message: &str) -> PublishedItem {
    PublishedItem {
        range: Some(RawRange {
            start_line: Some(line),
            start_character: Some(character),
            end_line: Some(line),
            end_character: Some(character + 3),
        }),
        severity,
        message: Some(message.to_string()),
        code: Some("E0425".to_string()),
        source: Some("rustc".to_string()),
    }
}

fn started(max: usize) -> LspDiagnosticsBuilder {
    let options = LspDiagnosticsOptions { command: None, timeout_ms: 50, max_diagnostics: max };
    let step = begin_diagnostics(
        Ok("/repo".to_string()),
        vec!["src/lib.rs".to_string()],
        &options,
        vec![LspFileProbe::Resolved { rust: true }],
    );
    let (builder, files) = going_on(step);
    assert_eq!(files, vec!["src/lib.rs".to_string()]);
    let (builder, _) = going_on(check_server_version(builder, Ok("rust-analyzer 1.2.3".to_string())));
    assert_eq!(builder.server.version.as_deref(), Some("rust-analyzer 1.2.3"));
    builder
}

#[test]
fn unavailable_server_ends_the_request() {
    let step = begin_diagnostics(
        Ok("/repo".to_string()),
        vec!["src/lib.rs".to_string()],
        &missing_rust_analyzer_options(),
        vec![LspFileProbe::Resolved { rust: true }],
    );
    let (builder, _) = going_on(step);
    assert_eq!(builder.server.command, "code-intel-missing-rust-analyzer");
    let report = done(check_server_version(
        builder,
        Err("rust-analyzer command `code-intel-missing-rust-analyzer` is unavailable: not found".to_string()),
    ));
    assert_eq!(report.contract_version, LSP_DIAGNOSTICS_CONTRACT_VERSION);
    assert_eq!(report.status, LspAvailabilityStatus::Unavailable);
    assert!(report.diagnostics.is_empty());
    assert!(has(&report, LspWarningCategory::RustAnalyzerUnavailable));
    assert!(has(&report, LspWarningCategory::LspDiagnosticsUnavailable));
    assert!(has(&report, LspWarningCategory::LspNotLocalization));
    assert_eq!(
        report.missing_evidence,
        vec!["lsp_diagnostics_unavailable".to_string(), "no_lsp_diagnostics".to_string(), "rust_analyzer_unavailable".to_string()]
    );
    assert!(lsp_diagnostics_evidence_valid(&report));
}

#[test]
fn unsafe_or_unsupported_paths_end_the_request_before_the_server_starts() {
    let options = missing_rust_analyzer_options();
    let outside = done(begin_diagnostics(
        Ok("/repo".to_string()),
        vec!["../Cargo.toml".to_string()],
        &options,
        vec![LspFileProbe::Resolved { rust: false }],
    ));
    assert_eq!(outside.status, LspAvailabilityStatus::Error);
    assert!(has(&outside, LspWarningCategory::PathOutsideRepo));

    let ignored = done(begin_diagnostics(
        Ok("/repo".to_string()),
        vec!["target/generated.rs".to_string()],
        &options,
        vec![LspFileProbe::Resolved { rust: true }],
    ));
    assert_eq!(ignored.status, LspAvailabilityStatus::Error);
    assert!(has(&ignored, LspWarningCategory::IgnoredPath));

    let missing = done(begin_diagnostics(
        Ok("/repo".to_string()),
        vec!["src/missing.rs".to_string()],
        &options,
        vec![LspFileProbe::Missing],
    ));
    assert_eq!(missing.status, LspAvailabilityStatus::Error);
    assert!(has(&missing, LspWarningCategory::MissingFile));
    assert_eq!(missing.missing_evidence, vec!["lsp_diagnostics_unavailable".to_string(), "no_lsp_diagnostics".to_string()]);
}

#[test]
fn an_unresolved_root_is_an_error_report() {
    let report = done(begin_diagnostics(
        Err("Workspace root could not be canonicalized: gone".to_string()),
        vec!["src/lib.rs".to_string()],
        &missing_rust_analyzer_options(),
        vec![LspFileProbe::Resolved { rust: true }],
    ));
    assert_eq!(report.status, LspAvailabilityStatus::Error);
    assert_eq!(report.workspace_root, ".");
    assert!(report
        .warnings
        .iter()
        .any(|w| w.category == LspWarningCategory::PathOutsideRepo && w.message == "Workspace root could not be canonicalized: gone"));
    assert_eq!(report.request.files, vec!["src/lib.rs".to_string()]);
}

#[test]
fn no_requested_files_is_an_error_with_a_warning() {
    let report = done(begin_diagnostics(Ok("/repo".to_string()), Vec::new(), &missing_rust_analyzer_options(), Vec::new()));
    assert_eq!(report.status, LspAvailabilityStatus::Error);
    assert!(has(&report, LspWarningCategory::NoFilesRequested));
}

#[test]
fn kept_files_are_ordered_and_skipped_ones_warned() {
    let mut builder = LspDiagnosticsBuilder::new("/repo".to_string(), Vec::new(), "ra".to_string(), None, 10, 10);
    let files = vec!["src\\z.rs".to_string(), "src/a.rs".to_string(), "src/a.txt".to_string(), "/etc/x.rs".to_string()];
    let probes = vec![
        LspFileProbe::Resolved { rust: true },
        LspFileProbe::Resolved { rust: true },
        LspFileProbe::Resolved { rust: false },
        LspFileProbe::Resolved { rust: true },
    ];
    let kept = validate_requested_files(&files, &probes, &mut builder);
    assert_eq!(kept, vec!["src/a.rs".to_string(), "src/z.rs".to_string()]);
    let warned: Vec<(LspWarningCategory, Option<&str>, &str)> =
        builder.warnings.iter().map(|w| (w.category, w.path.as_deref(), w.severity.as_str())).collect();
    assert_eq!(
        warned,
        vec![
            (LspWarningCategory::UnsupportedLanguage, Some("src/a.txt"), "warning"),
            (LspWarningCategory::PathOutsideRepo, Some("/etc/x.rs"), "error"),
        ]
    );
}

#[test]
fn published_diagnostics_become_evidence_backed_diagnostics() {
    let mut builder = started(16);
    let params = PublishedParams {
        uri: Some("file:///repo/src/lib.rs".to_string()),
        items: Some(vec![
            item(0, 4, Some(1), "cannot find value `x`"),
            PublishedItem { range: None, severity: Some(2), message: None, code: None, source: None },
            item(9, 0, None, "unused"),
        ]),
    };
    collect_publish_diagnostics(&mut builder, "/repo", Some(params));
    assert_eq!(builder.diagnostics.len(), 2);
    let first = &builder.diagnostics[0];
    assert_eq!(first.file_path, "src/lib.rs");
    assert_eq!((first.start_line, first.start_character, first.end_line, first.end_character), (1, 4, 1, 7));
    assert_eq!(first.severity, LspDiagnosticSeverity::Error);
    assert_eq!(first.code.as_deref(), Some("E0425"));
    assert_eq!(first.diagnostic_id, "lsp-diagnostic-src-lib-rs-1-4-cannot-find-value-x");
    assert_eq!(first.evidence_ids, vec!["lsp-evidence-lsp-diagnostic-src-lib-rs-1-4-cannot-find-value-x".to_string()]);
    assert_eq!(builder.diagnostics[1].severity, LspDiagnosticSeverity::Unknown);
    assert!(wants_more_diagnostics(&builder));
    finish_listening(&mut builder);
    let report = end_session(builder, Ok(()));
    assert_eq!(report.status, LspAvailabilityStatus::Complete);
    assert!(lsp_diagnostics_evidence_valid(&report));
    assert_eq!(report.evidence.len(), 2);
    assert_eq!(report.diagnostics[0].start_line, 1);
    assert_eq!(report.diagnostics[1].start_line, 10);
}

#[test]
fn the_diagnostic_limit_makes_the_report_partial() {
    let mut builder = started(1);
    let params = PublishedParams {
        uri: Some("file:///repo/src/lib.rs".to_string()),
        items: Some(vec![item(0, 0, Some(1), "a"), item(1, 0, Some(2), "b")]),
    };
    collect_publish_diagnostics(&mut builder, "/repo", Some(params));
    assert_eq!(builder.diagnostics.len(), 1);
    assert!(!wants_more_diagnostics(&builder));
    finish_listening(&mut builder);
    let report = end_session(builder, Ok(()));
    assert_eq!(report.status, LspAvailabilityStatus::Partial);
    assert!(has(&report, LspWarningCategory::ResultLimitExceeded));
}

#[test]
fn notifications_outside_the_root_are_ignored() {
    let mut builder = started(16);
    let outside = PublishedParams { uri: Some("file:///other/src/lib.rs".to_string()), items: Some(vec![item(0, 0, Some(1), "a")]) };
    collect_publish_diagnostics(&mut builder, "/repo", Some(outside));
    let not_a_file = PublishedParams { uri: Some("untitled:1".to_string()), items: Some(vec![item(0, 0, Some(1), "a")]) };
    collect_publish_diagnostics(&mut builder, "/repo", Some(not_a_file));
    let prefix_only = PublishedParams { uri: Some("file:///repository/a.rs".to_string()), items: Some(vec![item(0, 0, Some(1), "a")]) };
    collect_publish_diagnostics(&mut builder, "/repo", Some(prefix_only));
    collect_publish_diagnostics(&mut builder, "/repo", None);
    assert!(builder.diagnostics.is_empty());
}

#[test]
fn a_server_failure_is_an_error_report() {
    let mut builder = started(16);
    note_unreadable_file(&mut builder, "src/lib.rs".to_string(), "permission denied");
    assert_eq!(builder.warnings[0].message, "Failed to read diagnostics file: permission denied");
    let report = end_session(builder, Err("Timed out waiting for rust-analyzer initialize response.".to_string()));
    assert_eq!(report.status, LspAvailabilityStatus::Error);
    assert!(report.warnings.iter().any(|w| w.category == LspWarningCategory::ServerError
        && w.message == "Timed out waiting for rust-analyzer initialize response."
        && w.severity == "error"));
    assert_eq!(report.missing_evidence, vec!["lsp_diagnostics_unavailable".to_string()]);
}

#[test]
fn identifiers_severities_versions_and_options() {
    assert_eq!(
        lsp_id_exec("lsp-warning", &vec!["RustAnalyzerUnavailable".to_string(), "workspace".to_string()]),
        "lsp-warning-rustanalyzerunavailable-workspace"
    );
    assert_eq!(lsp_id_exec("lsp-warning", &vec!["--".to_string()]), "lsp-warning-");
    assert_eq!(lsp_severity(1), LspDiagnosticSeverity::Error);
    assert_eq!(lsp_severity(2), LspDiagnosticSeverity::Warning);
    assert_eq!(lsp_severity(3), LspDiagnosticSeverity::Information);
    assert_eq!(lsp_severity(4), LspDiagnosticSeverity::Hint);
    assert_eq!(lsp_severity(0), LspDiagnosticSeverity::Unknown);
    assert_eq!(version_text("  rust-analyzer 1.0 (abc)\n"), "rust-analyzer 1.0 (abc)");
    assert_eq!(version_text(" \n"), "unknown");
    let blank = LspDiagnosticsOptions::from_configured_command(Some("   ".to_string()));
    assert_eq!(blank.command, None);
    assert_eq!(blank.command(), "rust-analyzer");
    assert_eq!((blank.timeout_ms, blank.max_diagnostics), (1500, 100));
    let set = LspDiagnosticsOptions::from_configured_command(Some("/opt/ra".to_string()));
    assert_eq!(set.command(), "/opt/ra");
}

#[test]
fn repeated_requests_give_equal_reports() {
    let run = || {
        let mut builder = started(16);
        let params = PublishedParams { uri: Some("file:///repo/src/lib.rs".to_string()), items: Some(vec![item(2, 1, Some(2), "w")]) };
        collect_publish_diagnostics(&mut builder, "/repo", Some(params));
        end_session(builder, Ok(()))
    };
    assert_eq!(run(), run());
}
