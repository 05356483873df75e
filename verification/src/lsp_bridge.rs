pub mod builder;
pub mod session;

use vstd::prelude::*;

use crate::text::{slug, slug_text, concat3, owned};

verus! {

pub const LSP_DIAGNOSTICS_CONTRACT_VERSION: &'static str = "0.1";

pub const DEFAULT_RUST_ANALYZER_COMMAND: &'static str = "rust-analyzer";

pub const DEFAULT_TIMEOUT_MS: u64 = 1500;

pub const DEFAULT_MAX_DIAGNOSTICS: usize = 100;

/// Diagnostics that rust-analyzer published for requested files, with evidence.
#[derive(Debug, Clone, PartialEq, Eq)]
pub struct LspDiagnosticsReport {
    pub contract_version: String,
    pub status: LspAvailabilityStatus,
    pub language: String,
    pub server: LspServerInfo,
    pub workspace_root: String,
    pub request: LspRequestInfo,
    pub diagnostics: Vec<LspDiagnostic>,
    pub evidence: Vec<LspEvidence>,
    pub warnings: Vec<LspWarning>,
    pub limitations: Vec<String>,
    pub missing_evidence: Vec<String>,
}

#[derive(Debug, Clone, Copy, PartialEq, Eq, Structural)]
pub enum LspAvailabilityStatus {
    Complete,
    Partial,
    Unavailable,
    Error,
}

#[derive(Debug, Clone, PartialEq, Eq)]
pub struct LspServerInfo {
    pub name: String,
    pub command: String,
    pub version: Option<String>,
}

#[derive(Debug, Clone, PartialEq, Eq)]
pub struct LspRequestInfo {
    pub kind: String,
    pub files: Vec<String>,
    pub timeout_ms: u64,
    pub max_diagnostics: usize,
}

#[derive(Debug, Clone, PartialEq, Eq)]
pub struct LspDiagnostic {
    pub diagnostic_id: String,
    pub file_path: String,
    pub start_line: usize,
    pub start_character: usize,
    pub end_line: usize,
    pub end_character: usize,
    pub severity: LspDiagnosticSeverity,
    pub code: Option<String>,
    pub source: Option<String>,
    pub message: String,
    pub evidence_ids: Vec<String>,
}

#[derive(Debug, Clone, Copy, PartialEq, Eq, Structural)]
pub enum LspDiagnosticSeverity {
    Error,
    Warning,
    Information,
    Hint,
    Unknown,
}

#[derive(Debug, Clone, PartialEq, Eq)]
pub struct LspEvidence {
    pub id: String,
    pub path: String,
    pub kind: String,
    pub method: String,
    pub workspace_root: String,
    pub server: String,
    pub range: Option<LspRange>,
}

/// One-based lines, zero-based characters.
#[derive(Debug, Clone, Copy, PartialEq, Eq, Structural)]
pub struct LspRange {
    pub start_line: usize,
    pub start_character: usize,
    pub end_line: usize,
    pub end_character: usize,
}

#[derive(Debug, Clone, PartialEq, Eq)]
pub struct LspWarning {
    pub id: String,
    pub severity: String,
    pub category: LspWarningCategory,
    pub message: String,
    pub path: Option<String>,
}

#[derive(Debug, Clone, Copy, PartialEq, Eq, Structural)]
pub enum LspWarningCategory {
    RustAnalyzerUnavailable,
    LspDiagnosticsUnavailable,
    PathOutsideRepo,
    IgnoredPath,
    SymlinkIgnored,
    MissingFile,
    UnsupportedLanguage,
    RequestTimeout,
    ResultLimitExceeded,
    ServerError,
    NoFilesRequested,
    LspNotLocalization,
}

/// The command that starts rust-analyzer, and the limits of one request.
#[derive(Debug, Clone, PartialEq, Eq)]
pub struct LspDiagnosticsOptions {
    pub command: Option<String>,
    pub timeout_ms: u64,
    pub max_diagnostics: usize,
}

impl LspDiagnosticsOptions {
    /// The default options, with the command configured in the environment when it
    /// is not blank.
    pub fn from_configured_command(configured: Option<String>) -> (r: Self)
        ensures
            r.command == (match configured {
                Some(c) => if crate::text::trim_ws(c@).len() > 0 { Some(c) } else { None },
                None => None,
            }),
            r.timeout_ms == DEFAULT_TIMEOUT_MS,
            r.max_diagnostics == DEFAULT_MAX_DIAGNOSTICS,
    {
        let command = match configured {
            Some(c) => {
                let t = crate::text::trim_text(c.as_str());
                if crate::text::chars_of(t.as_str()).len() > 0 {
                    Some(c)
                } else {
                    None
                }
            },
            None => None,
        };
        LspDiagnosticsOptions { command, timeout_ms: DEFAULT_TIMEOUT_MS, max_diagnostics: DEFAULT_MAX_DIAGNOSTICS }
    }

    /// The command to run: the configured one, or `rust-analyzer`.
    pub fn command(&self) -> (r: String)
        ensures
            r@ == (match self.command {
                Some(c) => c@,
                None => DEFAULT_RUST_ANALYZER_COMMAND@,
            }),
    {
        match &self.command {
            Some(c) => c.clone(),
            None => owned(DEFAULT_RUST_ANALYZER_COMMAND),
        }
    }
}

// ---------------------------------------------------------------------------
// Identifiers
// ---------------------------------------------------------------------------

/// `prefix`, then `-` and the slug of each part.
pub open spec fn lsp_id(prefix: Seq<char>, parts: Seq<Seq<char>>) -> Seq<char>
    decreases parts.len(),
{
    if parts.len() == 0 {
        prefix
    } else {
        lsp_id(prefix, parts.drop_last()) + "-"@ + slug(parts.last())
    }
}

/// The identifier `lsp_id` gives.
pub fn lsp_id_exec(prefix: &str, parts: &Vec<String>) -> (r: String)
    ensures
        r@ == lsp_id(prefix@, parts@.map_values(|p: String| p@)),
{
    let mut id = owned(prefix);
    let mut i: usize = 0;
    proof {
        reveal_strlit("-");
        assert(parts@.map_values(|p: String| p@).take(0) =~= Seq::<Seq<char>>::empty());
    }
    while i < parts.len()
        invariant
            i <= parts@.len(),
            id@ == lsp_id(prefix@, parts@.map_values(|p: String| p@).take(i as int)),
        decreases parts@.len() - i,
    {
        let s = slug_text(parts[i].as_str());
        let ghost t = parts@.map_values(|p: String| p@).take(i + 1);
        assert(t.drop_last() =~= parts@.map_values(|p: String| p@).take(i as int));
        assert(t.last() == parts@[i as int]@);
        id = concat3(id.as_str(), "-", s.as_str());
        i = i + 1;
    }
    assert(parts@.map_values(|p: String| p@).take(parts@.len() as int) =~= parts@.map_values(|p: String| p@));
    id
}

/// The name `Debug` gives a warning category.
pub open spec fn lsp_category_name(c: LspWarningCategory) -> Seq<char> {
    match c {
        LspWarningCategory::RustAnalyzerUnavailable => "RustAnalyzerUnavailable"@,
        LspWarningCategory::LspDiagnosticsUnavailable => "LspDiagnosticsUnavailable"@,
        LspWarningCategory::PathOutsideRepo => "PathOutsideRepo"@,
        LspWarningCategory::IgnoredPath => "IgnoredPath"@,
        LspWarningCategory::SymlinkIgnored => "SymlinkIgnored"@,
        LspWarningCategory::MissingFile => "MissingFile"@,
        LspWarningCategory::UnsupportedLanguage => "UnsupportedLanguage"@,
        LspWarningCategory::RequestTimeout => "RequestTimeout"@,
        LspWarningCategory::ResultLimitExceeded => "ResultLimitExceeded"@,
        LspWarningCategory::ServerError => "ServerError"@,
        LspWarningCategory::NoFilesRequested => "NoFilesRequested"@,
        LspWarningCategory::LspNotLocalization => "LspNotLocalization"@,
    }
}

pub fn lsp_category_label(c: LspWarningCategory) -> (r: &'static str)
    ensures
        r@ == lsp_category_name(c),
{
    match c {
        LspWarningCategory::RustAnalyzerUnavailable => "RustAnalyzerUnavailable",
        LspWarningCategory::LspDiagnosticsUnavailable => "LspDiagnosticsUnavailable",
        LspWarningCategory::PathOutsideRepo => "PathOutsideRepo",
        LspWarningCategory::IgnoredPath => "IgnoredPath",
        LspWarningCategory::SymlinkIgnored => "SymlinkIgnored",
        LspWarningCategory::MissingFile => "MissingFile",
        LspWarningCategory::UnsupportedLanguage => "UnsupportedLanguage",
        LspWarningCategory::RequestTimeout => "RequestTimeout",
        LspWarningCategory::ResultLimitExceeded => "ResultLimitExceeded",
        LspWarningCategory::ServerError => "ServerError",
        LspWarningCategory::NoFilesRequested => "NoFilesRequested",
        LspWarningCategory::LspNotLocalization => "LspNotLocalization",
    }
}

/// The severity an LSP severity number stands for.
pub open spec fn severity_of(value: u64) -> LspDiagnosticSeverity {
    if value == 1 {
        LspDiagnosticSeverity::Error
    } else if value == 2 {
        LspDiagnosticSeverity::Warning
    } else if value == 3 {
        LspDiagnosticSeverity::Information
    } else if value == 4 {
        LspDiagnosticSeverity::Hint
    } else {
        LspDiagnosticSeverity::Unknown
    }
}

pub fn lsp_severity(value: u64) -> (r: LspDiagnosticSeverity)
    ensures
        r == severity_of(value),
{
    match value {
        1 => LspDiagnosticSeverity::Error,
        2 => LspDiagnosticSeverity::Warning,
        3 => LspDiagnosticSeverity::Information,
        4 => LspDiagnosticSeverity::Hint,
        _ => LspDiagnosticSeverity::Unknown,
    }
}

// ---------------------------------------------------------------------------
// Evidence validity
// ---------------------------------------------------------------------------

pub open spec fn lsp_evidence_ids(ev: Seq<LspEvidence>) -> Set<Seq<char>> {
    ev.map_values(|e: LspEvidence| e.id@).to_set()
}

/// Every diagnostic names at least one evidence item, and only ones the report holds.
pub open spec fn lsp_report_valid(r: LspDiagnosticsReport) -> bool {
    forall|i: int| 0 <= i < r.diagnostics@.len() ==> crate::repo_graph::types::ids_backed(
        (#[trigger] r.diagnostics@[i]).evidence_ids@,
        lsp_evidence_ids(r.evidence@),
    )
}

fn lsp_evidence_has_id(ev: &Vec<LspEvidence>, id: &str) -> (r: bool)
    ensures
        r == lsp_evidence_ids(ev@).contains(id@),
{
    let mut i: usize = 0;
    while i < ev.len()
        invariant
            i <= ev@.len(),
            forall|k: int| 0 <= k < i ==> (#[trigger] ev@[k]).id@ != id@,
        decreases ev@.len() - i,
    {
        if crate::text::text_eq(ev[i].id.as_str(), id) {
            assert(ev@.map_values(|e: LspEvidence| e.id@)[i as int] == id@);
            return true;
        }
        i = i + 1;
    }
    assert(!lsp_evidence_ids(ev@).contains(id@)) by {
        let ids = ev@.map_values(|e: LspEvidence| e.id@);
        if ids.contains(id@) {
            let k = choose|k: int| 0 <= k < ids.len() && #[trigger] ids[k] == id@;
            assert(ev@[k].id@ == id@);
        }
    }
    false
}

/// Checks that every diagnostic rests on evidence the report holds.
pub fn lsp_diagnostics_evidence_valid(report: &LspDiagnosticsReport) -> (r: bool)
    ensures
        r == lsp_report_valid(*report),
{
    let ghost known = lsp_evidence_ids(report.evidence@);
    let mut i: usize = 0;
    while i < report.diagnostics.len()
        invariant
            i <= report.diagnostics@.len(),
            known == lsp_evidence_ids(report.evidence@),
            forall|k: int| 0 <= k < i ==> crate::repo_graph::types::ids_backed((#[trigger] report.diagnostics@[k]).evidence_ids@, known),
        decreases report.diagnostics@.len() - i,
    {
        let ids = &report.diagnostics[i].evidence_ids;
        if ids.len() == 0 {
            return false;
        }
        let mut j: usize = 0;
        while j < ids.len()
            invariant
                j <= ids@.len(),
                i < report.diagnostics@.len(),
                ids@ == report.diagnostics@[i as int].evidence_ids@,
                known == lsp_evidence_ids(report.evidence@),
                forall|k: int| 0 <= k < j ==> known.contains(#[trigger] ids@[k]@),
            decreases ids@.len() - j,
        {
            if !lsp_evidence_has_id(&report.evidence, ids[j].as_str()) {
                assert(!crate::repo_graph::types::ids_backed(report.diagnostics@[i as int].evidence_ids@, known));
                return false;
            }
            j = j + 1;
        }
        i = i + 1;
    }
    true
}

} // verus!
