pub mod builder;
pub mod report;
pub mod slicing;

use vstd::prelude::*;

use crate::repo_graph::types::{
    evidence_id_set, ids_backed, ids_backed_exec, opt_backed, opt_backed_exec, DetectionSeverity,
    Evidence,
};
use crate::symbol_graph::{SourceLanguage, SymbolKind};

verus! {

pub const SOURCE_CONTEXT_CONTRACT_VERSION: &'static str = "0.1";

pub const DEFAULT_FILE_LINES: usize = 80;

pub const SYMBOL_CONTEXT_LINES: usize = 3;

pub const MAX_SLICES: usize = 8;

pub const MAX_LINES_PER_SLICE: usize = 80;

pub const MAX_BYTES_PER_SLICE: usize = 8000;

pub const MAX_TOTAL_BYTES: usize = 20000;

/// Bounded, read-only slices of source files chosen by explicit selectors.
#[derive(Debug, Clone, PartialEq, Eq)]
pub struct SourceContextReport {
    pub contract_version: String,
    pub status: SourceContextStatus,
    pub selectors: Vec<SourceContextSelector>,
    pub slices: Vec<SourceContextSlice>,
    pub evidence: Vec<Evidence>,
    pub warnings: Vec<SourceContextWarning>,
    pub limitations: Vec<String>,
}

#[derive(Debug, Clone, Copy, PartialEq, Eq, Structural)]
pub enum SourceContextStatus {
    Complete,
    Partial,
    InsufficientEvidence,
}

/// A file (optionally with a line range) or a symbol of the symbol graph.
#[derive(Debug, Clone, PartialEq, Eq)]
pub enum SourceContextSelector {
    File { path: String, line_range: Option<LineRange> },
    SymbolId { symbol_id: String },
}

/// One-based, inclusive lines.
#[derive(Debug, Clone, Copy, PartialEq, Eq, Structural)]
pub struct LineRange {
    pub start_line: usize,
    pub end_line: usize,
}

#[derive(Debug, Clone, PartialEq, Eq)]
pub struct SourceContextSlice {
    pub slice_id: String,
    pub file_path: String,
    pub language: SourceLanguage,
    pub reason: String,
    pub symbol_id: Option<String>,
    pub symbol_name: Option<String>,
    pub symbol_kind: Option<SymbolKind>,
    pub start_line: usize,
    pub end_line: usize,
    pub start_byte: Option<usize>,
    pub end_byte: Option<usize>,
    pub context_before_lines: usize,
    pub context_after_lines: usize,
    pub text: String,
    pub truncated: bool,
    pub content_hash: String,
    pub evidence_ids: Vec<String>,
}

#[derive(Debug, Clone, PartialEq, Eq)]
pub struct SourceContextWarning {
    pub id: String,
    pub severity: DetectionSeverity,
    pub category: SourceContextWarningCategory,
    pub message: String,
    pub path: Option<String>,
    pub evidence_id: Option<String>,
}

#[derive(Debug, Clone, Copy, PartialEq, Eq, Structural)]
pub enum SourceContextWarningCategory {
    AmbiguousSymbolSelector,
    BinaryFile,
    IgnoredPath,
    MissingFile,
    NonUtf8File,
    PathOutsideRepo,
    SliceTruncated,
    SourceContextLimitExceeded,
    SourceContextNotLocalization,
    SymbolNotFound,
    SymlinkIgnored,
    UnsupportedLanguage,
}

/// Every slice names at least one evidence item and only known ones; every warning
/// that names evidence names a known item.
pub open spec fn source_context_valid(r: SourceContextReport) -> bool {
    let known = evidence_id_set(r.evidence@);
    &&& forall|i: int| 0 <= i < r.slices@.len() ==> ids_backed((#[trigger] r.slices@[i]).evidence_ids@, known)
    &&& forall|i: int| 0 <= i < r.warnings@.len() ==> opt_backed((#[trigger] r.warnings@[i]).evidence_id, known)
}

/// Checks that every slice and warning of the report rests on evidence that the
/// report holds.
pub fn source_context_evidence_valid(report: &SourceContextReport) -> (r: bool)
    ensures
        r == source_context_valid(*report),
{
    let ghost known = evidence_id_set(report.evidence@);
    let mut i: usize = 0;
    while i < report.slices.len()
        invariant
            i <= report.slices@.len(),
            known == evidence_id_set(report.evidence@),
            forall|k: int| 0 <= k < i ==> ids_backed((#[trigger] report.slices@[k]).evidence_ids@, known),
        decreases report.slices@.len() - i,
    {
        if !ids_backed_exec(&report.slices[i].evidence_ids, &report.evidence) {
            return false;
        }
        i = i + 1;
    }
    let mut i: usize = 0;
    while i < report.warnings.len()
        invariant
            i <= report.warnings@.len(),
            known == evidence_id_set(report.evidence@),
            forall|k: int| 0 <= k < i ==> opt_backed((#[trigger] report.warnings@[k]).evidence_id, known),
        decreases report.warnings@.len() - i,
    {
        if !opt_backed_exec(&report.warnings[i].evidence_id, &report.evidence) {
            return false;
        }
        i = i + 1;
    }
    true
}

} // verus!
