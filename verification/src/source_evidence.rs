pub mod bundle;
pub mod context;
pub mod matching;

use vstd::prelude::*;

use crate::repo_graph::types::{
    evidence_id_set, ids_backed, ids_backed_exec, opt_backed, opt_backed_exec, DetectionSeverity,
    Evidence,
};
use crate::symbol_graph::{ParseStatus, SourceLanguage, SourceRange, SymbolKind};

verus! {

pub const SOURCE_EVIDENCE_CONTRACT_VERSION: &'static str = "0.2";

pub const MAX_CANDIDATE_FILES: usize = 8;

pub const MAX_CANDIDATE_SYMBOLS: usize = 12;

pub const MAX_REPO_CONTEXT_ITEMS: usize = 12;

/// Source files, symbols and repository context that match a query, each backed by
/// evidence; never an edit localization.
#[derive(Debug, Clone, PartialEq, Eq)]
pub struct SourceEvidenceBundle {
    pub contract_version: String,
    pub status: BundleStatus,
    pub query: String,
    pub confidence: BundleConfidence,
    pub candidate_files: Vec<CandidateFile>,
    pub candidate_symbols: Vec<CandidateSymbol>,
    pub repo_context: Vec<RepoContextItem>,
    pub source_evidence: Vec<Evidence>,
    pub warnings: Vec<BundleWarning>,
    pub limitations: Vec<String>,
    pub missing_evidence: Vec<MissingEvidence>,
    pub refusal_reason: Option<String>,
}

#[derive(Debug, Clone, Copy, PartialEq, Eq, Structural)]
pub enum BundleStatus {
    Complete,
    Partial,
    InsufficientEvidence,
}

#[derive(Debug, Clone, Copy, PartialEq, Eq, Structural, PartialOrd, Ord)]
pub enum BundleConfidence {
    High,
    Medium,
    Low,
    Insufficient,
}

#[derive(Debug, Clone, PartialEq, Eq)]
pub struct CandidateFile {
    pub path: String,
    pub language: SourceLanguage,
    pub parse_status: ParseStatus,
    pub confidence: BundleConfidence,
    pub reason: String,
    pub evidence_ids: Vec<String>,
}

#[derive(Debug, Clone, PartialEq, Eq)]
pub struct CandidateSymbol {
    pub symbol_id: String,
    pub kind: SymbolKind,
    pub name: String,
    pub path: String,
    pub range: SourceRange,
    pub confidence: BundleConfidence,
    pub reason: String,
    pub evidence_ids: Vec<String>,
}

#[derive(Debug, Clone, PartialEq, Eq)]
pub struct RepoContextItem {
    pub id: String,
    pub kind: RepoContextKind,
    pub role: RepoContextRole,
    pub label: String,
    pub path: Option<String>,
    pub reason: String,
    pub evidence_ids: Vec<String>,
}

#[derive(Debug, Clone, Copy, PartialEq, Eq, Structural, PartialOrd, Ord)]
pub enum RepoContextKind {
    Component,
    Command,
    Workspace,
    Test,
}

#[derive(Debug, Clone, Copy, PartialEq, Eq, Structural, PartialOrd, Ord)]
pub enum RepoContextRole {
    AmbiguousContext,
    ContainingComponent,
    ContainingWorkspace,
    DependencyContext,
    ImpactContext,
    TestCommandContext,
    VerificationCommandContext,
}

#[derive(Debug, Clone, PartialEq, Eq)]
pub struct BundleWarning {
    pub id: String,
    pub severity: DetectionSeverity,
    pub category: BundleWarningCategory,
    pub message: String,
    pub path: Option<String>,
    pub evidence_id: Option<String>,
}

#[derive(Debug, Clone, Copy, PartialEq, Eq, Structural)]
pub enum BundleWarningCategory {
    AmbiguousQuery,
    CandidateLimitExceeded,
    InsufficientEvidenceForLocalization,
    LocalizationNotSupported,
    MultipleCandidates,
    NoRepoComponentContext,
    NoMatchingSourceFiles,
    NoMatchingSourceSymbols,
    ParseErrorPresent,
    QueryTooBroad,
    RepoGraphContextUnavailable,
    SymbolGraphParseWarning,
    UnsupportedLanguage,
}

#[derive(Debug, Clone, PartialEq, Eq)]
pub struct MissingEvidence {
    pub id: String,
    pub category: MissingEvidenceCategory,
    pub message: String,
}

#[derive(Debug, Clone, Copy, PartialEq, Eq, Structural)]
pub enum MissingEvidenceCategory {
    AmbiguousSourceMatch,
    CandidateLimitExceeded,
    LocalizationNotSupported,
    NoCallGraph,
    NoLspDiagnostics,
    NoRepoComponentContext,
    NoSourceMatch,
    NoSymbolReferenceLayer,
    ParseErrorPresent,
    QueryRelevance,
    QueryTooBroad,
    UnsupportedLanguage,
}

/// Every candidate and context item names at least one evidence item and only known
/// ones; every warning that names evidence names a known item.
pub open spec fn bundle_valid(b: SourceEvidenceBundle) -> bool {
    let known = evidence_id_set(b.source_evidence@);
    &&& forall|i: int| 0 <= i < b.candidate_files@.len() ==> ids_backed((#[trigger] b.candidate_files@[i]).evidence_ids@, known)
    &&& forall|i: int| 0 <= i < b.candidate_symbols@.len() ==> ids_backed((#[trigger] b.candidate_symbols@[i]).evidence_ids@, known)
    &&& forall|i: int| 0 <= i < b.repo_context@.len() ==> ids_backed((#[trigger] b.repo_context@[i]).evidence_ids@, known)
    &&& forall|i: int| 0 <= i < b.warnings@.len() ==> opt_backed((#[trigger] b.warnings@[i]).evidence_id, known)
}

/// Checks that every fact of the bundle rests on evidence that the bundle holds.
pub fn source_evidence_bundle_evidence_valid(bundle: &SourceEvidenceBundle) -> (r: bool)
    ensures
        r == bundle_valid(*bundle),
{
    let ghost known = evidence_id_set(bundle.source_evidence@);
    let ev = &bundle.source_evidence;
    let mut i: usize = 0;
    while i < bundle.candidate_files.len()
        invariant
            i <= bundle.candidate_files@.len(),
            known == evidence_id_set(bundle.source_evidence@),
            *ev == bundle.source_evidence,
            forall|k: int| 0 <= k < i ==> ids_backed((#[trigger] bundle.candidate_files@[k]).evidence_ids@, known),
        decreases bundle.candidate_files@.len() - i,
    {
        if !ids_backed_exec(&bundle.candidate_files[i].evidence_ids, ev) {
            return false;
        }
        i = i + 1;
    }
    let mut i: usize = 0;
    while i < bundle.candidate_symbols.len()
        invariant
            i <= bundle.candidate_symbols@.len(),
            known == evidence_id_set(bundle.source_evidence@),
            *ev == bundle.source_evidence,
            forall|k: int| 0 <= k < i ==> ids_backed((#[trigger] bundle.candidate_symbols@[k]).evidence_ids@, known),
        decreases bundle.candidate_symbols@.len() - i,
    {
        if !ids_backed_exec(&bundle.candidate_symbols[i].evidence_ids, ev) {
            return false;
        }
        i = i + 1;
    }
    let mut i: usize = 0;
    while i < bundle.repo_context.len()
        invariant
            i <= bundle.repo_context@.len(),
            known == evidence_id_set(bundle.source_evidence@),
            *ev == bundle.source_evidence,
            forall|k: int| 0 <= k < i ==> ids_backed((#[trigger] bundle.repo_context@[k]).evidence_ids@, known),
        decreases bundle.repo_context@.len() - i,
    {
        if !ids_backed_exec(&bundle.repo_context[i].evidence_ids, ev) {
            return false;
        }
        i = i + 1;
    }
    let mut i: usize = 0;
    while i < bundle.warnings.len()
        invariant
            i <= bundle.warnings@.len(),
            known == evidence_id_set(bundle.source_evidence@),
            *ev == bundle.source_evidence,
            forall|k: int| 0 <= k < i ==> opt_backed((#[trigger] bundle.warnings@[k]).evidence_id, known),
        decreases bundle.warnings@.len() - i,
    {
        if !opt_backed_exec(&bundle.warnings[i].evidence_id, ev) {
            return false;
        }
        i = i + 1;
    }
    true
}

} // verus!
