use vstd::prelude::*;

use super::context::{candidate_paths_ok, context_views, repo_context_matches, command_context_view, component_context_view, context_item_fits, context_item_ok, context_view, covers_some_path, impact_context_ok, repo_context, test_context_view, workspace_context_view, workspace_covers_some_path};
use crate::repo_graph::impact_deps::depends_on;
use crate::repo_graph::impact_roots::single_ids;
use crate::textset::{is_id_set_of, nonempty_texts};
use super::matching::{
    containing_file_entries, expected_file_candidates, first_file_with_path, expected_symbol_candidates, file_candidate_views,
    rank_file_candidates, rank_symbol_candidates, symbol_candidate_views,
};
use super::{
    bundle_valid, RepoContextItem, SourceEvidenceBundle, SOURCE_EVIDENCE_CONTRACT_VERSION,
    BundleConfidence, BundleStatus, BundleWarning, BundleWarningCategory, CandidateFile,
    CandidateSymbol, MissingEvidence, MissingEvidenceCategory, MAX_CANDIDATE_FILES,
    MAX_CANDIDATE_SYMBOLS, MAX_REPO_CONTEXT_ITEMS,
};
use crate::order::{dedup_items, dedup_spec, lemma_dedup_covers, lemma_dedup_subset, lemma_map_multiset, lemma_same_elements, sort_items, sorted, Ordered, SameItem};
use crate::repo_graph::types::{evidence_id_set, ids_backed, opt_backed, opt_text, DetectionSeverity, Evidence, copy_opt_string};
use crate::repo_graph::types::RepoInspection;
use crate::symbol_graph::{symbol_graph_valid, SourceFile, SourceSymbol, SymbolGraph, SymbolWarning, SymbolWarningCategory};
use crate::textset::views;
use crate::text::{tokenize, tokens, trim_text, trim_ws, concat3, lemma_seq_lt_total, lemma_seq_lt_transitive, owned, seq_le, seq_lt, stable_id, stable_id_spec, text_eq, text_less};

verus! {

// ---------------------------------------------------------------------------
// Warnings
// ---------------------------------------------------------------------------

pub open spec fn bundle_category_name(c: BundleWarningCategory) -> Seq<char> {
    match c {
        BundleWarningCategory::AmbiguousQuery => "AmbiguousQuery"@,
        BundleWarningCategory::CandidateLimitExceeded => "CandidateLimitExceeded"@,
        BundleWarningCategory::InsufficientEvidenceForLocalization => "InsufficientEvidenceForLocalization"@,
        BundleWarningCategory::LocalizationNotSupported => "LocalizationNotSupported"@,
        BundleWarningCategory::MultipleCandidates => "MultipleCandidates"@,
        BundleWarningCategory::NoRepoComponentContext => "NoRepoComponentContext"@,
        BundleWarningCategory::NoMatchingSourceFiles => "NoMatchingSourceFiles"@,
        BundleWarningCategory::NoMatchingSourceSymbols => "NoMatchingSourceSymbols"@,
        BundleWarningCategory::ParseErrorPresent => "ParseErrorPresent"@,
        BundleWarningCategory::QueryTooBroad => "QueryTooBroad"@,
        BundleWarningCategory::RepoGraphContextUnavailable => "RepoGraphContextUnavailable"@,
        BundleWarningCategory::SymbolGraphParseWarning => "SymbolGraphParseWarning"@,
        BundleWarningCategory::UnsupportedLanguage => "UnsupportedLanguage"@,
    }
}

fn bundle_category_label(c: BundleWarningCategory) -> (r: &'static str)
    ensures
        r@ == bundle_category_name(c),
{
    match c {
        BundleWarningCategory::AmbiguousQuery => "AmbiguousQuery",
        BundleWarningCategory::CandidateLimitExceeded => "CandidateLimitExceeded",
        BundleWarningCategory::InsufficientEvidenceForLocalization => "InsufficientEvidenceForLocalization",
        BundleWarningCategory::LocalizationNotSupported => "LocalizationNotSupported",
        BundleWarningCategory::MultipleCandidates => "MultipleCandidates",
        BundleWarningCategory::NoRepoComponentContext => "NoRepoComponentContext",
        BundleWarningCategory::NoMatchingSourceFiles => "NoMatchingSourceFiles",
        BundleWarningCategory::NoMatchingSourceSymbols => "NoMatchingSourceSymbols",
        BundleWarningCategory::ParseErrorPresent => "ParseErrorPresent",
        BundleWarningCategory::QueryTooBroad => "QueryTooBroad",
        BundleWarningCategory::RepoGraphContextUnavailable => "RepoGraphContextUnavailable",
        BundleWarningCategory::SymbolGraphParseWarning => "SymbolGraphParseWarning",
        BundleWarningCategory::UnsupportedLanguage => "UnsupportedLanguage",
    }
}

pub open spec fn bundle_warning_view(w: BundleWarning) -> (Seq<char>, DetectionSeverity, BundleWarningCategory, Seq<char>, Option<Seq<char>>, Option<Seq<char>>) {
    (w.id@, w.severity, w.category, w.message@, opt_text(w.path), opt_text(w.evidence_id))
}

pub open spec fn bundle_warning_views(s: Seq<BundleWarning>) -> Seq<(Seq<char>, DetectionSeverity, BundleWarningCategory, Seq<char>, Option<Seq<char>>, Option<Seq<char>>)> {
    s.map_values(|w: BundleWarning| bundle_warning_view(w))
}

/// A bundle warning: its identifier is made of its category, path (or `repo`) and
/// message.
pub open spec fn expected_warning(
    category: BundleWarningCategory,
    severity: DetectionSeverity,
    message: Seq<char>,
    path: Option<Seq<char>>,
    evidence_id: Option<Seq<char>>,
) -> (Seq<char>, DetectionSeverity, BundleWarningCategory, Seq<char>, Option<Seq<char>>, Option<Seq<char>>) {
    let place = match path {
        Some(p) => p,
        None => "repo"@,
    };
    (
        stable_id_spec("bundle-warning"@, bundle_category_name(category) + "-"@ + place + "-"@ + message),
        severity,
        category,
        message,
        path,
        evidence_id,
    )
}

/// One parse-error warning per parse error reported by the symbol graph.
pub open spec fn parse_warnings(ws: Seq<SymbolWarning>) -> Seq<(Seq<char>, DetectionSeverity, BundleWarningCategory, Seq<char>, Option<Seq<char>>, Option<Seq<char>>)>
    decreases ws.len(),
{
    if ws.len() == 0 {
        seq![]
    } else {
        let prev = parse_warnings(ws.drop_last());
        let w = ws.last();
        if w.category == SymbolWarningCategory::ParseError {
            prev.push(expected_warning(
                BundleWarningCategory::ParseErrorPresent,
                w.severity,
                "SymbolGraph-lite reported a parse warning."@,
                opt_text(w.path),
                opt_text(w.evidence_id),
            ))
        } else {
            prev
        }
    }
}

pub open spec fn push_if<A>(s: Seq<A>, c: bool, x: A) -> Seq<A> {
    if c {
        s.push(x)
    } else {
        s
    }
}

/// The warnings of a bundle, before they are ordered by identifier.
pub open spec fn expected_bundle_warnings(
    query_empty: bool,
    files: nat,
    symbols: nat,
    terms: nat,
    exceeded: bool,
    context: nat,
    symbol_warnings: Seq<SymbolWarning>,
) -> Seq<(Seq<char>, DetectionSeverity, BundleWarningCategory, Seq<char>, Option<Seq<char>>, Option<Seq<char>>)> {
    let w1 = push_if(seq![], query_empty, expected_warning(BundleWarningCategory::AmbiguousQuery, DetectionSeverity::Warning, "Query is empty; no source evidence can be matched."@, None, None));
    let w2 = push_if(w1, files == 0, expected_warning(BundleWarningCategory::NoMatchingSourceFiles, DetectionSeverity::Warning, "No source files matched the query."@, None, None));
    let w3 = push_if(w2, symbols == 0, expected_warning(BundleWarningCategory::NoMatchingSourceSymbols, DetectionSeverity::Warning, "No source symbols matched the query."@, None, None));
    let w4 = push_if(w3, files + symbols > 1, expected_warning(BundleWarningCategory::MultipleCandidates, DetectionSeverity::Info, "Multiple evidence candidates matched without disambiguating reference evidence."@, None, None));
    let w5 = push_if(w4, terms <= 1 && files + symbols > 1, expected_warning(BundleWarningCategory::QueryTooBroad, DetectionSeverity::Info, "Query is broad and matched multiple candidates."@, None, None));
    let w6 = push_if(w5, exceeded, expected_warning(BundleWarningCategory::CandidateLimitExceeded, DetectionSeverity::Warning, "Candidate output was deterministically truncated; provide a narrower query."@, None, None));
    let w7 = push_if(w6, context == 0 && files + symbols > 0, expected_warning(BundleWarningCategory::NoRepoComponentContext, DetectionSeverity::Warning, "No RepoGraph component context could be attached to source candidates."@, None, None));
    let w8 = w7.push(expected_warning(BundleWarningCategory::LocalizationNotSupported, DetectionSeverity::Info, "SourceEvidenceBundle is not an edit localization result."@, None, None));
    w8 + parse_warnings(symbol_warnings)
}

fn bundle_warning(
    category: BundleWarningCategory,
    severity: DetectionSeverity,
    message: &str,
    path: Option<&String>,
    evidence_id: Option<&String>,
) -> (w: BundleWarning)
    ensures
        bundle_warning_view(w) == expected_warning(
            category,
            severity,
            message@,
            match path { Some(p) => Some(p@), None => None },
            match evidence_id { Some(e) => Some(e@), None => None },
        ),
{
    let place = match path {
        Some(p) => p.clone(),
        None => owned("repo"),
    };
    let value = concat3(bundle_category_label(category), "-", place.as_str());
    let value = concat3(value.as_str(), "-", message);
    BundleWarning {
        id: stable_id("bundle-warning", value.as_str()),
        severity,
        category,
        message: owned(message),
        path: match path {
            Some(p) => Some(p.clone()),
            None => None,
        },
        evidence_id: match evidence_id {
            Some(e) => Some(e.clone()),
            None => None,
        },
    }
}

impl Ordered for BundleWarning {
    open spec fn le(self, other: Self) -> bool {
        seq_le(self.id@, other.id@)
    }

    proof fn lemma_le_transitive(a: Self, b: Self, c: Self) {
        if seq_lt(a.id@, b.id@) && seq_lt(b.id@, c.id@) {
            lemma_seq_lt_transitive(a.id@, b.id@, c.id@);
        }
    }

    proof fn lemma_le_total(a: Self, b: Self) {
        lemma_seq_lt_total(a.id@, b.id@);
    }

    fn le_exec(&self, other: &Self) -> (r: bool) {
        text_less(self.id.as_str(), other.id.as_str()) || text_eq(self.id.as_str(), other.id.as_str())
    }
}

fn push_warning_if(
    ws: &mut Vec<BundleWarning>,
    cond: bool,
    category: BundleWarningCategory,
    severity: DetectionSeverity,
    message: &str,
)
    ensures
        bundle_warning_views(final(ws)@) == push_if(
            bundle_warning_views(old(ws)@),
            cond,
            expected_warning(category, severity, message@, None, None),
        ),
{
    if cond {
        let ghost before = bundle_warning_views(ws@);
        let w = bundle_warning(category, severity, message, None, None);
        ws.push(w);
        assert(bundle_warning_views(ws@) =~= before.push(bundle_warning_view(w)));
    }
}

/// The warnings of a bundle, ordered by identifier.
pub fn bundle_warnings(
    query_empty: bool,
    files: usize,
    symbols: usize,
    terms: usize,
    exceeded: bool,
    context: usize,
    symbol_warnings: &Vec<SymbolWarning>,
) -> (r: Vec<BundleWarning>)
    requires
        files + symbols <= usize::MAX,
    ensures
        sorted(r@),
        bundle_warning_views(r@).to_multiset() == expected_bundle_warnings(
            query_empty,
            files as nat,
            symbols as nat,
            terms as nat,
            exceeded,
            context as nat,
            symbol_warnings@,
        ).to_multiset(),
{
    let mut ws: Vec<BundleWarning> = Vec::new();
    assert(bundle_warning_views(ws@) =~= seq![]);
    push_warning_if(&mut ws, query_empty, BundleWarningCategory::AmbiguousQuery, DetectionSeverity::Warning, "Query is empty; no source evidence can be matched.");
    push_warning_if(&mut ws, files == 0, BundleWarningCategory::NoMatchingSourceFiles, DetectionSeverity::Warning, "No source files matched the query.");
    push_warning_if(&mut ws, symbols == 0, BundleWarningCategory::NoMatchingSourceSymbols, DetectionSeverity::Warning, "No source symbols matched the query.");
    push_warning_if(&mut ws, files + symbols > 1, BundleWarningCategory::MultipleCandidates, DetectionSeverity::Info, "Multiple evidence candidates matched without disambiguating reference evidence.");
    push_warning_if(&mut ws, terms <= 1 && files + symbols > 1, BundleWarningCategory::QueryTooBroad, DetectionSeverity::Info, "Query is broad and matched multiple candidates.");
    push_warning_if(&mut ws, exceeded, BundleWarningCategory::CandidateLimitExceeded, DetectionSeverity::Warning, "Candidate output was deterministically truncated; provide a narrower query.");
    push_warning_if(&mut ws, context == 0 && files + symbols > 0, BundleWarningCategory::NoRepoComponentContext, DetectionSeverity::Warning, "No RepoGraph component context could be attached to source candidates.");
    push_warning_if(&mut ws, true, BundleWarningCategory::LocalizationNotSupported, DetectionSeverity::Info, "SourceEvidenceBundle is not an edit localization result.");
    let ghost head = bundle_warning_views(ws@);
    let mut i: usize = 0;
    while i < symbol_warnings.len()
        invariant
            i <= symbol_warnings@.len(),
            bundle_warning_views(ws@) == head + parse_warnings(symbol_warnings@.take(i as int)),
        decreases symbol_warnings@.len() - i,
    {
        let w = &symbol_warnings[i];
        let ghost before = bundle_warning_views(ws@);
        assert(symbol_warnings@.take(i + 1).drop_last() =~= symbol_warnings@.take(i as int));
        assert(symbol_warnings@.take(i + 1).last() == *w);
        if w.category == SymbolWarningCategory::ParseError {
            let bw = bundle_warning(
                BundleWarningCategory::ParseErrorPresent,
                w.severity,
                "SymbolGraph-lite reported a parse warning.",
                w.path.as_ref(),
                w.evidence_id.as_ref(),
            );
            ws.push(bw);
            assert(bundle_warning_views(ws@) =~= before.push(bundle_warning_view(bw)));
        }
        i = i + 1;
    }
    assert(symbol_warnings@.take(symbol_warnings@.len() as int) =~= symbol_warnings@);
    let ghost unsorted = ws@;
    let r = sort_items(ws);
    proof {
        lemma_map_multiset(r@, unsorted, |w: BundleWarning| bundle_warning_view(w));
    }
    r
}

// ---------------------------------------------------------------------------
// Missing evidence
// ---------------------------------------------------------------------------

pub open spec fn missing_category_name(c: MissingEvidenceCategory) -> Seq<char> {
    match c {
        MissingEvidenceCategory::AmbiguousSourceMatch => "AmbiguousSourceMatch"@,
        MissingEvidenceCategory::CandidateLimitExceeded => "CandidateLimitExceeded"@,
        MissingEvidenceCategory::LocalizationNotSupported => "LocalizationNotSupported"@,
        MissingEvidenceCategory::NoCallGraph => "NoCallGraph"@,
        MissingEvidenceCategory::NoLspDiagnostics => "NoLspDiagnostics"@,
        MissingEvidenceCategory::NoRepoComponentContext => "NoRepoComponentContext"@,
        MissingEvidenceCategory::NoSourceMatch => "NoSourceMatch"@,
        MissingEvidenceCategory::NoSymbolReferenceLayer => "NoSymbolReferenceLayer"@,
        MissingEvidenceCategory::ParseErrorPresent => "ParseErrorPresent"@,
        MissingEvidenceCategory::QueryRelevance => "QueryRelevance"@,
        MissingEvidenceCategory::QueryTooBroad => "QueryTooBroad"@,
        MissingEvidenceCategory::UnsupportedLanguage => "UnsupportedLanguage"@,
    }
}

fn missing_category_label(c: MissingEvidenceCategory) -> (r: &'static str)
    ensures
        r@ == missing_category_name(c),
{
    match c {
        MissingEvidenceCategory::AmbiguousSourceMatch => "AmbiguousSourceMatch",
        MissingEvidenceCategory::CandidateLimitExceeded => "CandidateLimitExceeded",
        MissingEvidenceCategory::LocalizationNotSupported => "LocalizationNotSupported",
        MissingEvidenceCategory::NoCallGraph => "NoCallGraph",
        MissingEvidenceCategory::NoLspDiagnostics => "NoLspDiagnostics",
        MissingEvidenceCategory::NoRepoComponentContext => "NoRepoComponentContext",
        MissingEvidenceCategory::NoSourceMatch => "NoSourceMatch",
        MissingEvidenceCategory::NoSymbolReferenceLayer => "NoSymbolReferenceLayer",
        MissingEvidenceCategory::ParseErrorPresent => "ParseErrorPresent",
        MissingEvidenceCategory::QueryRelevance => "QueryRelevance",
        MissingEvidenceCategory::QueryTooBroad => "QueryTooBroad",
        MissingEvidenceCategory::UnsupportedLanguage => "UnsupportedLanguage",
    }
}

pub open spec fn missing_view(m: MissingEvidence) -> (Seq<char>, MissingEvidenceCategory, Seq<char>) {
    (m.id@, m.category, m.message@)
}

pub open spec fn missing_views(s: Seq<MissingEvidence>) -> Seq<(Seq<char>, MissingEvidenceCategory, Seq<char>)> {
    s.map_values(|m: MissingEvidence| missing_view(m))
}

pub open spec fn expected_missing_item(c: MissingEvidenceCategory, message: Seq<char>) -> (Seq<char>, MissingEvidenceCategory, Seq<char>) {
    (stable_id_spec("missing-evidence"@, missing_category_name(c) + "-"@ + message), c, message)
}

pub open spec fn has_parse_error(ws: Seq<SymbolWarning>) -> bool {
    exists|i: int| 0 <= i < ws.len() && (#[trigger] ws[i]).category == SymbolWarningCategory::ParseError
}

/// The evidence that a bundle lacks, before it is ordered by identifier.
pub open spec fn expected_missing(
    files: nat,
    symbols: nat,
    terms: nat,
    exceeded: bool,
    context: nat,
    symbol_warnings: Seq<SymbolWarning>,
) -> Seq<(Seq<char>, MissingEvidenceCategory, Seq<char>)> {
    let m0 = seq![
        expected_missing_item(MissingEvidenceCategory::NoSymbolReferenceLayer, "No symbol reference layer is available."@),
        expected_missing_item(MissingEvidenceCategory::NoCallGraph, "No call graph is available."@),
        expected_missing_item(MissingEvidenceCategory::NoLspDiagnostics, "No LSP diagnostics or language-server facts are available."@),
        expected_missing_item(MissingEvidenceCategory::LocalizationNotSupported, "No evaluated localization layer is available."@),
        expected_missing_item(MissingEvidenceCategory::QueryRelevance, "Query matching uses deterministic string/token overlap only."@),
    ];
    let m1 = push_if(m0, files + symbols == 0, expected_missing_item(MissingEvidenceCategory::NoSourceMatch, "No source file or symbol matched the query."@));
    let m2 = push_if(m1, context == 0, expected_missing_item(MissingEvidenceCategory::NoRepoComponentContext, "No RepoGraph context could be attached to source candidates."@));
    let m3 = push_if(m2, files + symbols > 1, expected_missing_item(MissingEvidenceCategory::AmbiguousSourceMatch, "Multiple source candidates matched without reference-level disambiguation."@));
    let m4 = push_if(m3, terms <= 1 && files + symbols > 1, expected_missing_item(MissingEvidenceCategory::QueryTooBroad, "The query is broad and needs more disambiguating terms."@));
    let m5 = push_if(m4, exceeded, expected_missing_item(MissingEvidenceCategory::CandidateLimitExceeded, "Candidate limits were exceeded and output was truncated."@));
    push_if(m5, has_parse_error(symbol_warnings), expected_missing_item(MissingEvidenceCategory::ParseErrorPresent, "At least one Rust source file has parse errors."@))
}

impl Ordered for MissingEvidence {
    open spec fn le(self, other: Self) -> bool {
        seq_le(self.id@, other.id@)
    }

    proof fn lemma_le_transitive(a: Self, b: Self, c: Self) {
        if seq_lt(a.id@, b.id@) && seq_lt(b.id@, c.id@) {
            lemma_seq_lt_transitive(a.id@, b.id@, c.id@);
        }
    }

    proof fn lemma_le_total(a: Self, b: Self) {
        lemma_seq_lt_total(a.id@, b.id@);
    }

    fn le_exec(&self, other: &Self) -> (r: bool) {
        text_less(self.id.as_str(), other.id.as_str()) || text_eq(self.id.as_str(), other.id.as_str())
    }
}

fn push_missing_if(ms: &mut Vec<MissingEvidence>, cond: bool, category: MissingEvidenceCategory, message: &str)
    ensures
        missing_views(final(ms)@) == push_if(missing_views(old(ms)@), cond, expected_missing_item(category, message@)),
{
    if cond {
        let ghost before = missing_views(ms@);
        let value = concat3(missing_category_label(category), "-", message);
        let m = MissingEvidence { id: stable_id("missing-evidence", value.as_str()), category, message: owned(message) };
        ms.push(m);
        assert(missing_views(ms@) =~= before.push(missing_view(m)));
    }
}

fn has_parse_error_exec(ws: &Vec<SymbolWarning>) -> (r: bool)
    ensures
        r == has_parse_error(ws@),
{
    let mut i: usize = 0;
    while i < ws.len()
        invariant
            i <= ws@.len(),
            forall|k: int| 0 <= k < i ==> (#[trigger] ws@[k]).category != SymbolWarningCategory::ParseError,
        decreases ws@.len() - i,
    {
        if ws[i].category == SymbolWarningCategory::ParseError {
            return true;
        }
        i = i + 1;
    }
    false
}

/// The evidence that a bundle lacks, ordered by identifier.
pub fn missing_evidence(
    files: usize,
    symbols: usize,
    terms: usize,
    exceeded: bool,
    context: usize,
    symbol_warnings: &Vec<SymbolWarning>,
) -> (r: Vec<MissingEvidence>)
    requires
        files + symbols <= usize::MAX,
    ensures
        sorted(r@),
        missing_views(r@).to_multiset() == expected_missing(
            files as nat,
            symbols as nat,
            terms as nat,
            exceeded,
            context as nat,
            symbol_warnings@,
        ).to_multiset(),
{
    let mut ms: Vec<MissingEvidence> = Vec::new();
    assert(missing_views(ms@) =~= seq![]);
    push_missing_if(&mut ms, true, MissingEvidenceCategory::NoSymbolReferenceLayer, "No symbol reference layer is available.");
    push_missing_if(&mut ms, true, MissingEvidenceCategory::NoCallGraph, "No call graph is available.");
    push_missing_if(&mut ms, true, MissingEvidenceCategory::NoLspDiagnostics, "No LSP diagnostics or language-server facts are available.");
    push_missing_if(&mut ms, true, MissingEvidenceCategory::LocalizationNotSupported, "No evaluated localization layer is available.");
    push_missing_if(&mut ms, true, MissingEvidenceCategory::QueryRelevance, "Query matching uses deterministic string/token overlap only.");
    assert(missing_views(ms@) =~= seq![
        expected_missing_item(MissingEvidenceCategory::NoSymbolReferenceLayer, "No symbol reference layer is available."@),
        expected_missing_item(MissingEvidenceCategory::NoCallGraph, "No call graph is available."@),
        expected_missing_item(MissingEvidenceCategory::NoLspDiagnostics, "No LSP diagnostics or language-server facts are available."@),
        expected_missing_item(MissingEvidenceCategory::LocalizationNotSupported, "No evaluated localization layer is available."@),
        expected_missing_item(MissingEvidenceCategory::QueryRelevance, "Query matching uses deterministic string/token overlap only."@),
    ]);
    push_missing_if(&mut ms, files + symbols == 0, MissingEvidenceCategory::NoSourceMatch, "No source file or symbol matched the query.");
    push_missing_if(&mut ms, context == 0, MissingEvidenceCategory::NoRepoComponentContext, "No RepoGraph context could be attached to source candidates.");
    push_missing_if(&mut ms, files + symbols > 1, MissingEvidenceCategory::AmbiguousSourceMatch, "Multiple source candidates matched without reference-level disambiguation.");
    push_missing_if(&mut ms, terms <= 1 && files + symbols > 1, MissingEvidenceCategory::QueryTooBroad, "The query is broad and needs more disambiguating terms.");
    push_missing_if(&mut ms, exceeded, MissingEvidenceCategory::CandidateLimitExceeded, "Candidate limits were exceeded and output was truncated.");
    let parse_error = has_parse_error_exec(symbol_warnings);
    push_missing_if(&mut ms, parse_error, MissingEvidenceCategory::ParseErrorPresent, "At least one Rust source file has parse errors.");
    let ghost unsorted = ms@;
    let r = sort_items(ms);
    proof {
        lemma_map_multiset(r@, unsorted, |m: MissingEvidence| missing_view(m));
    }
    r
}

// ---------------------------------------------------------------------------
// Confidence, status and refusal
// ---------------------------------------------------------------------------

pub open spec fn conf_rank(c: BundleConfidence) -> int {
    match c {
        BundleConfidence::High => 0,
        BundleConfidence::Medium => 1,
        BundleConfidence::Low => 2,
        BundleConfidence::Insufficient => 3,
    }
}

/// The least confident of two confidences.
pub open spec fn weaker(a: BundleConfidence, b: BundleConfidence) -> BundleConfidence {
    if conf_rank(a) >= conf_rank(b) {
        a
    } else {
        b
    }
}

/// The weakest confidence of the candidates; insufficient when there are none.
pub open spec fn weakest_confidence(files: Seq<CandidateFile>, symbols: Seq<CandidateSymbol>) -> BundleConfidence {
    if files.len() == 0 && symbols.len() == 0 {
        BundleConfidence::Insufficient
    } else {
        files.map_values(|c: CandidateFile| c.confidence).add(symbols.map_values(|c: CandidateSymbol| c.confidence)).fold_left(
            BundleConfidence::High,
            |acc: BundleConfidence, c: BundleConfidence| weaker(acc, c),
        )
    }
}

/// The bundle's confidence: the weakest candidate's, lowered to low when the
/// candidate limits were exceeded.
pub open spec fn bundle_confidence_spec(files: Seq<CandidateFile>, symbols: Seq<CandidateSymbol>, exceeded: bool) -> BundleConfidence {
    let c = weakest_confidence(files, symbols);
    if exceeded && conf_rank(c) < 2 {
        BundleConfidence::Low
    } else {
        c
    }
}

fn weaker_exec(a: BundleConfidence, b: BundleConfidence) -> (r: BundleConfidence)
    ensures
        r == weaker(a, b),
{
    let ra: u8 = match a {
        BundleConfidence::High => 0,
        BundleConfidence::Medium => 1,
        BundleConfidence::Low => 2,
        BundleConfidence::Insufficient => 3,
    };
    let rb: u8 = match b {
        BundleConfidence::High => 0,
        BundleConfidence::Medium => 1,
        BundleConfidence::Low => 2,
        BundleConfidence::Insufficient => 3,
    };
    if ra >= rb {
        a
    } else {
        b
    }
}

pub fn bundle_confidence(files: &Vec<CandidateFile>, symbols: &Vec<CandidateSymbol>, exceeded: bool) -> (r: BundleConfidence)
    ensures
        r == bundle_confidence_spec(files@, symbols@, exceeded),
{
    let ghost all = files@.map_values(|c: CandidateFile| c.confidence).add(symbols@.map_values(|c: CandidateSymbol| c.confidence));
    let ghost f = |acc: BundleConfidence, c: BundleConfidence| weaker(acc, c);
    let mut acc = BundleConfidence::High;
    let mut i: usize = 0;
    while i < files.len()
        invariant
            i <= files@.len(),
            all == files@.map_values(|c: CandidateFile| c.confidence).add(symbols@.map_values(|c: CandidateSymbol| c.confidence)),
            f == (|acc: BundleConfidence, c: BundleConfidence| weaker(acc, c)),
            acc == all.take(i as int).fold_left(BundleConfidence::High, f),
        decreases files@.len() - i,
    {
        assert(all.take(i + 1).drop_last() =~= all.take(i as int));
        assert(all[i as int] == files@[i as int].confidence);
        acc = weaker_exec(acc, files[i].confidence);
        i = i + 1;
    }
    let mut j: usize = 0;
    while j < symbols.len()
        invariant
            j <= symbols@.len(),
            all == files@.map_values(|c: CandidateFile| c.confidence).add(symbols@.map_values(|c: CandidateSymbol| c.confidence)),
            f == (|acc: BundleConfidence, c: BundleConfidence| weaker(acc, c)),
            acc == all.take((files@.len() + j) as int).fold_left(BundleConfidence::High, f),
        decreases symbols@.len() - j,
    {
        assert(all.take((files@.len() + j + 1) as int).drop_last() =~= all.take((files@.len() + j) as int));
        assert(all[(files@.len() + j) as int] == symbols@[j as int].confidence);
        acc = weaker_exec(acc, symbols[j].confidence);
        j = j + 1;
    }
    assert(all.take((files@.len() + symbols@.len()) as int) =~= all);
    let c = if files.len() == 0 && symbols.len() == 0 {
        BundleConfidence::Insufficient
    } else {
        acc
    };
    let low = match c {
        BundleConfidence::High | BundleConfidence::Medium => true,
        _ => false,
    };
    if exceeded && low {
        BundleConfidence::Low
    } else {
        c
    }
}

pub open spec fn refusal_spec(status: BundleStatus, exceeded: bool, candidates: nat) -> Seq<char> {
    if status == BundleStatus::InsufficientEvidence {
        "no_source_match: no evidence-backed source candidates matched the query."@
    } else if exceeded {
        "candidate_limit_exceeded: evidence candidates were truncated; localization_not_supported."@
    } else if candidates > 1 {
        "ambiguous_source_match: multiple evidence candidates matched; localization_not_supported."@
    } else {
        "localization_not_supported: SourceEvidenceBundle is evidence assembly only."@
    }
}

pub fn refusal_reason(status: BundleStatus, exceeded: bool, candidates: usize) -> (r: String)
    ensures
        r@ == refusal_spec(status, exceeded, candidates as nat),
{
    if status == BundleStatus::InsufficientEvidence {
        owned("no_source_match: no evidence-backed source candidates matched the query.")
    } else if exceeded {
        owned("candidate_limit_exceeded: evidence candidates were truncated; localization_not_supported.")
    } else if candidates > 1 {
        owned("ambiguous_source_match: multiple evidence candidates matched; localization_not_supported.")
    } else {
        owned("localization_not_supported: SourceEvidenceBundle is evidence assembly only.")
    }
}

// ---------------------------------------------------------------------------
// Evidence
// ---------------------------------------------------------------------------

pub proof fn lemma_dedup_evidence_ids(p: Seq<Evidence>)
    ensures
        evidence_id_set(dedup_spec(p)) == evidence_id_set(p),
{
    lemma_dedup_subset(p);
    lemma_dedup_covers(p);
    let d = dedup_spec(p);
    let a = d.map_values(|e: Evidence| e.id@);
    let b = p.map_values(|e: Evidence| e.id@);
    assert forall|t: Seq<char>| a.to_set().contains(t) <==> b.to_set().contains(t) by {
        if a.to_set().contains(t) {
            let i = choose|i: int| 0 <= i < a.len() && a[i] == t;
            assert(p.contains(d[i]));
            let k = choose|k: int| 0 <= k < p.len() && p[k] == d[i];
            assert(b[k] == t);
        }
        if b.to_set().contains(t) {
            let k = choose|k: int| 0 <= k < b.len() && b[k] == t;
            if d.contains(p[k]) {
                let i = choose|i: int| 0 <= i < d.len() && d[i] == p[k];
                assert(a[i] == t);
            } else {
                let i = choose|i: int| 0 <= i < d.len() && p[k].same(#[trigger] d[i]);
                assert(a[i] == t);
            }
        }
    }
    assert(a.to_set() =~= b.to_set());
}

pub proof fn lemma_same_elements_ids(a: Seq<Evidence>, b: Seq<Evidence>)
    requires
        a.to_multiset() == b.to_multiset(),
    ensures
        evidence_id_set(a) == evidence_id_set(b),
{
    lemma_same_elements(a, b);
    let x = a.map_values(|e: Evidence| e.id@);
    let y = b.map_values(|e: Evidence| e.id@);
    assert forall|t: Seq<char>| x.to_set().contains(t) <==> y.to_set().contains(t) by {
        if x.to_set().contains(t) {
            let i = choose|i: int| 0 <= i < x.len() && x[i] == t;
            assert(a.contains(a[i]));
            let k = choose|k: int| 0 <= k < b.len() && b[k] == a[i];
            assert(y[k] == t);
        }
        if y.to_set().contains(t) {
            let i = choose|i: int| 0 <= i < y.len() && y[i] == t;
            assert(b.contains(b[i]));
            let k = choose|k: int| 0 <= k < a.len() && a[k] == b[i];
            assert(x[k] == t);
        }
    }
    assert(x.to_set() =~= y.to_set());
}

/// The evidence of both graphs, one item per identifier (the later one when an
/// identifier repeats), ordered by identifier.
/// Evidence identifiers in strictly increasing order: no identifier twice.
pub open spec fn ids_strictly_increasing(ev: Seq<Evidence>) -> bool {
    forall|i: int, j: int| 0 <= i < j < ev.len() ==> seq_lt(#[trigger] ev[i].id@, #[trigger] ev[j].id@)
}

pub proof fn lemma_dedup_strictly_increasing(s: Seq<Evidence>)
    requires
        sorted(s),
    ensures
        ids_strictly_increasing(dedup_spec(s)),
    decreases s.len(),
{
    if s.len() > 0 {
        let d = s.drop_last();
        assert(sorted(d)) by {
            assert forall|i: int, j: int| 0 <= i < j < d.len() implies (#[trigger] d[i]).le(#[trigger] d[j]) by {
                assert(s[i] == d[i] && s[j] == d[j]);
            }
        }
        lemma_dedup_strictly_increasing(d);
        crate::order::lemma_dedup_sorted(s);
        crate::order::lemma_dedup_sorted(d);
        crate::order::lemma_dedup_subset(d);
        let prev = dedup_spec(d);
        let cur = dedup_spec(s);
        if !(prev.len() > 0 && s.last().same(prev.last())) {
            assert forall|i: int, j: int| 0 <= i < j < cur.len() implies seq_lt(#[trigger] cur[i].id@, #[trigger] cur[j].id@) by {
                if j < prev.len() {
                    assert(cur[i] == prev[i] && cur[j] == prev[j]);
                } else {
                    let x = s.last();
                    assert(cur[j] == x);
                    let p = prev.last();
                    assert(d.contains(p)) by {
                        assert(p == prev[prev.len() - 1]);
                    }
                    let k = choose|k: int| 0 <= k < d.len() && d[k] == p;
                    assert(s[k] == p);
                    assert(s[k].le(s[s.len() - 1]));
                    assert(seq_le(p.id@, x.id@));
                    assert(p.id@ != x.id@);
                    if i < prev.len() - 1 {
                        assert(cur[i] == prev[i]);
                        assert(seq_lt(prev[i].id@, prev[prev.len() - 1].id@));
                        lemma_seq_lt_transitive(cur[i].id@, p.id@, x.id@);
                    } else {
                        assert(cur[i] == p);
                    }
                }
            }
        }
    }
}

pub fn collect_evidence(first: &Vec<Evidence>, second: &Vec<Evidence>) -> (r: Vec<Evidence>)
    ensures
        sorted(r@),
        ids_strictly_increasing(r@),
        evidence_id_set(r@) == evidence_id_set(first@ + second@),
        exists|p: Seq<Evidence>| sorted(p) && p.to_multiset() == (first@ + second@).reverse().to_multiset() && r@ == dedup_spec(p),
{
    let ghost all = first@ + second@;
    let mut rev: Vec<Evidence> = Vec::new();
    let mut i: usize = second.len();
    while i > 0
        invariant
            i <= second@.len(),
            all == first@ + second@,
            rev@ == all.reverse().take(second@.len() - i),
        decreases i,
    {
        i = i - 1;
        assert(all.reverse().take(second@.len() - i) =~= all.reverse().take(second@.len() - i - 1).push(second@[i as int]));
        rev.push(second[i].duplicate());
    }
    let mut j: usize = first.len();
    while j > 0
        invariant
            j <= first@.len(),
            all == first@ + second@,
            rev@ == all.reverse().take(second@.len() + first@.len() - j),
        decreases j,
    {
        j = j - 1;
        assert(all.reverse().take(second@.len() + first@.len() - j) =~= all.reverse().take(second@.len() + first@.len() - j - 1).push(first@[j as int]));
        rev.push(first[j].duplicate());
    }
    assert(all.reverse().take(all.len() as int) =~= all.reverse());
    let sorted_ev = sort_items(rev);
    let r = dedup_items(sorted_ev);
    proof {
        lemma_dedup_evidence_ids(sorted_ev@);
        crate::order::lemma_dedup_sorted(sorted_ev@);
        lemma_dedup_strictly_increasing(sorted_ev@);
        all.lemma_reverse_to_multiset();
        lemma_same_elements_ids(sorted_ev@, all);
    }
    r
}

// ---------------------------------------------------------------------------
// The bundle
// ---------------------------------------------------------------------------

/// The first `n` elements, or all of them when there are fewer.
pub open spec fn truncated<T>(s: Seq<T>, n: nat) -> Seq<T> {
    if s.len() <= n {
        s
    } else {
        s.take(n as int)
    }
}

/// Some list was cut to its limit.
pub open spec fn limits_exceeded(files_before: nat, symbols_before: nat, context_before: nat) -> bool {
    files_before > MAX_CANDIDATE_FILES || symbols_before > MAX_CANDIDATE_SYMBOLS || context_before > MAX_REPO_CONTEXT_ITEMS
}

/// How a bundle follows from the graphs and the trimmed query `q`, given the ordered
/// candidate symbols `ps`, files `pf` and context items `pc` before repetitions are
/// dropped and the lists are cut to their limits.
pub open spec fn bundle_stages_ok(
    g: RepoInspection,
    sg: SymbolGraph,
    q: Seq<char>,
    ps: Seq<CandidateSymbol>,
    pf: Seq<CandidateFile>,
    pc: Seq<RepoContextItem>,
    b: SourceEvidenceBundle,
) -> bool {
    let ds = dedup_spec(ps);
    let df = dedup_spec(pf);
    let dc = dedup_spec(pc);
    let exceeded = limits_exceeded(df.len(), ds.len(), dc.len());
    let nf = b.candidate_files@.len();
    let ns = b.candidate_symbols@.len();
    let nc = b.repo_context@.len();
    &&& sorted(ps)
    &&& symbol_candidate_views(ps).to_multiset() == expected_symbol_candidates(sg.symbols@, q).to_multiset()
    &&& sorted(pf)
    &&& file_candidate_views(pf).to_multiset() == (expected_file_candidates(sg.source_files@, q) + containing_file_entries(ds, sg.source_files@)).to_multiset()
    &&& b.candidate_symbols@ == truncated(ds, MAX_CANDIDATE_SYMBOLS as nat)
    &&& b.candidate_files@ == truncated(df, MAX_CANDIDATE_FILES as nat)
    &&& sorted(pc)
    &&& forall|i: int| 0 <= i < pc.len() ==> context_item_fits(g, b.candidate_files@, b.candidate_symbols@, #[trigger] pc[i])
    &&& (nf == 0 && ns == 0) ==> pc.len() == 0
    &&& repo_context_matches(g, b.candidate_files@, b.candidate_symbols@, pc)
    &&& b.repo_context@ == truncated(dc, MAX_REPO_CONTEXT_ITEMS as nat)
    &&& sorted(b.warnings@)
    &&& bundle_warning_views(b.warnings@).to_multiset() == expected_bundle_warnings(q.len() == 0, nf, ns, tokens(q).len(), exceeded, nc, sg.warnings@).to_multiset()
    &&& sorted(b.missing_evidence@)
    &&& missing_views(b.missing_evidence@).to_multiset() == expected_missing(nf, ns, tokens(q).len(), exceeded, nc, sg.warnings@).to_multiset()
    &&& b.confidence == bundle_confidence_spec(b.candidate_files@, b.candidate_symbols@, exceeded)
    &&& b.status == (if nf == 0 && ns == 0 { BundleStatus::InsufficientEvidence } else { BundleStatus::Partial })
    &&& b.refusal_reason matches Some(r) && r@ == refusal_spec(b.status, exceeded, nf + ns)
}

pub open spec fn bundle_limitations() -> Seq<Seq<char>> {
    seq![
        "SourceEvidenceBundle does not perform edit localization."@,
        "SymbolGraph-lite extracts top-level Rust declarations only."@,
        "No references, call graph, or import/export semantic resolution."@,
        "No LSP diagnostics."@,
        "No runtime behavior or test coverage inference."@,
    ]
}

fn truncate_to<T>(v: &mut Vec<T>, n: usize)
    ensures
        final(v)@ == truncated(old(v)@, n as nat),
{
    if v.len() > n {
        v.truncate(n);
        assert(v@ =~= old(v)@.take(n as int));
    }
}

/// Assembles the source evidence for a query from a repository graph and a symbol
/// graph: the matching files and symbols (best first, within their limits), their
/// repository context, the evidence of both graphs, and the warnings, missing
/// evidence, confidence and refusal that describe how little this settles.
pub fn build_source_evidence_bundle_from_graphs(repo_graph: &RepoInspection, symbol_graph: &SymbolGraph, query: &str) -> (r: SourceEvidenceBundle)
    ensures
        r.contract_version@ == SOURCE_EVIDENCE_CONTRACT_VERSION@,
        r.query@ == trim_ws(query@),
        exists|ps: Seq<CandidateSymbol>, pf: Seq<CandidateFile>, pc: Seq<RepoContextItem>|
            #[trigger] bundle_stages_ok(*repo_graph, *symbol_graph, r.query@, ps, pf, pc, r),
        sorted(r.source_evidence@),
        ids_strictly_increasing(r.source_evidence@),
        evidence_id_set(r.source_evidence@) == evidence_id_set(repo_graph.evidence@ + symbol_graph.evidence@),
        views(r.limitations@) == bundle_limitations(),
        repo_evidence_ok(*repo_graph) && symbol_graph_valid(*symbol_graph) ==> bundle_valid(r),
{
    let g = repo_graph;
    let sg = symbol_graph;
    let q = trim_text(query);
    let terms = tokenize(q.as_str());
    proof {
        assert(views(terms@) =~= terms@.map_values(|t: String| t@));
        terms@.map_values(|t: String| t@).unique_seq_to_set();
    }
    let mut symbols = rank_symbol_candidates(&sg.symbols, q.as_str(), &terms);
    let ghost ps = choose|p: Seq<CandidateSymbol>|
        sorted(p) && symbol_candidate_views(p).to_multiset() == expected_symbol_candidates(sg.symbols@, q@).to_multiset()
            && symbols@ == dedup_spec(p);
    let mut files = rank_file_candidates(&sg.source_files, &symbols, q.as_str(), &terms);
    let ghost pf = choose|p: Seq<CandidateFile>|
        sorted(p) && file_candidate_views(p).to_multiset() == (expected_file_candidates(sg.source_files@, q@)
            + containing_file_entries(symbols@, sg.source_files@)).to_multiset() && files@ == dedup_spec(p);
    let files_before = files.len();
    let symbols_before = symbols.len();
    truncate_to(&mut files, MAX_CANDIDATE_FILES);
    truncate_to(&mut symbols, MAX_CANDIDATE_SYMBOLS);
    let context_raw = repo_context(g, &files, &symbols);
    let ghost raw = context_raw@;
    let context_sorted = sort_items(context_raw);
    proof {
        lemma_same_elements(context_sorted@, raw);
        assert forall|i: int| 0 <= i < context_sorted@.len() implies context_item_fits(*g, files@, symbols@, #[trigger] context_sorted@[i]) by {
            assert(context_sorted@.contains(context_sorted@[i]));
            let k = choose|k: int| 0 <= k < raw.len() && raw[k] == context_sorted@[i];
        }
        super::context::lemma_context_reordered(*g, files@, symbols@, raw, context_sorted@);
        assert(repo_context_matches(*g, files@, symbols@, context_sorted@));
        if files@.len() == 0 && symbols@.len() == 0 {
            assert(context_sorted@.len() == raw.len()) by {
                vstd::seq_lib::to_multiset_len(context_sorted@);
                vstd::seq_lib::to_multiset_len(raw);
            }
        }
    }
    let ghost pc = context_sorted@;
    let mut context = dedup_items(context_sorted);
    let context_before = context.len();
    truncate_to(&mut context, MAX_REPO_CONTEXT_ITEMS);
    let exceeded = files_before > MAX_CANDIDATE_FILES || symbols_before > MAX_CANDIDATE_SYMBOLS
        || context_before > MAX_REPO_CONTEXT_ITEMS;
    let evidence = collect_evidence(&g.evidence, &sg.evidence);
    let warnings = bundle_warnings(
        q.as_str().unicode_len() == 0,
        files.len(),
        symbols.len(),
        terms.len(),
        exceeded,
        context.len(),
        &sg.warnings,
    );
    let missing = missing_evidence(files.len(), symbols.len(), terms.len(), exceeded, context.len(), &sg.warnings);
    let confidence = bundle_confidence(&files, &symbols, exceeded);
    let status = if files.len() == 0 && symbols.len() == 0 {
        BundleStatus::InsufficientEvidence
    } else {
        BundleStatus::Partial
    };
    let refusal = refusal_reason(status, exceeded, files.len() + symbols.len());
    let mut limitations: Vec<String> = Vec::new();
    limitations.push(owned("SourceEvidenceBundle does not perform edit localization."));
    limitations.push(owned("SymbolGraph-lite extracts top-level Rust declarations only."));
    limitations.push(owned("No references, call graph, or import/export semantic resolution."));
    limitations.push(owned("No LSP diagnostics."));
    limitations.push(owned("No runtime behavior or test coverage inference."));
    assert(views(limitations@) =~= bundle_limitations());
    let b = SourceEvidenceBundle {
        contract_version: owned(SOURCE_EVIDENCE_CONTRACT_VERSION),
        status,
        query: q,
        confidence,
        candidate_files: files,
        candidate_symbols: symbols,
        repo_context: context,
        source_evidence: evidence,
        warnings,
        limitations,
        missing_evidence: missing,
        refusal_reason: Some(refusal),
    };
    assert(bundle_stages_ok(*g, *sg, b.query@, ps, pf, pc, b));
    proof {
        if repo_evidence_ok(*g) && symbol_graph_valid(*sg) {
            lemma_bundle_valid(*g, *sg, b.query@, ps, pf, pc, b);
        }
    }
    b
}

// ---------------------------------------------------------------------------
// Evidence validity of the bundle
// ---------------------------------------------------------------------------

/// Every component, workspace, command, test and relationship of the graph names a
/// non-empty evidence identifier that the graph holds.
pub open spec fn repo_evidence_ok(g: RepoInspection) -> bool {
    let known = evidence_id_set(g.evidence@);
    &&& forall|j: int| 0 <= j < g.components@.len() ==> (#[trigger] g.components@[j]).evidence_id@.len() > 0 && known.contains(g.components@[j].evidence_id@)
    &&& forall|j: int| 0 <= j < g.workspaces@.len() ==> (#[trigger] g.workspaces@[j]).evidence_id@.len() > 0 && known.contains(g.workspaces@[j].evidence_id@)
    &&& forall|j: int| 0 <= j < g.commands@.len() ==> (#[trigger] g.commands@[j]).evidence_id@.len() > 0 && known.contains(g.commands@[j].evidence_id@)
    &&& forall|j: int| 0 <= j < g.tests@.len() ==> (#[trigger] g.tests@[j]).evidence_id@.len() > 0 && known.contains(g.tests@[j].evidence_id@)
    &&& forall|j: int| 0 <= j < g.relationships@.len() ==> (#[trigger] g.relationships@[j]).evidence_id@.len() > 0 && known.contains(g.relationships@[j].evidence_id@)
}

pub open spec fn views_backed(v: Seq<Seq<char>>, known: Set<Seq<char>>) -> bool {
    v.len() > 0 && forall|i: int| 0 <= i < v.len() ==> known.contains(#[trigger] v[i])
}

proof fn lemma_ids_views(ids: Seq<String>, known: Set<Seq<char>>)
    requires
        ids_backed(ids, known),
    ensures
        views_backed(views(ids), known),
{
    assert forall|i: int| 0 <= i < views(ids).len() implies known.contains(#[trigger] views(ids)[i]) by {
        assert(views(ids)[i] == ids[i]@);
    }
}

proof fn lemma_views_ids(ids: Seq<String>, known: Set<Seq<char>>)
    requires
        views_backed(views(ids), known),
    ensures
        ids_backed(ids, known),
{
    assert forall|i: int| 0 <= i < ids.len() implies known.contains(#[trigger] ids[i]@) by {
        assert(views(ids)[i] == ids[i]@);
    }
}

proof fn lemma_expected_symbol_ids(symbols: Seq<SourceSymbol>, q: Seq<char>, known: Set<Seq<char>>)
    requires
        forall|k: int| 0 <= k < symbols.len() ==> ids_backed((#[trigger] symbols[k]).evidence_ids@, known),
    ensures
        forall|i: int| 0 <= i < expected_symbol_candidates(symbols, q).len() ==> views_backed((#[trigger] expected_symbol_candidates(symbols, q)[i]).7, known),
    decreases symbols.len(),
{
    if symbols.len() > 0 {
        let rest = symbols.drop_last();
        assert forall|k: int| 0 <= k < rest.len() implies ids_backed((#[trigger] rest[k]).evidence_ids@, known) by {
            assert(rest[k] == symbols[k]);
        }
        lemma_expected_symbol_ids(rest, q, known);
        lemma_ids_views(symbols.last().evidence_ids@, known);
        let prev = expected_symbol_candidates(rest, q);
        let cur = expected_symbol_candidates(symbols, q);
        assert forall|i: int| 0 <= i < cur.len() implies views_backed((#[trigger] cur[i]).7, known) by {
            if i < prev.len() {
                assert(cur[i] == prev[i]);
            }
        }
    }
}

proof fn lemma_expected_file_ids(files: Seq<SourceFile>, q: Seq<char>, known: Set<Seq<char>>)
    requires
        forall|k: int| 0 <= k < files.len() ==> ids_backed((#[trigger] files[k]).evidence_ids@, known),
    ensures
        forall|i: int| 0 <= i < expected_file_candidates(files, q).len() ==> views_backed((#[trigger] expected_file_candidates(files, q)[i]).5, known),
    decreases files.len(),
{
    if files.len() > 0 {
        let rest = files.drop_last();
        assert forall|k: int| 0 <= k < rest.len() implies ids_backed((#[trigger] rest[k]).evidence_ids@, known) by {
            assert(rest[k] == files[k]);
        }
        lemma_expected_file_ids(rest, q, known);
        lemma_ids_views(files.last().evidence_ids@, known);
        let prev = expected_file_candidates(rest, q);
        let cur = expected_file_candidates(files, q);
        assert forall|i: int| 0 <= i < cur.len() implies views_backed((#[trigger] cur[i]).5, known) by {
            if i < prev.len() {
                assert(cur[i] == prev[i]);
            }
        }
    }
}

proof fn lemma_first_file_backed(files: Seq<SourceFile>, path: Seq<char>, known: Set<Seq<char>>)
    requires
        forall|k: int| 0 <= k < files.len() ==> ids_backed((#[trigger] files[k]).evidence_ids@, known),
    ensures
        first_file_with_path(files, path) matches Some(f) ==> ids_backed(f.evidence_ids@, known),
    decreases files.len(),
{
    if files.len() > 0 && files[0].path@ != path {
        let rest = files.drop_first();
        assert forall|k: int| 0 <= k < rest.len() implies ids_backed((#[trigger] rest[k]).evidence_ids@, known) by {
            assert(rest[k] == files[k + 1]);
        }
        lemma_first_file_backed(rest, path, known);
    }
}

proof fn lemma_containing_ids(cands: Seq<CandidateSymbol>, files: Seq<SourceFile>, known: Set<Seq<char>>)
    requires
        forall|k: int| 0 <= k < files.len() ==> ids_backed((#[trigger] files[k]).evidence_ids@, known),
    ensures
        forall|i: int| 0 <= i < containing_file_entries(cands, files).len() ==> views_backed((#[trigger] containing_file_entries(cands, files)[i]).5, known),
    decreases cands.len(),
{
    if cands.len() > 0 {
        lemma_containing_ids(cands.drop_last(), files, known);
        lemma_first_file_backed(files, cands.last().path@, known);
        if let Some(f) = first_file_with_path(files, cands.last().path@) {
            lemma_ids_views(f.evidence_ids@, known);
        }
        let prev = containing_file_entries(cands.drop_last(), files);
        let cur = containing_file_entries(cands, files);
        assert forall|i: int| 0 <= i < cur.len() implies views_backed((#[trigger] cur[i]).5, known) by {
            if i < prev.len() {
                assert(cur[i] == prev[i]);
            }
        }
    }
}

proof fn lemma_parse_warning_ids(ws: Seq<SymbolWarning>, known: Set<Seq<char>>)
    requires
        forall|k: int| 0 <= k < ws.len() ==> opt_backed((#[trigger] ws[k]).evidence_id, known),
    ensures
        forall|i: int| 0 <= i < parse_warnings(ws).len() ==> match (#[trigger] parse_warnings(ws)[i]).5 {
            Some(t) => known.contains(t),
            None => true,
        },
    decreases ws.len(),
{
    if ws.len() > 0 {
        let rest = ws.drop_last();
        assert forall|k: int| 0 <= k < rest.len() implies opt_backed((#[trigger] rest[k]).evidence_id, known) by {
            assert(rest[k] == ws[k]);
        }
        lemma_parse_warning_ids(rest, known);
        assert(opt_backed(ws.last().evidence_id, known));
    }
}

proof fn lemma_member_of_multiset<A>(s: Seq<A>, e: Seq<A>, i: int)
    requires
        s.to_multiset() == e.to_multiset(),
        0 <= i < s.len(),
    ensures
        e.contains(s[i]),
{
    lemma_same_elements(s, e);
    assert(s.contains(s[i]));
}

proof fn lemma_truncated_member<T>(s: Seq<T>, n: nat, i: int)
    requires
        0 <= i < truncated(s, n).len(),
    ensures
        s.contains(truncated(s, n)[i]),
{
    if s.len() > n {
        assert(truncated(s, n)[i] == s[i]);
    } else {
        assert(truncated(s, n)[i] == s[i]);
    }
}

proof fn lemma_known_sets(g: RepoInspection, sg: SymbolGraph, known: Set<Seq<char>>)
    requires
        known == evidence_id_set(g.evidence@ + sg.evidence@),
    ensures
        forall|t: Seq<char>| evidence_id_set(g.evidence@).contains(t) ==> known.contains(t),
        forall|t: Seq<char>| evidence_id_set(sg.evidence@).contains(t) ==> known.contains(t),
{
    let all = g.evidence@ + sg.evidence@;
    let gm = g.evidence@.map_values(|e: Evidence| e.id@);
    let sm = sg.evidence@.map_values(|e: Evidence| e.id@);
    let am = all.map_values(|e: Evidence| e.id@);
    assert(am =~= gm + sm);
    assert forall|t: Seq<char>| evidence_id_set(g.evidence@).contains(t) implies known.contains(t) by {
        let k = choose|k: int| 0 <= k < gm.len() && #[trigger] gm[k] == t;
        assert(am[k] == t);
    }
    assert forall|t: Seq<char>| evidence_id_set(sg.evidence@).contains(t) implies known.contains(t) by {
        let k = choose|k: int| 0 <= k < sm.len() && #[trigger] sm[k] == t;
        assert(am[gm.len() + k] == t);
    }
}

proof fn lemma_symbols_valid(g: RepoInspection, sg: SymbolGraph, q: Seq<char>, ps: Seq<CandidateSymbol>, pf: Seq<CandidateFile>, pc: Seq<RepoContextItem>, b: SourceEvidenceBundle, known: Set<Seq<char>>)
    requires
        bundle_stages_ok(g, sg, q, ps, pf, pc, b),
        symbol_graph_valid(sg),
        forall|t: Seq<char>| evidence_id_set(sg.evidence@).contains(t) ==> known.contains(t),
    ensures
        forall|i: int| 0 <= i < b.candidate_symbols@.len() ==> ids_backed((#[trigger] b.candidate_symbols@[i]).evidence_ids@, known),
{
    let ds = dedup_spec(ps);
    lemma_dedup_subset(ps);
    let sk = evidence_id_set(sg.evidence@);
    lemma_expected_symbol_ids(sg.symbols@, q, sk);
    assert forall|i: int| 0 <= i < b.candidate_symbols@.len() implies ids_backed((#[trigger] b.candidate_symbols@[i]).evidence_ids@, known) by {
        let x = b.candidate_symbols@[i];
        lemma_truncated_member(ds, MAX_CANDIDATE_SYMBOLS as nat, i);
        let k = choose|k: int| 0 <= k < ds.len() && ds[k] == x;
        let j = choose|j: int| 0 <= j < ps.len() && ps[j] == ds[k];
        lemma_member_of_multiset(symbol_candidate_views(ps), expected_symbol_candidates(sg.symbols@, q), j);
        let e = expected_symbol_candidates(sg.symbols@, q);
        let m = choose|m: int| 0 <= m < e.len() && e[m] == symbol_candidate_views(ps)[j];
        assert(views_backed(e[m].7, sk));
        assert(views(x.evidence_ids@) == e[m].7);
        assert(views_backed(views(x.evidence_ids@), known));
        lemma_views_ids(x.evidence_ids@, known);
    }
}

proof fn lemma_files_valid(g: RepoInspection, sg: SymbolGraph, q: Seq<char>, ps: Seq<CandidateSymbol>, pf: Seq<CandidateFile>, pc: Seq<RepoContextItem>, b: SourceEvidenceBundle, known: Set<Seq<char>>)
    requires
        bundle_stages_ok(g, sg, q, ps, pf, pc, b),
        symbol_graph_valid(sg),
        forall|t: Seq<char>| evidence_id_set(sg.evidence@).contains(t) ==> known.contains(t),
    ensures
        forall|i: int| 0 <= i < b.candidate_files@.len() ==> ids_backed((#[trigger] b.candidate_files@[i]).evidence_ids@, known),
{
    let ds = dedup_spec(ps);
    let df = dedup_spec(pf);
    lemma_dedup_subset(pf);
    let sk = evidence_id_set(sg.evidence@);
    lemma_expected_file_ids(sg.source_files@, q, sk);
    lemma_containing_ids(ds, sg.source_files@, sk);
    assert forall|i: int| 0 <= i < b.candidate_files@.len() implies ids_backed((#[trigger] b.candidate_files@[i]).evidence_ids@, known) by {
        let x = b.candidate_files@[i];
        lemma_truncated_member(df, MAX_CANDIDATE_FILES as nat, i);
        let k = choose|k: int| 0 <= k < df.len() && df[k] == x;
        let j = choose|j: int| 0 <= j < pf.len() && pf[j] == df[k];
        let e1 = expected_file_candidates(sg.source_files@, q);
        let e2 = containing_file_entries(ds, sg.source_files@);
        lemma_member_of_multiset(file_candidate_views(pf), e1 + e2, j);
        let m = choose|m: int| 0 <= m < (e1 + e2).len() && (e1 + e2)[m] == file_candidate_views(pf)[j];
        if m < e1.len() {
            assert((e1 + e2)[m] == e1[m]);
            assert(views_backed(e1[m].5, sk));
        } else {
            assert((e1 + e2)[m] == e2[m - e1.len()]);
            assert(views_backed(e2[m - e1.len()].5, sk));
        }
        assert(views(x.evidence_ids@) == (e1 + e2)[m].5);
        assert(views_backed(views(x.evidence_ids@), known));
        lemma_views_ids(x.evidence_ids@, known);
    }
}

proof fn lemma_context_item_backed(g: RepoInspection, paths: Seq<Seq<char>>, x: RepoContextItem)
    requires
        repo_evidence_ok(g),
        context_item_ok(g, paths, x),
    ensures
        views_backed(views(x.evidence_ids@), evidence_id_set(g.evidence@)),
{
    let gk = evidence_id_set(g.evidence@);
    let v = views(x.evidence_ids@);
    if exists|j: int| 0 <= j < g.components@.len() && covers_some_path(#[trigger] g.components@[j], paths) && context_view(x) == component_context_view(g.components@[j]) {
        let j = choose|j: int| 0 <= j < g.components@.len() && covers_some_path(#[trigger] g.components@[j], paths) && context_view(x) == component_context_view(g.components@[j]);
        assert(v == seq![g.components@[j].evidence_id@]);
    } else if exists|j: int| 0 <= j < g.workspaces@.len() && workspace_covers_some_path(#[trigger] g.workspaces@[j], paths) && context_view(x) == workspace_context_view(g.workspaces@[j]) {
        let j = choose|j: int| 0 <= j < g.workspaces@.len() && workspace_covers_some_path(#[trigger] g.workspaces@[j], paths) && context_view(x) == workspace_context_view(g.workspaces@[j]);
        assert(v == seq![g.workspaces@[j].evidence_id@]);
    } else if exists|j: int| 0 <= j < g.commands@.len() && context_view(x) == command_context_view(#[trigger] g.commands@[j]) {
        let j = choose|j: int| 0 <= j < g.commands@.len() && context_view(x) == command_context_view(#[trigger] g.commands@[j]);
        assert(v == seq![g.commands@[j].evidence_id@]);
    } else if exists|j: int| 0 <= j < g.tests@.len() && context_view(x) == test_context_view(#[trigger] g.tests@[j]) {
        let j = choose|j: int| 0 <= j < g.tests@.len() && context_view(x) == test_context_view(#[trigger] g.tests@[j]);
        assert(v == seq![g.tests@[j].evidence_id@]);
    } else {
        assert(impact_context_ok(g, x));
        if exists|j: int| 0 <= j < g.components@.len() && v == single_ids((#[trigger] g.components@[j]).evidence_id@) {
            let j = choose|j: int| 0 <= j < g.components@.len() && v == single_ids((#[trigger] g.components@[j]).evidence_id@);
            assert(v == seq![g.components@[j].evidence_id@]);
        } else {
            let (j, r) = choose|j: int, r: int|
                #![trigger g.components@[j], g.relationships@[r]]
                0 <= j < g.components@.len() && depends_on(g, r) && is_id_set_of(v, seq![g.components@[j].evidence_id@, g.relationships@[r].evidence_id@]);
            let pair = seq![g.components@[j].evidence_id@, g.relationships@[r].evidence_id@];
            assert(pair.to_set().contains(pair[0]));
            assert(nonempty_texts(pair).contains(pair[0]));
            assert(v.to_set().contains(pair[0]));
            assert forall|z: int| 0 <= z < v.len() implies gk.contains(#[trigger] v[z]) by {
                assert(v.to_set().contains(v[z]));
                assert(pair.to_set().contains(v[z]));
                let w = choose|w: int| 0 <= w < pair.len() && pair[w] == v[z];
            }
        }
    }
}

proof fn lemma_context_valid(g: RepoInspection, sg: SymbolGraph, q: Seq<char>, ps: Seq<CandidateSymbol>, pf: Seq<CandidateFile>, pc: Seq<RepoContextItem>, b: SourceEvidenceBundle, known: Set<Seq<char>>)
    requires
        bundle_stages_ok(g, sg, q, ps, pf, pc, b),
        repo_evidence_ok(g),
        forall|t: Seq<char>| evidence_id_set(g.evidence@).contains(t) ==> known.contains(t),
    ensures
        forall|i: int| 0 <= i < b.repo_context@.len() ==> ids_backed((#[trigger] b.repo_context@[i]).evidence_ids@, known),
{
    let dc = dedup_spec(pc);
    lemma_dedup_subset(pc);
    assert forall|i: int| 0 <= i < b.repo_context@.len() implies ids_backed((#[trigger] b.repo_context@[i]).evidence_ids@, known) by {
        let x = b.repo_context@[i];
        lemma_truncated_member(dc, MAX_REPO_CONTEXT_ITEMS as nat, i);
        let k = choose|k: int| 0 <= k < dc.len() && dc[k] == x;
        let j = choose|j: int| 0 <= j < pc.len() && pc[j] == dc[k];
        assert(context_item_fits(g, b.candidate_files@, b.candidate_symbols@, pc[j]));
        let paths = choose|paths: Seq<Seq<char>>| candidate_paths_ok(paths, b.candidate_files@, b.candidate_symbols@) && #[trigger] context_item_ok(g, paths, x);
        lemma_context_item_backed(g, paths, x);
        assert(views_backed(views(x.evidence_ids@), known));
        lemma_views_ids(x.evidence_ids@, known);
    }
}

proof fn lemma_warnings_valid(g: RepoInspection, sg: SymbolGraph, q: Seq<char>, ps: Seq<CandidateSymbol>, pf: Seq<CandidateFile>, pc: Seq<RepoContextItem>, b: SourceEvidenceBundle, known: Set<Seq<char>>)
    requires
        bundle_stages_ok(g, sg, q, ps, pf, pc, b),
        symbol_graph_valid(sg),
        forall|t: Seq<char>| evidence_id_set(sg.evidence@).contains(t) ==> known.contains(t),
    ensures
        forall|i: int| 0 <= i < b.warnings@.len() ==> opt_backed((#[trigger] b.warnings@[i]).evidence_id, known),
{
    let sk = evidence_id_set(sg.evidence@);
    lemma_parse_warning_ids(sg.warnings@, sk);
    let e = expected_bundle_warnings(q.len() == 0, b.candidate_files@.len(), b.candidate_symbols@.len(), tokens(q).len(),
        limits_exceeded(dedup_spec(pf).len(), dedup_spec(ps).len(), dedup_spec(pc).len()), b.repo_context@.len(), sg.warnings@);
    let pw = parse_warnings(sg.warnings@);
    let head = e.take(e.len() - pw.len());
    assert(e =~= head + pw);
    assert forall|i: int| 0 <= i < b.warnings@.len() implies opt_backed((#[trigger] b.warnings@[i]).evidence_id, known) by {
        lemma_member_of_multiset(bundle_warning_views(b.warnings@), e, i);
        let m = choose|m: int| 0 <= m < e.len() && e[m] == bundle_warning_views(b.warnings@)[i];
        if m >= head.len() {
            assert(e[m] == pw[m - head.len()]);
        } else {
            assert(e[m].5 is None);
        }
    }
}

proof fn lemma_bundle_valid(g: RepoInspection, sg: SymbolGraph, q: Seq<char>, ps: Seq<CandidateSymbol>, pf: Seq<CandidateFile>, pc: Seq<RepoContextItem>, b: SourceEvidenceBundle)
    requires
        bundle_stages_ok(g, sg, q, ps, pf, pc, b),
        repo_evidence_ok(g),
        symbol_graph_valid(sg),
        evidence_id_set(b.source_evidence@) == evidence_id_set(g.evidence@ + sg.evidence@),
    ensures
        bundle_valid(b),
{
    let known = evidence_id_set(b.source_evidence@);
    lemma_known_sets(g, sg, known);
    lemma_symbols_valid(g, sg, q, ps, pf, pc, b, known);
    lemma_files_valid(g, sg, q, ps, pf, pc, b, known);
    lemma_context_valid(g, sg, q, ps, pf, pc, b, known);
    lemma_warnings_valid(g, sg, q, ps, pf, pc, b, known);
}
} // verus!
