use vstd::prelude::*;

use super::{
    lsp_category_label, lsp_category_name, lsp_evidence_ids, lsp_id, lsp_id_exec, lsp_report_valid,
    LspAvailabilityStatus, LspDiagnostic, LspDiagnosticSeverity, LspDiagnosticsReport, LspEvidence, LspRange,
    LspRequestInfo, LspServerInfo, LspWarning, LspWarningCategory, LSP_DIAGNOSTICS_CONTRACT_VERSION,
};
use crate::order::{lemma_same_elements, sort_items, sorted, Ordered};
use crate::repo_graph::types::{ids_backed, opt_text};
use crate::text::{
    decimal, decimal_text, lemma_seq_lt_irreflexive, lemma_seq_lt_total, lemma_seq_lt_transitive, normalize_slashes,
    owned, seq_le, seq_lt, slashes, text_eq, text_less,
};
use crate::textset::views;

verus! {

// ---------------------------------------------------------------------------
// Orders
// ---------------------------------------------------------------------------

/// Texts in their order.
impl Ordered for String {
    open spec fn le(self, other: Self) -> bool {
        seq_le(self@, other@)
    }

    proof fn lemma_le_transitive(a: Self, b: Self, c: Self) {
        if seq_lt(a@, b@) && seq_lt(b@, c@) {
            lemma_seq_lt_transitive(a@, b@, c@);
        }
    }

    proof fn lemma_le_total(a: Self, b: Self) {
        lemma_seq_lt_total(a@, b@);
    }

    fn le_exec(&self, other: &Self) -> (r: bool) {
        text_less(self.as_str(), other.as_str()) || text_eq(self.as_str(), other.as_str())
    }
}

/// Diagnostics by file, line, character, then identifier.
impl Ordered for LspDiagnostic {
    open spec fn le(self, other: Self) -> bool {
        ||| seq_lt(self.file_path@, other.file_path@)
        ||| self.file_path@ == other.file_path@ && self.start_line < other.start_line
        ||| self.file_path@ == other.file_path@ && self.start_line == other.start_line
            && self.start_character < other.start_character
        ||| self.file_path@ == other.file_path@ && self.start_line == other.start_line
            && self.start_character == other.start_character && seq_le(self.diagnostic_id@, other.diagnostic_id@)
    }

    proof fn lemma_le_transitive(a: Self, b: Self, c: Self) {
        lemma_seq_lt_irreflexive(a.file_path@);
        lemma_seq_lt_irreflexive(b.file_path@);
        if seq_lt(a.file_path@, b.file_path@) && seq_lt(b.file_path@, c.file_path@) {
            lemma_seq_lt_transitive(a.file_path@, b.file_path@, c.file_path@);
        }
        if seq_lt(a.diagnostic_id@, b.diagnostic_id@) && seq_lt(b.diagnostic_id@, c.diagnostic_id@) {
            lemma_seq_lt_transitive(a.diagnostic_id@, b.diagnostic_id@, c.diagnostic_id@);
        }
    }

    proof fn lemma_le_total(a: Self, b: Self) {
        lemma_seq_lt_total(a.file_path@, b.file_path@);
        lemma_seq_lt_total(a.diagnostic_id@, b.diagnostic_id@);
    }

    fn le_exec(&self, other: &Self) -> (r: bool) {
        if text_less(self.file_path.as_str(), other.file_path.as_str()) {
            return true;
        }
        if !text_eq(self.file_path.as_str(), other.file_path.as_str()) {
            return false;
        }
        if self.start_line != other.start_line {
            return self.start_line < other.start_line;
        }
        if self.start_character != other.start_character {
            return self.start_character < other.start_character;
        }
        text_less(self.diagnostic_id.as_str(), other.diagnostic_id.as_str())
            || text_eq(self.diagnostic_id.as_str(), other.diagnostic_id.as_str())
    }
}

/// Evidence by identifier.
impl Ordered for LspEvidence {
    open spec fn le(self, other: Self) -> bool {
        seq_le(self.id@, other.id@)
    }

    proof fn lemma_le_transitive(a: Self, b: Self, c: Self) {
        if seq_lt(a.id@, b.id@) && seq_lt(b.id@, c.id@) {
            lemma_seq_lt_transitive(a.id@, b.id@, c.id@);
        }
    }

    proof fn lemma_le_total(a: Self, b: Self) {
        lemma_seq_lt_total(a.id@, b.id@);
    }

    fn le_exec(&self, other: &Self) -> (r: bool) {
        text_less(self.id.as_str(), other.id.as_str()) || text_eq(self.id.as_str(), other.id.as_str())
    }
}

/// Warnings by identifier.
impl Ordered for LspWarning {
    open spec fn le(self, other: Self) -> bool {
        seq_le(self.id@, other.id@)
    }

    proof fn lemma_le_transitive(a: Self, b: Self, c: Self) {
        if seq_lt(a.id@, b.id@) && seq_lt(b.id@, c.id@) {
            lemma_seq_lt_transitive(a.id@, b.id@, c.id@);
        }
    }

    proof fn lemma_le_total(a: Self, b: Self) {
        lemma_seq_lt_total(a.id@, b.id@);
    }

    fn le_exec(&self, other: &Self) -> (r: bool) {
        text_less(self.id.as_str(), other.id.as_str()) || text_eq(self.id.as_str(), other.id.as_str())
    }
}

// ---------------------------------------------------------------------------
// The builder
// ---------------------------------------------------------------------------

/// Collects the diagnostics, evidence, warnings and missing evidence of a report.
pub struct LspDiagnosticsBuilder {
    pub workspace_root: String,
    pub server: LspServerInfo,
    pub request: LspRequestInfo,
    pub diagnostics: Vec<LspDiagnostic>,
    pub evidence: Vec<LspEvidence>,
    pub warnings: Vec<LspWarning>,
    pub missing_evidence: Vec<String>,
}

/// The identifier of a warning: its category and its path (or `workspace`).
pub open spec fn lsp_warning_id(c: LspWarningCategory, path: Option<Seq<char>>) -> Seq<char> {
    lsp_id("lsp-warning"@, seq![lsp_category_name(c), warning_place(path)])
}

/// The path of a warning, or `workspace`.
pub open spec fn warning_place(path: Option<Seq<char>>) -> Seq<char> {
    match path {
        Some(p) => p,
        None => "workspace"@,
    }
}

/// The identifier of a diagnostic: its file, start and message.
pub open spec fn diagnostic_id(file_path: Seq<char>, range: LspRange, message: Seq<char>) -> Seq<char> {
    lsp_id("lsp-diagnostic"@, seq![file_path, decimal(range.start_line as nat), decimal(range.start_character as nat), message])
}

/// The identifier of the evidence of a diagnostic.
pub open spec fn diagnostic_evidence_id(diagnostic: Seq<char>) -> Seq<char> {
    lsp_id("lsp-evidence"@, seq![diagnostic])
}

fn one_text(a: String) -> (r: Vec<String>)
    ensures
        r@.map_values(|p: String| p@) == seq![a@],
{
    let mut r: Vec<String> = Vec::new();
    r.push(a);
    assert(r@.map_values(|p: String| p@) =~= seq![r@[0]@]);
    r
}

fn two_texts(a: String, b: String) -> (r: Vec<String>)
    ensures
        r@.map_values(|p: String| p@) == seq![a@, b@],
{
    let mut r: Vec<String> = Vec::new();
    r.push(a);
    r.push(b);
    assert(r@.map_values(|p: String| p@) =~= seq![r@[0]@, r@[1]@]);
    r
}

fn four_texts(a: String, b: String, c: String, d: String) -> (r: Vec<String>)
    ensures
        r@.map_values(|p: String| p@) == seq![a@, b@, c@, d@],
{
    let mut r: Vec<String> = Vec::new();
    r.push(a);
    r.push(b);
    r.push(c);
    r.push(d);
    assert(r@.map_values(|p: String| p@) =~= seq![r@[0]@, r@[1]@, r@[2]@, r@[3]@]);
    r
}

fn slash_all(files: Vec<String>) -> (r: Vec<String>)
    ensures
        views(r@) == views(files@).map_values(|f: Seq<char>| slashes(f)),
{
    let mut r: Vec<String> = Vec::new();
    let mut i: usize = 0;
    while i < files.len()
        invariant
            i <= files@.len(),
            views(r@) == views(files@).take(i as int).map_values(|f: Seq<char>| slashes(f)),
        decreases files@.len() - i,
    {
        r.push(normalize_slashes(files[i].as_str()));
        assert(views(files@).take(i + 1).map_values(|f: Seq<char>| slashes(f)) =~= views(files@).take(i as int).map_values(|f: Seq<char>| slashes(f)).push(slashes(files@[i as int]@)));
        assert(views(r@) =~= views(files@).take(i + 1).map_values(|f: Seq<char>| slashes(f)));
        i = i + 1;
    }
    assert(views(files@).take(files@.len() as int) =~= views(files@));
    r
}

impl LspDiagnosticsBuilder {
    /// Every diagnostic rests on evidence the builder holds.
    pub open spec fn wf(&self) -> bool {
        forall|i: int| 0 <= i < self.diagnostics@.len() ==> ids_backed((#[trigger] self.diagnostics@[i]).evidence_ids@, lsp_evidence_ids(self.evidence@))
    }

    pub fn new(
        workspace_root: String,
        files: Vec<String>,
        command: String,
        version: Option<String>,
        timeout_ms: u64,
        max_diagnostics: usize,
    ) -> (b: Self)
        ensures
            b.wf(),
            b.workspace_root == workspace_root,
            b.server.name@ == "rust-analyzer"@,
            b.server.command == command,
            b.server.version == version,
            b.request.kind@ == "diagnostics"@,
            views(b.request.files@) == views(files@).map_values(|f: Seq<char>| slashes(f)),
            b.request.timeout_ms == timeout_ms,
            b.request.max_diagnostics == max_diagnostics,
            b.diagnostics@.len() == 0,
            b.evidence@.len() == 0,
            b.warnings@.len() == 0,
            b.missing_evidence@.len() == 0,
    {
        LspDiagnosticsBuilder {
            workspace_root,
            server: LspServerInfo { name: owned("rust-analyzer"), command, version },
            request: LspRequestInfo { kind: owned("diagnostics"), files: slash_all(files), timeout_ms, max_diagnostics },
            diagnostics: Vec::new(),
            evidence: Vec::new(),
            warnings: Vec::new(),
            missing_evidence: Vec::new(),
        }
    }

    /// Records a warning; its identifier is made of its category and path.
    pub fn warn(&mut self, category: LspWarningCategory, message: String, path: Option<String>, severity: &str)
        requires
            old(self).wf(),
        ensures
            final(self).wf(),
            final(self).warnings@ == old(self).warnings@.push(final(self).warnings@.last()),
            final(self).warnings@.last().id@ == lsp_warning_id(category, opt_text(path)),
            final(self).warnings@.last().severity@ == severity@,
            final(self).warnings@.last().category == category,
            final(self).warnings@.last().message == message,
            final(self).warnings@.last().path == path,
            final(self).workspace_root == old(self).workspace_root,
            final(self).server == old(self).server,
            final(self).request == old(self).request,
            final(self).diagnostics@ == old(self).diagnostics@,
            final(self).evidence@ == old(self).evidence@,
            final(self).missing_evidence@ == old(self).missing_evidence@,
    {
        let place = match &path {
            Some(p) => p.clone(),
            None => owned("workspace"),
        };
        let parts = two_texts(owned(lsp_category_label(category)), place);
        proof {
            reveal_strlit("workspace");
        }
        let id = lsp_id_exec("lsp-warning", &parts);
        assert(place@ == warning_place(opt_text(path)));
        self.warnings.push(LspWarning { id, severity: owned(severity), category, message, path });
    }

    /// Records an item of missing evidence, once.
    pub fn missing(&mut self, item: &str)
        requires
            old(self).wf(),
        ensures
            final(self).wf(),
            views(final(self).missing_evidence@) == (if views(old(self).missing_evidence@).contains(item@) {
                views(old(self).missing_evidence@)
            } else {
                views(old(self).missing_evidence@).push(item@)
            }),
            views(final(self).missing_evidence@).contains(item@),
            forall|t: Seq<char>| views(old(self).missing_evidence@).contains(t) ==> views(final(self).missing_evidence@).contains(t),
            final(self).workspace_root == old(self).workspace_root,
            final(self).server == old(self).server,
            final(self).request == old(self).request,
            final(self).diagnostics@ == old(self).diagnostics@,
            final(self).evidence@ == old(self).evidence@,
            final(self).warnings@ == old(self).warnings@,
    {
        let mut i: usize = 0;
        while i < self.missing_evidence.len()
            invariant
                i <= self.missing_evidence@.len(),
                *self == *old(self),
                old(self).wf(),
                forall|k: int| 0 <= k < i ==> views(self.missing_evidence@)[k] != item@,
            decreases self.missing_evidence@.len() - i,
        {
            if text_eq(self.missing_evidence[i].as_str(), item) {
                assert(views(self.missing_evidence@)[i as int] == item@);
                return;
            }
            i = i + 1;
        }
        let ghost before = views(self.missing_evidence@);
        self.missing_evidence.push(owned(item));
        assert(views(self.missing_evidence@) =~= before.push(item@));
        assert(views(self.missing_evidence@)[before.len() as int] == item@);
        assert forall|t: Seq<char>| before.contains(t) implies views(self.missing_evidence@).contains(t) by {
            let k = choose|k: int| 0 <= k < before.len() && before[k] == t;
            assert(views(self.missing_evidence@)[k] == t);
        }
    }

    /// Records a diagnostic and its evidence.
    pub fn add_diagnostic(
        &mut self,
        file_path: String,
        range: LspRange,
        severity: LspDiagnosticSeverity,
        code: Option<String>,
        source: Option<String>,
        message: String,
    )
        requires
            old(self).wf(),
        ensures
            final(self).wf(),
            final(self).diagnostics@ == old(self).diagnostics@.push(final(self).diagnostics@.last()),
            final(self).evidence@ == old(self).evidence@.push(final(self).evidence@.last()),
            ({
                let d = final(self).diagnostics@.last();
                let e = final(self).evidence@.last();
                &&& d.diagnostic_id@ == diagnostic_id(file_path@, range, message@)
                &&& d.file_path == file_path
                &&& d.start_line == range.start_line
                &&& d.start_character == range.start_character
                &&& d.end_line == range.end_line
                &&& d.end_character == range.end_character
                &&& d.severity == severity
                &&& d.code == code
                &&& d.source == source
                &&& d.message == message
                &&& views(d.evidence_ids@) == seq![e.id@]
                &&& e.id@ == diagnostic_evidence_id(d.diagnostic_id@)
                &&& e.path == file_path
                &&& e.kind@ == "lsp_diagnostic"@
                &&& e.method@ == "textDocument/publishDiagnostics"@
                &&& e.workspace_root == old(self).workspace_root
                &&& e.server == old(self).server.name
                &&& e.range == Some(range)
            }),
            final(self).workspace_root == old(self).workspace_root,
            final(self).server == old(self).server,
            final(self).request == old(self).request,
            final(self).warnings@ == old(self).warnings@,
            final(self).missing_evidence@ == old(self).missing_evidence@,
    {
        let parts = four_texts(file_path.clone(), decimal_text(range.start_line), decimal_text(range.start_character), message.clone());
        let did = lsp_id_exec("lsp-diagnostic", &parts);
        let eparts = one_text(did.clone());
        let eid = lsp_id_exec("lsp-evidence", &eparts);
        let e = LspEvidence {
            id: eid.clone(),
            path: file_path.clone(),
            kind: owned("lsp_diagnostic"),
            method: owned("textDocument/publishDiagnostics"),
            workspace_root: self.workspace_root.clone(),
            server: self.server.name.clone(),
            range: Some(range),
        };
        let ghost ev0 = self.evidence@;
        self.evidence.push(e);
        let mut ids: Vec<String> = Vec::new();
        ids.push(eid);
        assert(views(ids@) =~= seq![e.id@]);
        let d = LspDiagnostic {
            diagnostic_id: did,
            file_path,
            start_line: range.start_line,
            start_character: range.start_character,
            end_line: range.end_line,
            end_character: range.end_character,
            severity,
            code,
            source,
            message,
            evidence_ids: ids,
        };
        let ghost ds0 = self.diagnostics@;
        self.diagnostics.push(d);
        proof {
            let a = ev0.map_values(|x: LspEvidence| x.id@);
            assert(self.evidence@.map_values(|x: LspEvidence| x.id@) =~= a.push(e.id@));
            crate::text::lemma_push_to_set(a, e.id@);
            assert forall|i: int| 0 <= i < self.diagnostics@.len() implies ids_backed((#[trigger] self.diagnostics@[i]).evidence_ids@, lsp_evidence_ids(self.evidence@)) by {
                if i < ds0.len() {
                    assert(self.diagnostics@[i] == ds0[i]);
                    assert(ids_backed(ds0[i].evidence_ids@, lsp_evidence_ids(ev0)));
                } else {
                    assert(self.diagnostics@[i] == d);
                    assert(d.evidence_ids@[0]@ == e.id@);
                }
            }
        }
    }

    /// Some warning says the results were cut short: the limit was reached, or the
    /// request timed out.
    pub fn has_partial_warning(&self) -> (r: bool)
        ensures
            r == exists|i: int| 0 <= i < self.warnings@.len() && is_partial_category(#[trigger] self.warnings@[i].category),
    {
        let mut i: usize = 0;
        while i < self.warnings.len()
            invariant
                i <= self.warnings@.len(),
                forall|k: int| 0 <= k < i ==> !is_partial_category(#[trigger] self.warnings@[k].category),
            decreases self.warnings@.len() - i,
        {
            match self.warnings[i].category {
                LspWarningCategory::ResultLimitExceeded | LspWarningCategory::RequestTimeout => {
                    assert(is_partial_category(self.warnings@[i as int].category));
                    return true;
                },
                _ => {},
            }
            i = i + 1;
        }
        false
    }
}

pub open spec fn is_partial_category(c: LspWarningCategory) -> bool {
    c == LspWarningCategory::ResultLimitExceeded || c == LspWarningCategory::RequestTimeout
}

// ---------------------------------------------------------------------------
// The report
// ---------------------------------------------------------------------------

/// The warning that diagnostics are no localization.
pub open spec fn is_lsp_not_localization(w: LspWarning) -> bool {
    &&& w.id@ == lsp_id("lsp-warning"@, seq!["lsp-not-localization"@])
    &&& w.severity@ == "info"@
    &&& w.category == LspWarningCategory::LspNotLocalization
    &&& w.path is None
}

pub open spec fn lsp_limitations() -> Seq<Seq<char>> {
    seq![
        "Phase 3B-A collects Rust diagnostics only."@,
        "No definitions, references, hover, call hierarchy, formatting, code actions, or rename."@,
        "Diagnostics are evidence, not fixes or edit targets."@,
        "where-to-edit remains insufficient_evidence."@,
    ]
}

fn lsp_limitation_texts() -> (r: Vec<String>)
    ensures
        views(r@) == lsp_limitations(),
{
    let mut r: Vec<String> = Vec::new();
    r.push(owned("Phase 3B-A collects Rust diagnostics only."));
    r.push(owned("No definitions, references, hover, call hierarchy, formatting, code actions, or rename."));
    r.push(owned("Diagnostics are evidence, not fixes or edit targets."));
    r.push(owned("where-to-edit remains insufficient_evidence."));
    assert(views(r@) =~= lsp_limitations());
    r
}

impl LspDiagnosticsBuilder {
    /// The report with the given status: every list ordered, the warning that
    /// diagnostics are no localization added.
    pub fn finish(self, status: LspAvailabilityStatus) -> (r: LspDiagnosticsReport)
        ensures
            r.contract_version@ == LSP_DIAGNOSTICS_CONTRACT_VERSION@,
            r.status == status,
            r.language@ == "rust"@,
            r.server == self.server,
            r.workspace_root == self.workspace_root,
            r.request == self.request,
            sorted(r.diagnostics@),
            r.diagnostics@.to_multiset() == self.diagnostics@.to_multiset(),
            sorted(r.evidence@),
            r.evidence@.to_multiset() == self.evidence@.to_multiset(),
            sorted(r.warnings@),
            exists|w: LspWarning| #[trigger] is_lsp_not_localization(w) && r.warnings@.to_multiset() == self.warnings@.push(w).to_multiset(),
            sorted(r.missing_evidence@),
            r.missing_evidence@.to_multiset() == self.missing_evidence@.to_multiset(),
            views(r.limitations@) == lsp_limitations(),
            self.wf() ==> lsp_report_valid(r),
    {
        let ghost b = self;
        let LspDiagnosticsBuilder { workspace_root, server, request, diagnostics, evidence, warnings, missing_evidence } = self;
        let diagnostics = sort_items(diagnostics);
        let evidence = sort_items(evidence);
        let missing_evidence = sort_items(missing_evidence);
        let nl_parts = one_text(owned("lsp-not-localization"));
        let nl = LspWarning {
            id: lsp_id_exec("lsp-warning", &nl_parts),
            severity: owned("info"),
            category: LspWarningCategory::LspNotLocalization,
            message: owned("LSP diagnostics are evidence, not edit localization or fix instructions."),
            path: None,
        };
        let mut all_warnings = warnings;
        all_warnings.push(nl);
        let warnings = sort_items(all_warnings);
        assert(is_lsp_not_localization(nl));
        let r = LspDiagnosticsReport {
            contract_version: owned(LSP_DIAGNOSTICS_CONTRACT_VERSION),
            status,
            language: owned("rust"),
            server,
            workspace_root,
            request,
            diagnostics,
            evidence,
            warnings,
            limitations: lsp_limitation_texts(),
            missing_evidence,
        };
        proof {
            if b.wf() {
                lemma_same_elements(r.diagnostics@, b.diagnostics@);
                lemma_same_elements(r.evidence@, b.evidence@);
                let known = lsp_evidence_ids(b.evidence@);
                assert(lsp_evidence_ids(r.evidence@) == known) by {
                    let x = r.evidence@.map_values(|e: LspEvidence| e.id@);
                    let y = b.evidence@.map_values(|e: LspEvidence| e.id@);
                    assert forall|t: Seq<char>| x.to_set().contains(t) <==> y.to_set().contains(t) by {
                        if x.to_set().contains(t) {
                            let i = choose|i: int| 0 <= i < x.len() && #[trigger] x[i] == t;
                            assert(r.evidence@.contains(r.evidence@[i]));
                            let j = choose|j: int| 0 <= j < b.evidence@.len() && b.evidence@[j] == r.evidence@[i];
                            assert(y[j] == t);
                        }
                        if y.to_set().contains(t) {
                            let i = choose|i: int| 0 <= i < y.len() && #[trigger] y[i] == t;
                            assert(b.evidence@.contains(b.evidence@[i]));
                            let j = choose|j: int| 0 <= j < r.evidence@.len() && r.evidence@[j] == b.evidence@[i];
                            assert(x[j] == t);
                        }
                    }
                    assert(x.to_set() =~= y.to_set());
                }
                assert forall|i: int| 0 <= i < r.diagnostics@.len() implies ids_backed((#[trigger] r.diagnostics@[i]).evidence_ids@, lsp_evidence_ids(r.evidence@)) by {
                    assert(r.diagnostics@.contains(r.diagnostics@[i]));
                    let j = choose|j: int| 0 <= j < b.diagnostics@.len() && b.diagnostics@[j] == r.diagnostics@[i];
                    assert(ids_backed(b.diagnostics@[j].evidence_ids@, known));
                }
            }
        }
        r
    }
}

} // verus!
