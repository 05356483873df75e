use vstd::prelude::*;

use super::builder::{
    category_name, file_selector_step, find_symbol, first_symbol, kept_prefix, opt_bytes, slice_bounded, slice_bytes, symbol_selector_step, warning_id,
    PathProbe, SelectorInput, SourceContextBuilder,
};
use super::slicing::utf8_len;
use super::{
    source_context_valid, SourceContextReport, SourceContextSelector, SourceContextSlice, SourceContextStatus,
    SourceContextWarning, SourceContextWarningCategory, MAX_SLICES, MAX_TOTAL_BYTES, SOURCE_CONTEXT_CONTRACT_VERSION,
};
use crate::order::{
    dedup_items, dedup_spec, lemma_dedup_sorted, lemma_dedup_subset, lemma_same_elements, sort_items, sorted, Ordered,
    SameItem,
};
use crate::repo_graph::types::{evidence_id_set, ids_backed, opt_backed, opt_text, DetectionSeverity, Evidence};
use crate::source_evidence::bundle::{ids_strictly_increasing, lemma_dedup_evidence_ids, lemma_dedup_strictly_increasing, lemma_same_elements_ids};
use crate::symbol_graph::SymbolGraph;
use crate::text::{
    is_alnum, slug, lemma_seq_lt_irreflexive, lemma_seq_lt_total, lemma_seq_lt_transitive, owned, seq_le, seq_lt, stable_id,
    stable_id_spec, text_eq, text_less,
};
use crate::textset::views;

verus! {

// ---------------------------------------------------------------------------
// Orders
// ---------------------------------------------------------------------------

/// `None` comes first; texts in their order.
pub open spec fn opt_seq_lt(a: Option<Seq<char>>, b: Option<Seq<char>>) -> bool {
    match (a, b) {
        (None, Some(_)) => true,
        (Some(x), Some(y)) => seq_lt(x, y),
        _ => false,
    }
}

/// Slices by file, then symbol (file slices first), then first line.
impl Ordered for SourceContextSlice {
    open spec fn le(self, other: Self) -> bool {
        ||| seq_lt(self.file_path@, other.file_path@)
        ||| self.file_path@ == other.file_path@ && opt_seq_lt(opt_text(self.symbol_id), opt_text(other.symbol_id))
        ||| self.file_path@ == other.file_path@ && opt_text(self.symbol_id) == opt_text(other.symbol_id)
            && self.start_line <= other.start_line
    }

    proof fn lemma_le_transitive(a: Self, b: Self, c: Self) {
        lemma_seq_lt_irreflexive(a.file_path@);
        lemma_seq_lt_irreflexive(b.file_path@);
        if seq_lt(a.file_path@, b.file_path@) && seq_lt(b.file_path@, c.file_path@) {
            lemma_seq_lt_transitive(a.file_path@, b.file_path@, c.file_path@);
        }
        let (x, y, z) = (opt_text(a.symbol_id), opt_text(b.symbol_id), opt_text(c.symbol_id));
        if x is Some && y is Some && z is Some && seq_lt(x->0, y->0) && seq_lt(y->0, z->0) {
            lemma_seq_lt_transitive(x->0, y->0, z->0);
        }
    }

    proof fn lemma_le_total(a: Self, b: Self) {
        lemma_seq_lt_total(a.file_path@, b.file_path@);
        let (x, y) = (opt_text(a.symbol_id), opt_text(b.symbol_id));
        if x is Some && y is Some {
            lemma_seq_lt_total(x->0, y->0);
        }
    }

    fn le_exec(&self, other: &Self) -> (r: bool) {
        if text_less(self.file_path.as_str(), other.file_path.as_str()) {
            return true;
        }
        if !text_eq(self.file_path.as_str(), other.file_path.as_str()) {
            return false;
        }
        match (&self.symbol_id, &other.symbol_id) {
            (None, None) => self.start_line <= other.start_line,
            (None, Some(_)) => true,
            (Some(_), None) => false,
            (Some(x), Some(y)) => {
                if text_less(x.as_str(), y.as_str()) {
                    true
                } else if text_eq(x.as_str(), y.as_str()) {
                    self.start_line <= other.start_line
                } else {
                    false
                }
            },
        }
    }
}

/// Warnings by identifier.
impl Ordered for SourceContextWarning {
    open spec fn le(self, other: Self) -> bool {
        seq_le(self.id@, other.id@)
    }

    proof fn lemma_le_transitive(a: Self, b: Self, c: Self) {
        if seq_lt(a.id@, b.id@) && seq_lt(b.id@, c.id@) {
            lemma_seq_lt_transitive(a.id@, b.id@, c.id@);
        }
    }

    proof fn lemma_le_total(a: Self, b: Self) {
        lemma_seq_lt_total(a.id@, b.id@);
    }

    fn le_exec(&self, other: &Self) -> (r: bool) {
        text_less(self.id.as_str(), other.id.as_str()) || text_eq(self.id.as_str(), other.id.as_str())
    }
}

impl SameItem for SourceContextWarning {
    open spec fn same(self, other: Self) -> bool {
        self.id@ == other.id@
    }

    fn same_exec(&self, other: &Self) -> (r: bool) {
        text_eq(self.id.as_str(), other.id.as_str())
    }
}

// ---------------------------------------------------------------------------
// The report
// ---------------------------------------------------------------------------

/// No slice: insufficient evidence; a warning (or error) among the warnings: partial.
pub open spec fn context_status(slices: Seq<SourceContextSlice>, warnings: Seq<SourceContextWarning>) -> SourceContextStatus {
    if slices.len() == 0 {
        SourceContextStatus::InsufficientEvidence
    } else if exists|i: int| 0 <= i < warnings.len() && #[trigger] warnings[i].severity != DetectionSeverity::Info {
        SourceContextStatus::Partial
    } else {
        SourceContextStatus::Complete
    }
}

fn context_status_exec(slices: &Vec<SourceContextSlice>, warnings: &Vec<SourceContextWarning>) -> (r: SourceContextStatus)
    ensures
        r == context_status(slices@, warnings@),
{
    if slices.len() == 0 {
        return SourceContextStatus::InsufficientEvidence;
    }
    let mut i: usize = 0;
    while i < warnings.len()
        invariant
            i <= warnings@.len(),
            slices@.len() > 0,
            forall|k: int| 0 <= k < i ==> (#[trigger] warnings@[k]).severity == DetectionSeverity::Info,
        decreases warnings@.len() - i,
    {
        if warnings[i].severity != DetectionSeverity::Info {
            assert(exists|k: int| 0 <= k < warnings@.len() && #[trigger] warnings@[k].severity != DetectionSeverity::Info) by {
                assert(warnings@[i as int].severity != DetectionSeverity::Info);
            }
            return SourceContextStatus::Partial;
        }
        i = i + 1;
    }
    SourceContextStatus::Complete
}

/// The identifier of the warning every report carries.
pub open spec fn not_localization_id() -> Seq<char> {
    stable_id_spec("source-context-warning"@, "source-context-not-localization"@)
}

/// The warning that a source context is not a localization result.
pub open spec fn is_not_localization_warning(w: SourceContextWarning) -> bool {
    &&& w.id@ == not_localization_id()
    &&& w.severity == DetectionSeverity::Info
    &&& w.category == SourceContextWarningCategory::SourceContextNotLocalization
    &&& w.path is None
    &&& w.evidence_id is None
}

fn not_localization_warning() -> (w: SourceContextWarning)
    ensures
        is_not_localization_warning(w),
{
    SourceContextWarning {
        id: stable_id("source-context-warning", "source-context-not-localization"),
        severity: DetectionSeverity::Info,
        category: SourceContextWarningCategory::SourceContextNotLocalization,
        message: owned("SourceContext is read-only source text context, not an edit localization result."),
        path: None,
        evidence_id: None,
    }
}

/// Some warning has the identifier.
pub open spec fn warned(ws: Seq<SourceContextWarning>, id: Seq<char>) -> bool {
    exists|j: int| 0 <= j < ws.len() && #[trigger] ws[j].id@ == id
}

/// What every report says it does not do.
pub open spec fn context_limitations() -> Seq<Seq<char>> {
    seq![
        "SourceContext uses explicit selectors only."@,
        "SourceContext returns read-only bounded snippets, not edit targets."@,
        "No reference resolution, call graph, LSP diagnostics, or patch planning."@,
        "Rust source files only in this phase."@,
    ]
}

fn context_limitation_texts() -> (r: Vec<String>)
    ensures
        views(r@) == context_limitations(),
{
    let mut r: Vec<String> = Vec::new();
    r.push(owned("SourceContext uses explicit selectors only."));
    r.push(owned("SourceContext returns read-only bounded snippets, not edit targets."));
    r.push(owned("No reference resolution, call graph, LSP diagnostics, or patch planning."));
    r.push(owned("Rust source files only in this phase."));
    assert(views(r@) =~= context_limitations());
    r
}

/// At most `MAX_SLICES` slices, each within its line and byte limits, whose texts
/// add up to at most `MAX_TOTAL_BYTES` bytes.
pub open spec fn report_bounded(r: SourceContextReport) -> bool {
    &&& r.slices@.len() <= MAX_SLICES
    &&& forall|i: int| 0 <= i < r.slices@.len() ==> slice_bounded(#[trigger] r.slices@[i])
    &&& slice_bytes(r.slices@) <= MAX_TOTAL_BYTES
}

proof fn lemma_slice_bytes_remove(s: Seq<SourceContextSlice>, j: int)
    requires
        0 <= j < s.len(),
    ensures
        slice_bytes(s) == slice_bytes(s.remove(j)) + utf8_len(s[j].text@),
    decreases s.len(),
{
    if j == s.len() - 1 {
        assert(s.remove(j) =~= s.drop_last());
    } else {
        lemma_slice_bytes_remove(s.drop_last(), j);
        assert(s.remove(j).drop_last() =~= s.drop_last().remove(j));
        assert(s.remove(j).last() == s.last());
    }
}

proof fn lemma_slice_bytes_perm(a: Seq<SourceContextSlice>, b: Seq<SourceContextSlice>)
    requires
        a.to_multiset() == b.to_multiset(),
    ensures
        slice_bytes(a) == slice_bytes(b),
    decreases a.len(),
{
    broadcast use vstd::seq_lib::group_to_multiset_ensures;
    broadcast use vstd::multiset::group_multiset_axioms;

    if a.len() == 0 {
        assert(b.len() == a.to_multiset().len());
    } else {
        let x = a.last();
        let a2 = a.drop_last();
        assert(a =~= a2.push(x));
        assert(a.to_multiset().count(x) > 0);
        assert(b.contains(x));
        let j = choose|j: int| 0 <= j < b.len() && b[j] == x;
        let b2 = b.remove(j);
        assert(b2.to_multiset() =~= b.to_multiset().remove(x)) by {
            b.to_multiset_ensures();
        }
        assert(a2.to_multiset() =~= a.to_multiset().remove(x));
        lemma_slice_bytes_perm(a2, b2);
        lemma_slice_bytes_remove(b, j);
    }
}

/// Warning identifiers in strictly increasing order: no identifier twice.
pub open spec fn warning_ids_increasing(ws: Seq<SourceContextWarning>) -> bool {
    forall|i: int, j: int| 0 <= i < j < ws.len() ==> seq_lt(#[trigger] ws[i].id@, #[trigger] ws[j].id@)
}

proof fn lemma_dedup_warnings_increasing(s: Seq<SourceContextWarning>)
    requires
        sorted(s),
    ensures
        warning_ids_increasing(dedup_spec(s)),
    decreases s.len(),
{
    if s.len() > 0 {
        let d = s.drop_last();
        assert(sorted(d)) by {
            assert forall|i: int, j: int| 0 <= i < j < d.len() implies (#[trigger] d[i]).le(#[trigger] d[j]) by {
                assert(s[i] == d[i] && s[j] == d[j]);
            }
        }
        lemma_dedup_warnings_increasing(d);
        lemma_dedup_sorted(d);
        lemma_dedup_subset(d);
        let prev = dedup_spec(d);
        let cur = dedup_spec(s);
        if !(prev.len() > 0 && s.last().same(prev.last())) {
            assert forall|i: int, j: int| 0 <= i < j < cur.len() implies seq_lt(#[trigger] cur[i].id@, #[trigger] cur[j].id@) by {
                if j < prev.len() {
                    assert(cur[i] == prev[i] && cur[j] == prev[j]);
                } else {
                    let x = s.last();
                    assert(cur[j] == x);
                    let p = prev.last();
                    assert(d.contains(p)) by {
                        assert(p == prev[prev.len() - 1]);
                    }
                    let k = choose|k: int| 0 <= k < d.len() && d[k] == p;
                    assert(s[k] == p);
                    assert(s[k].le(s[s.len() - 1]));
                    assert(seq_le(p.id@, x.id@));
                    assert(p.id@ != x.id@);
                    if i < prev.len() - 1 {
                        assert(cur[i] == prev[i]);
                        assert(seq_lt(prev[i].id@, prev[prev.len() - 1].id@));
                        lemma_seq_lt_transitive(cur[i].id@, p.id@, x.id@);
                    } else {
                        assert(cur[i] == p);
                    }
                }
            }
        }
    }
}

impl SourceContextBuilder {
    /// The report: slices ordered by file, symbol and line; evidence and warnings
    /// ordered by identifier with repetitions dropped, the warning that a source
    /// context is no localization among them; and the status they give.
    pub fn finish(self) -> (r: SourceContextReport)
        ensures
            r.contract_version@ == SOURCE_CONTEXT_CONTRACT_VERSION@,
            r.selectors == self.selectors,
            sorted(r.slices@),
            r.slices@.to_multiset() == self.slices@.to_multiset(),
            sorted(r.evidence@),
            evidence_id_set(r.evidence@) == evidence_id_set(self.evidence@),
            exists|p: Seq<Evidence>| sorted(p) && p.to_multiset() == self.evidence@.to_multiset() && r.evidence@ == dedup_spec(p),
            sorted(r.warnings@),
            exists|w: SourceContextWarning, p: Seq<SourceContextWarning>| #![trigger is_not_localization_warning(w), dedup_spec(p)]
                is_not_localization_warning(w) && sorted(p) && p.to_multiset() == self.warnings@.push(w).to_multiset()
                && r.warnings@ == dedup_spec(p),
            exists|i: int| 0 <= i < r.warnings@.len() && #[trigger] r.warnings@[i].id@ == not_localization_id(),
            warning_ids_increasing(r.warnings@),
            ids_strictly_increasing(r.evidence@),
            forall|i: int, j: int|
                0 <= i < r.warnings@.len() && 0 <= j < r.warnings@.len() && (#[trigger] r.warnings@[i]).id@ == not_localization_id()
                    && (#[trigger] r.warnings@[j]).id@ == not_localization_id() ==> i == j,
            forall|w: SourceContextWarning| #[trigger] self.warnings@.contains(w) ==> warned(r.warnings@, w.id@),
            r.status == context_status(r.slices@, r.warnings@),
            views(r.limitations@) == context_limitations(),
            self.wf() ==> source_context_valid(r) && report_bounded(r),
    {
        let ghost b = self;
        let SourceContextBuilder { selectors, slices, evidence, warnings, total_bytes } = self;
        let slices = sort_items(slices);
        let sorted_ev = sort_items(evidence);
        let evidence = dedup_items(sorted_ev);
        let mut all_warnings = warnings;
        let nl = not_localization_warning();
        all_warnings.push(nl);
        let sorted_w = sort_items(all_warnings);
        let warnings = dedup_items(sorted_w);
        let status = context_status_exec(&slices, &warnings);
        let r = SourceContextReport {
            contract_version: owned(SOURCE_CONTEXT_CONTRACT_VERSION),
            status,
            selectors,
            slices,
            evidence,
            warnings,
            limitations: context_limitation_texts(),
        };
        proof {
            lemma_dedup_strictly_increasing(sorted_ev@);
            lemma_dedup_warnings_increasing(sorted_w@);
            assert forall|i: int, j: int|
                0 <= i < r.warnings@.len() && 0 <= j < r.warnings@.len() && (#[trigger] r.warnings@[i]).id@ == not_localization_id()
                    && (#[trigger] r.warnings@[j]).id@ == not_localization_id() implies i == j by {
                if i < j {
                    lemma_seq_lt_irreflexive(r.warnings@[i].id@);
                } else if j < i {
                    lemma_seq_lt_irreflexive(r.warnings@[j].id@);
                }
            }
            lemma_dedup_sorted(sorted_ev@);
            lemma_dedup_sorted(sorted_w@);
            lemma_dedup_evidence_ids(sorted_ev@);
            lemma_same_elements_ids(sorted_ev@, b.evidence@);
            lemma_same_elements(r.slices@, b.slices@);
            lemma_same_elements(sorted_w@, all_warnings@);
            lemma_dedup_subset(sorted_w@);
            crate::order::lemma_dedup_covers(sorted_w@);
            assert(all_warnings@.contains(nl)) by {
                assert(all_warnings@[all_warnings@.len() - 1] == nl);
            }
            assert(sorted_w@.contains(nl));
            let k = choose|k: int| 0 <= k < sorted_w@.len() && sorted_w@[k] == nl;
            assert(sorted_w@[k] == nl);
            if !r.warnings@.contains(nl) {
                let j = choose|j: int| 0 <= j < r.warnings@.len() && nl.same(#[trigger] r.warnings@[j]);
                assert(r.warnings@[j].id@ == not_localization_id());
            } else {
                let j = choose|j: int| 0 <= j < r.warnings@.len() && r.warnings@[j] == nl;
                assert(r.warnings@[j].id@ == not_localization_id());
            }
            assert forall|w: SourceContextWarning| #[trigger] b.warnings@.contains(w) implies warned(r.warnings@, w.id@) by {
                let i = choose|i: int| 0 <= i < b.warnings@.len() && b.warnings@[i] == w;
                assert(all_warnings@[i] == w);
                assert(all_warnings@.contains(w));
                assert(sorted_w@.contains(w));
                let k = choose|k: int| 0 <= k < sorted_w@.len() && sorted_w@[k] == w;
                if r.warnings@.contains(sorted_w@[k]) {
                    let j = choose|j: int| 0 <= j < r.warnings@.len() && r.warnings@[j] == w;
                    assert(r.warnings@[j].id@ == w.id@);
                } else {
                    let j = choose|j: int| 0 <= j < r.warnings@.len() && sorted_w@[k].same(#[trigger] r.warnings@[j]);
                    assert(r.warnings@[j].id@ == w.id@);
                }
            }
            if b.wf() {
                let known = evidence_id_set(b.evidence@);
                assert forall|i: int| 0 <= i < r.slices@.len() implies ids_backed((#[trigger] r.slices@[i]).evidence_ids@, known) && slice_bounded(r.slices@[i]) by {
                    assert(r.slices@.contains(r.slices@[i]));
                    let j = choose|j: int| 0 <= j < b.slices@.len() && b.slices@[j] == r.slices@[i];
                    assert(ids_backed(b.slices@[j].evidence_ids@, known));
                }
                assert forall|i: int| 0 <= i < r.warnings@.len() implies opt_backed((#[trigger] r.warnings@[i]).evidence_id, known) by {
                    assert(sorted_w@.contains(r.warnings@[i]));
                    assert(all_warnings@.contains(r.warnings@[i]));
                    let j = choose|j: int| 0 <= j < all_warnings@.len() && all_warnings@[j] == r.warnings@[i];
                    if j < b.warnings@.len() {
                        assert(all_warnings@[j] == b.warnings@[j]);
                    }
                }
                lemma_slice_bytes_perm(r.slices@, b.slices@);
            }
        }
        r
    }
}

// ---------------------------------------------------------------------------
// Lengths of identifiers
// ---------------------------------------------------------------------------

/// The number of ASCII letters and digits.
spec fn alnum_count(s: Seq<char>) -> nat
    decreases s.len(),
{
    if s.len() == 0 {
        0
    } else {
        alnum_count(s.drop_last()) + if is_alnum(s.last()) { 1nat } else { 0nat }
    }
}

proof fn lemma_slug_len(s: Seq<char>)
    ensures
        alnum_count(s) <= slug(s).len() <= s.len(),
        s.len() > 0 && slug(s).len() > 0 && !is_alnum(s.last()) ==> slug(s).len() < s.len(),
    decreases s.len(),
{
    if s.len() > 0 {
        lemma_slug_len(s.drop_last());
        let d = s.drop_last();
        if d.len() > 0 {
            assert(d.last() == s[s.len() - 2]);
        }
    }
}

proof fn lemma_alnum_count_append(a: Seq<char>, b: Seq<char>)
    ensures
        alnum_count(a + b) == alnum_count(a) + alnum_count(b),
    decreases b.len(),
{
    if b.len() == 0 {
        assert(a + b =~= a);
    } else {
        lemma_alnum_count_append(a, b.drop_last());
        assert((a + b).drop_last() =~= a + b.drop_last());
        assert((a + b).last() == b.last());
    }
}

/// The warning for no selectors and the not-localization warning have different
/// identifiers: the first is longer.
proof fn lemma_no_selector_id_differs()
    ensures
        warning_id(SourceContextWarningCategory::MissingFile, None, "No source context selectors were provided."@) != not_localization_id(),
{
    reveal_strlit("No source context selectors were provided.");
    reveal_strlit("source-context-warning");
    reveal_strlit("source-context-not-localization");
    reveal_strlit("MissingFile");
    reveal_strlit("repo");
    reveal_strlit("-");
    reveal_strlit("No source ");
    reveal_strlit("context ");
    reveal_strlit("selectors were provided.");
    let m = "No source context selectors were provided."@;
    let p = category_name(SourceContextWarningCategory::MissingFile) + "-"@ + "repo"@ + "-"@;
    let m1 = "No source "@;
    let m2 = "context "@;
    let m3 = "selectors were provided."@;
    assert(m =~= m1 + m2 + m3);
    lemma_alnum_count_append(p, m);
    lemma_alnum_count_append(m1 + m2, m3);
    lemma_alnum_count_append(m1, m2);
    assert(alnum_count(m1) == 8) by {
        reveal_with_fuel(alnum_count, 11);
    }
    assert(alnum_count(m2) == 7) by {
        reveal_with_fuel(alnum_count, 9);
    }
    assert(alnum_count(m3) >= 17) by {
        let m4 = "selectors "@;
        let m5 = "were provided."@;
        reveal_strlit("selectors ");
        reveal_strlit("were provided.");
        assert(m3 =~= m4 + m5);
        lemma_alnum_count_append(m4, m5);
        assert(alnum_count(m4) == 9) by {
            reveal_with_fuel(alnum_count, 11);
        }
        let m6 = "were "@;
        let m7 = "provided."@;
        reveal_strlit("were ");
        reveal_strlit("provided.");
        assert(m5 =~= m6 + m7);
        lemma_alnum_count_append(m6, m7);
        assert(alnum_count(m6) == 4) by {
            reveal_with_fuel(alnum_count, 6);
        }
        assert(alnum_count(m7) == 8) by {
            reveal_with_fuel(alnum_count, 10);
        }
    }
    let v = p + m;
    lemma_slug_len(v);
    lemma_slug_len("source-context-not-localization"@);
    assert(slug(v).len() >= 32);
    assert(slug("source-context-not-localization"@).len() <= 31);
    assert(warning_id(SourceContextWarningCategory::MissingFile, None, m) == stable_id_spec("source-context-warning"@, v));
}

// ---------------------------------------------------------------------------
// Building a report from selectors
// ---------------------------------------------------------------------------

impl SourceContextSelector {
    pub fn duplicate(&self) -> (r: SourceContextSelector)
        ensures
            r == *self,
    {
        match self {
            SourceContextSelector::File { path, line_range } => SourceContextSelector::File {
                path: path.clone(),
                line_range: *line_range,
            },
            SourceContextSelector::SymbolId { symbol_id } => SourceContextSelector::SymbolId { symbol_id: symbol_id.clone() },
        }
    }
}

fn copy_selectors(v: &Vec<SourceContextSelector>) -> (r: Vec<SourceContextSelector>)
    ensures
        r@ == v@,
{
    let mut r: Vec<SourceContextSelector> = Vec::new();
    let mut i: usize = 0;
    while i < v.len()
        invariant
            i <= v@.len(),
            r@ == v@.take(i as int),
        decreases v@.len() - i,
    {
        r.push(v[i].duplicate());
        assert(r@ =~= v@.take(i + 1));
        i = i + 1;
    }
    assert(v@.take(v@.len() as int) =~= v@);
    r
}

/// The path of the file that holds the first symbol with the identifier: the file
/// whose bytes a symbol selector slices.
pub fn symbol_path_for(symbol_graph: &SymbolGraph, symbol_id: &str) -> (r: Option<String>)
    ensures
        match first_symbol(symbol_graph.symbols@, symbol_id@) {
            Some(i) => r matches Some(p) && p@ == symbol_graph.symbols@[i].path@,
            None => r is None,
        },
{
    match find_symbol(&symbol_graph.symbols, symbol_id) {
        Some(i) => Some(symbol_graph.symbols[i].path.clone()),
        None => None,
    }
}

/// What one selector does to the builder, with what was read for it.
pub open spec fn selector_step(
    before: SourceContextBuilder,
    after: SourceContextBuilder,
    symbol_graph: SymbolGraph,
    selector: SourceContextSelector,
    input: SelectorInput,
) -> bool {
    match selector {
        SourceContextSelector::File { path, line_range } => file_selector_step(before, after, path@, line_range, input),
        SourceContextSelector::SymbolId { symbol_id } => symbol_selector_step(
            before,
            after,
            symbol_graph.symbols@,
            symbol_id@,
            opt_bytes(input.bytes),
        ),
    }
}

/// `states` is a run of the selectors over a builder that starts with no slice, no
/// evidence and no bytes: state `k + 1` is what selector `k` makes of state `k`.
pub open spec fn selector_run(
    states: Seq<SourceContextBuilder>,
    symbol_graph: SymbolGraph,
    selectors: Seq<SourceContextSelector>,
    inputs: Seq<SelectorInput>,
) -> bool {
    &&& states.len() == selectors.len() + 1
    &&& states[0].slices@.len() == 0
    &&& states[0].evidence@.len() == 0
    &&& states[0].total_bytes == 0
    &&& forall|k: int|
        0 <= k < selectors.len() ==> #[trigger] selector_step(states[k], states[k + 1], symbol_graph, selectors[k], inputs[k])
}

pub open spec fn selector_limit(n: nat) -> nat {
    if n < MAX_SLICES {
        n
    } else {
        MAX_SLICES as nat
    }
}

/// The source context for explicit selectors: the first `MAX_SLICES` selectors are
/// sliced, each with what was read for it (`inputs`, one per selector: for a file
/// selector how its path resolves and the file's bytes, for a symbol selector the
/// bytes of the symbol's file).
pub fn build_source_context_report_from_symbols(
    symbol_graph: &SymbolGraph,
    selectors: Vec<SourceContextSelector>,
    inputs: Vec<SelectorInput>,
) -> (r: SourceContextReport)
    requires
        inputs@.len() == selectors@.len(),
    ensures
        r.contract_version@ == SOURCE_CONTEXT_CONTRACT_VERSION@,
        r.selectors@ == selectors@,
        r.slices@.len() <= selectors@.len(),
        sorted(r.slices@),
        sorted(r.evidence@),
        sorted(r.warnings@),
        r.status == context_status(r.slices@, r.warnings@),
        views(r.limitations@) == context_limitations(),
        warned(r.warnings@, not_localization_id()),
        selectors@.len() == 0 ==> r.slices@.len() == 0 && r.status == SourceContextStatus::InsufficientEvidence,
        selectors@.len() == 0 ==> warned(r.warnings@, warning_id(
            SourceContextWarningCategory::MissingFile,
            None,
            "No source context selectors were provided."@,
        )),
        selectors@.len() == 0 ==> exists|i: int|
            0 <= i < r.warnings@.len() && (#[trigger] r.warnings@[i]).category == SourceContextWarningCategory::MissingFile
                && r.warnings@[i].path is None && r.warnings@[i].message@ == "No source context selectors were provided."@,
        selectors@.len() > MAX_SLICES ==> warned(r.warnings@, warning_id(
            SourceContextWarningCategory::SourceContextLimitExceeded,
            None,
            "Source context selector limit was exceeded; selectors were truncated."@,
        )),
        source_context_valid(r),
        report_bounded(r),
        exists|states: Seq<SourceContextBuilder>|
            #[trigger] selector_run(
                states,
                *symbol_graph,
                selectors@.take(selector_limit(selectors@.len()) as int),
                inputs@.take(selector_limit(selectors@.len()) as int),
            ) && r.slices@.to_multiset() == states.last().slices@.to_multiset()
                && evidence_id_set(r.evidence@) == evidence_id_set(states.last().evidence@),
{
    let n = selectors.len();
    let ghost sels = selectors@;
    let ghost ins = inputs@;
    let chosen = copy_selectors(&selectors);
    let mut builder = SourceContextBuilder::new(selectors);
    if n == 0 {
        builder.add_warning(
            DetectionSeverity::Warning,
            SourceContextWarningCategory::MissingFile,
            "No source context selectors were provided.",
            None,
            None,
        );
        assert(builder.warnings@.contains(builder.warnings@.last()));
    }
    let ghost early = builder.warnings@;
    let limit: usize = if n < MAX_SLICES { n } else { MAX_SLICES };
    let mut rest = inputs;
    let mut k: usize = 0;
    let ghost mut states: Seq<SourceContextBuilder> = seq![builder];
    while k < limit
        invariant
            k <= limit <= n,
            limit == selector_limit(n as nat),
            n == chosen@.len(),
            chosen@ == sels,
            ins.len() == n,
            builder.wf(),
            builder.selectors@ == chosen@,
            builder.slices@.len() <= k,
            rest@ == ins.skip(k as int),
            kept_prefix(early, builder.warnings@),
            k == 0 ==> builder.warnings@ == early,
            states.len() == k + 1,
            states.last() == builder,
            states[0].slices@.len() == 0,
            states[0].evidence@.len() == 0,
            states[0].total_bytes == 0,
            forall|i: int| 0 <= i < k ==> #[trigger] selector_step(states[i], states[i + 1], *symbol_graph, sels[i], ins[i]),
        decreases limit - k,
    {
        assert(rest@[0] == ins[k as int]);
        let input = rest.remove(0);
        assert(rest@ =~= ins.skip(k + 1));
        let ghost before = builder;
        match &chosen[k] {
            SourceContextSelector::File { path, line_range } => {
                builder.add_file_slice(path.as_str(), *line_range, input);
            },
            SourceContextSelector::SymbolId { symbol_id } => {
                builder.add_symbol_slice(symbol_graph, symbol_id.as_str(), input.bytes);
            },
        }
        assert(selector_step(before, builder, *symbol_graph, sels[k as int], ins[k as int]));
        proof {
            states = states.push(builder);
        }
        k = k + 1;
    }
    let ghost last_state = builder;
    assert(selector_run(states, *symbol_graph, sels.take(limit as int), ins.take(limit as int)));
    if n > MAX_SLICES {
        builder.add_warning(
            DetectionSeverity::Warning,
            SourceContextWarningCategory::SourceContextLimitExceeded,
            "Source context selector limit was exceeded; selectors were truncated.",
            None,
            None,
        );
        assert(builder.warnings@.contains(builder.warnings@.last()));
    }
    proof {
        reveal_strlit("No source context selectors were provided.");
        reveal_strlit("Source context selector limit was exceeded; selectors were truncated.");
        if n == 0 {
            assert(builder.warnings@.contains(early.last()));
        }
    }
    let ghost built = builder.slices@;
    let ghost final_warnings = builder.warnings@;
    assert(builder.slices@ == last_state.slices@ && builder.evidence@ == last_state.evidence@);
    let r = builder.finish();
    proof {
        broadcast use vstd::seq_lib::group_to_multiset_ensures;
        assert(r.slices@.to_multiset().len() == built.to_multiset().len());
        assert(states.last() == last_state);
        if n == 0 {
            let mw = early.last();
            assert(early.len() == 1);
            assert(final_warnings =~= seq![mw]);
            let id = warning_id(SourceContextWarningCategory::MissingFile, None, "No source context selectors were provided."@);
            assert(mw.id@ == id);
            let j = choose|j: int| 0 <= j < r.warnings@.len() && #[trigger] r.warnings@[j].id@ == id;
            let (w, p) = choose|w: SourceContextWarning, p: Seq<SourceContextWarning>| #![trigger is_not_localization_warning(w), dedup_spec(p)]
                is_not_localization_warning(w) && sorted(p) && p.to_multiset() == final_warnings.push(w).to_multiset()
                && r.warnings@ == dedup_spec(p);
            crate::order::lemma_dedup_subset(p);
            assert(p.contains(r.warnings@[j]));
            lemma_same_elements(p, final_warnings.push(w));
            assert(final_warnings.push(w).contains(r.warnings@[j]));
            let k = choose|k: int| 0 <= k < final_warnings.push(w).len() && final_warnings.push(w)[k] == r.warnings@[j];
            lemma_no_selector_id_differs();
            if k == 1 {
                assert(r.warnings@[j] == w);
                assert(false);
            }
            assert(r.warnings@[j] == mw);
        }
    }
    r
}

} // verus!
