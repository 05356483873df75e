use vstd::prelude::*;

use super::builder::{is_lsp_not_localization, is_partial_category, LspDiagnosticsBuilder};
use super::{
    LspRequestInfo, LspServerInfo, LspWarning, DEFAULT_RUST_ANALYZER_COMMAND, lsp_report_valid, lsp_severity, severity_of, LspAvailabilityStatus, LspDiagnosticSeverity, LspDiagnosticsOptions,
    LspDiagnosticsReport, LspRange, LspWarningCategory,
};
use crate::order::{sort_items, sorted};
use crate::repo_graph::types::{copy_opt_string, opt_text};
use crate::source_context::builder::{escapes_root, escapes_root_exec, has_ignored_part, has_ignored_part_exec};
use crate::text::{chars_of, concat2, normalize_slashes, owned, slashes, starts_with_text, string_from_chars, trim_text, trim_ws};
use crate::textset::views;

verus! {

// ---------------------------------------------------------------------------
// Requested files
// ---------------------------------------------------------------------------

/// How a requested file resolves under the workspace root.
pub enum LspFileProbe {
    /// Nothing exists at the path.
    Missing,
    /// The path is a symbolic link.
    Symlink,
    /// The path could not be resolved.
    Unresolved,
    /// The path resolves outside the workspace root.
    Outside,
    /// The path resolves inside the root; `rust` tells whether it names a `.rs` file.
    Resolved { rust: bool },
}

/// Why a requested file is skipped, if it is: it escapes the root, lies in an
/// ignored directory, or resolves as the probe says.
pub open spec fn file_verdict(file: Seq<char>, probe: LspFileProbe) -> Option<LspWarningCategory> {
    if escapes_root(file) {
        Some(LspWarningCategory::PathOutsideRepo)
    } else if has_ignored_part(file) {
        Some(LspWarningCategory::IgnoredPath)
    } else {
        match probe {
            LspFileProbe::Missing => Some(LspWarningCategory::MissingFile),
            LspFileProbe::Symlink => Some(LspWarningCategory::SymlinkIgnored),
            LspFileProbe::Unresolved => Some(LspWarningCategory::MissingFile),
            LspFileProbe::Outside => Some(LspWarningCategory::PathOutsideRepo),
            LspFileProbe::Resolved { rust } => if rust {
                None
            } else {
                Some(LspWarningCategory::UnsupportedLanguage)
            },
        }
    }
}

/// The files kept, with `/` separators, in request order.
pub open spec fn accepted_files(files: Seq<Seq<char>>, probes: Seq<LspFileProbe>) -> Seq<Seq<char>>
    decreases files.len(),
{
    if files.len() == 0 {
        seq![]
    } else {
        let prev = accepted_files(files.drop_last(), probes);
        if file_verdict(files.last(), probes[files.len() - 1]) is None {
            prev.push(slashes(files.last()))
        } else {
            prev
        }
    }
}

/// The files skipped, each with the category of its warning, in request order.
pub open spec fn rejected_files(files: Seq<Seq<char>>, probes: Seq<LspFileProbe>) -> Seq<(Seq<char>, LspWarningCategory)>
    decreases files.len(),
{
    if files.len() == 0 {
        seq![]
    } else {
        let prev = rejected_files(files.drop_last(), probes);
        match file_verdict(files.last(), probes[files.len() - 1]) {
            Some(c) => prev.push((files.last(), c)),
            None => prev,
        }
    }
}

/// The builder only gained warnings at the end, one for each skipped file.
pub open spec fn warned_for(before: LspDiagnosticsBuilder, after: LspDiagnosticsBuilder, rejected: Seq<(Seq<char>, LspWarningCategory)>) -> bool {
    let n = before.warnings@.len();
    &&& after.warnings@.len() == n + rejected.len()
    &&& forall|k: int| 0 <= k < n ==> after.warnings@[k] == before.warnings@[k]
    &&& forall|k: int| 0 <= k < rejected.len() ==> {
        &&& (#[trigger] after.warnings@[n + k]).category == rejected[k].1
        &&& opt_text(after.warnings@[n + k].path) == Some(rejected[k].0)
    }
    &&& after.workspace_root == before.workspace_root
    &&& after.server == before.server
    &&& after.request == before.request
    &&& after.diagnostics@ == before.diagnostics@
    &&& after.evidence@ == before.evidence@
    &&& after.missing_evidence@ == before.missing_evidence@
}

fn reject_file(builder: &mut LspDiagnosticsBuilder, file: &String, probe: &LspFileProbe) -> (skipped: bool)
    requires
        old(builder).wf(),
    ensures
        final(builder).wf(),
        skipped == file_verdict(file@, *probe) is Some,
        warned_for(*old(builder), *final(builder), match file_verdict(file@, *probe) {
            Some(c) => seq![(file@, c)],
            None => seq![],
        }),
{
    let ghost b0 = *builder;
    let category = if escapes_root_exec(file.as_str()) {
        LspWarningCategory::PathOutsideRepo
    } else if has_ignored_part_exec(file.as_str()) {
        LspWarningCategory::IgnoredPath
    } else {
        match probe {
            LspFileProbe::Missing => LspWarningCategory::MissingFile,
            LspFileProbe::Symlink => LspWarningCategory::SymlinkIgnored,
            LspFileProbe::Unresolved => LspWarningCategory::MissingFile,
            LspFileProbe::Outside => LspWarningCategory::PathOutsideRepo,
            LspFileProbe::Resolved { rust } => {
                if *rust {
                    return false;
                }
                LspWarningCategory::UnsupportedLanguage
            },
        }
    };
    let (message, severity) = if escapes_root_exec(file.as_str()) {
        ("Requested diagnostics file must be repository-relative and contained in the workspace root.", "error")
    } else if has_ignored_part_exec(file.as_str()) {
        ("Ignored/generated path was skipped by LSP diagnostics.", "warning")
    } else {
        match probe {
            LspFileProbe::Missing => ("Requested diagnostics file does not exist.", "warning"),
            LspFileProbe::Symlink => ("LSP diagnostics do not follow symlinks.", "warning"),
            LspFileProbe::Unresolved => ("Requested diagnostics file could not be canonicalized.", "warning"),
            LspFileProbe::Outside => ("Requested diagnostics file is outside the workspace root.", "error"),
            LspFileProbe::Resolved { .. } => ("Phase 3B-A supports Rust diagnostics only.", "warning"),
        }
    };
    builder.warn(category, owned(message), Some(file.clone()), severity);
    assert(builder.warnings@[b0.warnings@.len() as int + 0] == builder.warnings@.last());
    true
}

/// Checks each requested file as its probe says, warning for the ones skipped; the
/// kept ones, with `/` separators, come back ordered.
pub fn validate_requested_files(files: &Vec<String>, probes: &Vec<LspFileProbe>, builder: &mut LspDiagnosticsBuilder) -> (r: Vec<String>)
    requires
        old(builder).wf(),
        probes@.len() == files@.len(),
    ensures
        final(builder).wf(),
        sorted(r@),
        views(r@).to_multiset() == accepted_files(views(files@), probes@).to_multiset(),
        warned_for(*old(builder), *final(builder), rejected_files(views(files@), probes@)),
{
    let ghost b0 = *builder;
    let mut valid: Vec<String> = Vec::new();
    let mut i: usize = 0;
    while i < files.len()
        invariant
            i <= files@.len(),
            probes@.len() == files@.len(),
            builder.wf(),
            views(valid@) == accepted_files(views(files@).take(i as int), probes@),
            warned_for(b0, *builder, rejected_files(views(files@).take(i as int), probes@)),
        decreases files@.len() - i,
    {
        let ghost b1 = *builder;
        let ghost t = views(files@).take(i + 1);
        assert(t.drop_last() =~= views(files@).take(i as int));
        assert(t.last() == files@[i as int]@);
        let skipped = reject_file(builder, &files[i], &probes[i]);
        if !skipped {
            let ghost v0 = views(valid@);
            valid.push(normalize_slashes(files[i].as_str()));
            assert(views(valid@) =~= v0.push(slashes(files@[i as int]@)));
        }
        proof {
            let prev = rejected_files(views(files@).take(i as int), probes@);
            let now = rejected_files(t, probes@);
            let n0 = b0.warnings@.len();
            assert forall|k: int| 0 <= k < now.len() implies {
                &&& (#[trigger] builder.warnings@[n0 + k]).category == now[k].1
                &&& opt_text(builder.warnings@[n0 + k].path) == Some(now[k].0)
            } by {
                if k < prev.len() {
                    assert(now[k] == prev[k]);
                    assert(builder.warnings@[n0 + k] == b1.warnings@[n0 + k]);
                } else {
                    assert(n0 + k == b1.warnings@.len() + 0);
                }
            }
            assert forall|k: int| 0 <= k < n0 implies builder.warnings@[k] == b0.warnings@[k] by {
                assert(builder.warnings@[k] == b1.warnings@[k]);
            }
        }
        i = i + 1;
    }
    assert(views(files@).take(files@.len() as int) =~= views(files@));
    let r = sort_items(valid);
    proof {
        crate::order::lemma_map_multiset(r@, valid@, |s: String| s@);
    }
    r
}

// ---------------------------------------------------------------------------
// Published diagnostics
// ---------------------------------------------------------------------------

/// The positions of an LSP range as published; an absent number counts as zero.
pub struct RawRange {
    pub start_line: Option<u64>,
    pub start_character: Option<u64>,
    pub end_line: Option<u64>,
    pub end_character: Option<u64>,
}

/// One published diagnostic, its JSON values read out.
pub struct PublishedItem {
    pub range: Option<RawRange>,
    pub severity: Option<u64>,
    pub message: Option<String>,
    pub code: Option<String>,
    pub source: Option<String>,
}

/// The parameters of a `textDocument/publishDiagnostics` notification.
pub struct PublishedParams {
    pub uri: Option<String>,
    pub items: Option<Vec<PublishedItem>>,
}

/// A published number, zero when it is missing.
pub open spec fn or_zero(v: Option<u64>) -> u64 {
    match v {
        Some(x) => x,
        None => 0,
    }
}

/// A published zero-based line as a one-based line: the next `usize`, wrapping round
/// to zero past the largest.
pub open spec fn one_based(v: Option<u64>) -> usize {
    let x = or_zero(v) as usize;
    if x == usize::MAX {
        0
    } else {
        (x + 1) as usize
    }
}

/// The range a published range stands for: one-based lines, characters as published,
/// each number taken as a `usize`.
pub open spec fn range_of(r: RawRange) -> LspRange {
    LspRange {
        start_line: one_based(r.start_line),
        start_character: or_zero(r.start_character) as usize,
        end_line: one_based(r.end_line),
        end_character: or_zero(r.end_character) as usize,
    }
}

fn or_zero_exec(v: Option<u64>) -> (r: u64)
    ensures
        r == or_zero(v),
{
    match v {
        Some(x) => x,
        None => 0,
    }
}

fn one_based_exec(v: Option<u64>) -> (r: usize)
    ensures
        r == one_based(v),
{
    let x = or_zero_exec(v) as usize;
    if x == usize::MAX {
        0
    } else {
        x + 1
    }
}

/// The one-based range of a published range.
pub fn parse_lsp_range(r: &RawRange) -> (out: LspRange)
    ensures
        out == range_of(*r),
{
    LspRange {
        start_line: one_based_exec(r.start_line),
        start_character: or_zero_exec(r.start_character) as usize,
        end_line: one_based_exec(r.end_line),
        end_character: or_zero_exec(r.end_character) as usize,
    }
}

/// The path of a diagnostic relative to the workspace root: the file URI without
/// `file://`, less the root and a separator.
pub open spec fn relative_to(path: Seq<char>, root: Seq<char>) -> Option<Seq<char>> {
    let base = if root.len() > 0 && root.last() == '/' { root } else { root + "/"@ };
    if path == root {
        Some(seq![])
    } else if base.is_prefix_of(path) {
        Some(path.skip(base.len() as int))
    } else {
        None
    }
}

/// The file of a notification, relative to the root, and its items; `None` when it
/// names no file under the root or has no items.
pub open spec fn publish_target(root: Seq<char>, params: Option<PublishedParams>) -> Option<(Seq<char>, Seq<PublishedItem>)> {
    match params {
        Some(p) => match p.uri {
            Some(uri) => if "file://"@.is_prefix_of(uri@) {
                match relative_to(uri@.skip(7), root) {
                    Some(rel) => match p.items {
                        Some(items) => Some((slashes(rel), items@)),
                        None => None,
                    },
                    None => None,
                }
            } else {
                None
            },
            None => None,
        },
        None => None,
    }
}

/// The items with a range, in order.
pub open spec fn ranged_items(items: Seq<PublishedItem>) -> Seq<PublishedItem>
    decreases items.len(),
{
    if items.len() == 0 {
        seq![]
    } else {
        let prev = ranged_items(items.drop_last());
        if items.last().range is Some {
            prev.push(items.last())
        } else {
            prev
        }
    }
}

/// The diagnostic recorded for a published item.
pub open spec fn recorded_from(d: super::LspDiagnostic, path: Seq<char>, item: PublishedItem) -> bool {
    &&& d.file_path@ == path
    &&& d.start_line == range_of(item.range->0).start_line
    &&& d.start_character == range_of(item.range->0).start_character
    &&& d.end_line == range_of(item.range->0).end_line
    &&& d.end_character == range_of(item.range->0).end_character
    &&& d.severity == (match item.severity {
        Some(v) => severity_of(v),
        None => LspDiagnosticSeverity::Unknown,
    })
    &&& d.message@ == (match item.message {
        Some(m) => m@,
        None => seq![],
    })
    &&& d.code == item.code
    &&& d.source == item.source
}

fn relative_to_exec(path: &str, root: &str) -> (r: Option<String>)
    ensures
        opt_text(r) == relative_to(path@, root@),
{
    let p = chars_of(path);
    let rt = chars_of(root);
    let mut base = chars_of(root);
    let rn = rt.len();
    if !(rn > 0 && rt[rn - 1] == '/') {
        base.push('/');
    }
    proof {
        reveal_strlit("/");
        assert(base@ == (if root@.len() > 0 && root@.last() == '/' { root@ } else { root@ + "/"@ }));
    }
    if crate::text::text_eq(path, root) {
        return Some(string_from_chars(&[]));
    }
    if base.len() > p.len() {
        return None;
    }
    let mut i: usize = 0;
    while i < base.len()
        invariant
            i <= base@.len() <= p@.len(),
            p@ == path@,
            path@ != root@,
            base@ == (if root@.len() > 0 && root@.last() == '/' { root@ } else { root@ + "/"@ }),
            forall|k: int| 0 <= k < i ==> base@[k] == p@[k],
        decreases base@.len() - i,
    {
        if base[i] != p[i] {
            assert(!base@.is_prefix_of(p@)) by {
                if base@.is_prefix_of(p@) {
                    assert(p@.take(base@.len() as int)[i as int] == p@[i as int]);
                }
            }
            return None;
        }
        i = i + 1;
    }
    assert(base@.is_prefix_of(p@)) by {
        assert(base@ =~= p@.take(base@.len() as int));
    }
    let rest = string_from_chars(&p.as_slice()[base.len()..p.len()]);
    assert(rest@ =~= p@.skip(base@.len() as int));
    Some(rest)
}

/// Records the diagnostics of a `textDocument/publishDiagnostics` notification: for a
/// file under the root, its items with a range, while the limit is not reached.
pub fn collect_publish_diagnostics(builder: &mut LspDiagnosticsBuilder, root: &str, params: Option<PublishedParams>)
    requires
        old(builder).wf(),
    ensures
        final(builder).wf(),
        final(builder).workspace_root == old(builder).workspace_root,
        final(builder).server == old(builder).server,
        final(builder).request == old(builder).request,
        final(builder).warnings@ == old(builder).warnings@,
        final(builder).missing_evidence@ == old(builder).missing_evidence@,
        forall|k: int| 0 <= k < old(builder).diagnostics@.len() ==> final(builder).diagnostics@[k] == old(builder).diagnostics@[k],
        match publish_target(root@, params) {
            Some((path, items)) => {
                let ranged = ranged_items(items);
                let n0 = old(builder).diagnostics@.len();
                let max = old(builder).request.max_diagnostics;
                let added = if n0 >= max { 0 } else if ranged.len() < max - n0 { ranged.len() as int } else { max - n0 };
                &&& final(builder).diagnostics@.len() == n0 + added
                &&& forall|j: int| 0 <= j < added ==> recorded_from(#[trigger] final(builder).diagnostics@[n0 + j], path, ranged[j])
            },
            None => final(builder).diagnostics@ == old(builder).diagnostics@,
        },
{
    let ghost b0 = *builder;
    let params = match params {
        Some(p) => p,
        None => return,
    };
    let PublishedParams { uri, items } = params;
    let uri = match uri {
        Some(u) => u,
        None => return,
    };
    proof {
        reveal_strlit("file://");
    }
    if !starts_with_text(uri.as_str(), "file://") {
        return;
    }
    let uv = chars_of(uri.as_str());
    let path = string_from_chars(&uv.as_slice()[7..uv.len()]);
    assert(path@ =~= uri@.skip(7));
    let rel = match relative_to_exec(path.as_str(), root) {
        Some(r) => r,
        None => return,
    };
    let rel = normalize_slashes(rel.as_str());
    let items = match items {
        Some(v) => v,
        None => return,
    };
    let ghost n0 = b0.diagnostics@.len();
    let max = builder.request.max_diagnostics;
    let mut i: usize = 0;
    assert(items@.take(0) =~= Seq::<PublishedItem>::empty());
    while i < items.len() && builder.diagnostics.len() < max
        invariant
            i <= items@.len(),
            builder.wf(),
            max == b0.request.max_diagnostics,
            builder.workspace_root == b0.workspace_root,
            builder.server == b0.server,
            builder.request == b0.request,
            builder.warnings@ == b0.warnings@,
            builder.missing_evidence@ == b0.missing_evidence@,
            builder.diagnostics@.len() >= n0,
            forall|k: int| 0 <= k < n0 ==> builder.diagnostics@[k] == b0.diagnostics@[k],
            n0 < max ==> builder.diagnostics@.len() == n0 + ranged_items(items@.take(i as int)).len(),
            n0 < max ==> builder.diagnostics@.len() <= max,
            n0 >= max ==> builder.diagnostics@ == b0.diagnostics@ && i == 0,
            forall|j: int| 0 <= j < builder.diagnostics@.len() - n0 ==> recorded_from(#[trigger] builder.diagnostics@[n0 + j], rel@, ranged_items(items@.take(i as int))[j]),
        decreases items@.len() - i,
    {
        let item = &items[i];
        let ghost t = items@.take(i + 1);
        assert(t.drop_last() =~= items@.take(i as int));
        assert(t.last() == items@[i as int]);
        match &item.range {
            None => {},
            Some(raw) => {
                let range = parse_lsp_range(raw);
                let severity = match item.severity {
                    Some(v) => lsp_severity(v),
                    None => LspDiagnosticSeverity::Unknown,
                };
                let message = match &item.message {
                    Some(m) => m.clone(),
                    None => string_from_chars(&[]),
                };
                let code = copy_opt_string(&item.code);
                let source = copy_opt_string(&item.source);
                let ghost d0 = builder.diagnostics@;
                builder.add_diagnostic(rel.clone(), range, severity, code, source, message);
                proof {
                    assert(builder.diagnostics@.last() == builder.diagnostics@[n0 + (d0.len() - n0)]);
                    let rp = ranged_items(items@.take(i as int));
                    let rn = ranged_items(t);
                    assert(rn == rp.push(items@[i as int]));
                    assert forall|j: int| 0 <= j < builder.diagnostics@.len() - n0 implies recorded_from(#[trigger] builder.diagnostics@[n0 + j], rel@, rn[j]) by {
                        if j < d0.len() - n0 {
                            assert(builder.diagnostics@[n0 + j] == d0[n0 + j]);
                            assert(rn[j] == rp[j]);
                        } else {
                            let d = builder.diagnostics@[n0 + j];
                            assert(d == builder.diagnostics@.last());
                            assert(rn[j] == items@[i as int]);
                            assert(d.file_path@ == rel@);
                            assert(*raw == items@[i as int].range->0);
                            assert(d.start_line == range_of(items@[i as int].range->0).start_line);
                            assert(d.severity == (match items@[i as int].severity { Some(v) => severity_of(v), None => LspDiagnosticSeverity::Unknown }));
                            assert(d.message@ == (match items@[i as int].message { Some(m) => m@, None => seq![] }));
                            assert(d.code == items@[i as int].code);
                        }
                    }
                }
            },
        }
        i = i + 1;
    }
    proof {
        lemma_ranged_prefix(items@, i as int);
        if i == items@.len() {
            assert(items@.take(i as int) =~= items@);
        }
    }
}

proof fn lemma_ranged_prefix(items: Seq<PublishedItem>, i: int)
    requires
        0 <= i <= items.len(),
    ensures
        ranged_items(items.take(i)).len() <= ranged_items(items).len(),
        forall|j: int| 0 <= j < ranged_items(items.take(i)).len() ==> #[trigger] ranged_items(items.take(i))[j] == ranged_items(items)[j],
    decreases items.len() - i,
{
    if i < items.len() {
        lemma_ranged_prefix(items, i + 1);
        let t = items.take(i + 1);
        assert(t.drop_last() =~= items.take(i));
        assert(t.len() > 0);
        let a = ranged_items(items.take(i));
        let b = ranged_items(t);
        assert forall|j: int| 0 <= j < a.len() implies #[trigger] a[j] == ranged_items(items)[j] by {
            assert(a[j] == b[j]);
        }
    } else {
        assert(items.take(i) =~= items);
    }
}

// ---------------------------------------------------------------------------
// The steps of a request
// ---------------------------------------------------------------------------

/// What a report keeps of the builder it was finished from: the server, the
/// request and the root, its warnings in order with the warning that diagnostics
/// are no localization among them.
pub open spec fn report_keeps(r: LspDiagnosticsReport, b: LspDiagnosticsBuilder) -> bool {
    &&& r.server == b.server
    &&& r.request == b.request
    &&& r.workspace_root == b.workspace_root
    &&& sorted(r.warnings@)
    &&& sorted(r.diagnostics@)
    &&& exists|i: int| 0 <= i < r.warnings@.len() && is_lsp_not_localization(#[trigger] r.warnings@[i])
}

/// The report names the item as missing evidence.
pub open spec fn reports_missing(r: LspDiagnosticsReport, item: Seq<char>) -> bool {
    exists|i: int| 0 <= i < r.missing_evidence@.len() && (#[trigger] r.missing_evidence@[i])@ == item
}

/// The report has a warning of the category.
pub open spec fn reports_warning(r: LspDiagnosticsReport, c: LspWarningCategory) -> bool {
    exists|i: int| 0 <= i < r.warnings@.len() && (#[trigger] r.warnings@[i]).category == c
}

proof fn lemma_not_localization_kept(after: Seq<LspWarning>, before: Seq<LspWarning>)
    requires
        exists|x: LspWarning| #[trigger] is_lsp_not_localization(x) && after.to_multiset() == before.push(x).to_multiset(),
    ensures
        exists|i: int| 0 <= i < after.len() && is_lsp_not_localization(#[trigger] after[i]),
{
    let x = choose|x: LspWarning| #[trigger] is_lsp_not_localization(x) && after.to_multiset() == before.push(x).to_multiset();
    assert(before.push(x).contains(x)) by {
        assert(before.push(x)[before.len() as int] == x);
    }
    crate::order::lemma_same_elements(after, before.push(x));
    let i = choose|i: int| 0 <= i < after.len() && after[i] == x;
}

proof fn lemma_missing_kept(after: Seq<String>, before: Seq<String>, item: Seq<char>)
    requires
        after.to_multiset() == before.to_multiset(),
        views(before).contains(item),
    ensures
        exists|i: int| 0 <= i < after.len() && (#[trigger] after[i])@ == item,
{
    let k = choose|k: int| 0 <= k < views(before).len() && views(before)[k] == item;
    assert(before.contains(before[k]));
    crate::order::lemma_same_elements(after, before);
    let i = choose|i: int| 0 <= i < after.len() && after[i] == before[k];
    assert(views(before)[k] == before[k]@);
}

/// Where a request stands: finished with a report, or going on with the builder and
/// the files to open.
pub enum LspStep {
    Done { report: LspDiagnosticsReport },
    Continue { builder: LspDiagnosticsBuilder, files: Vec<String> },
}

/// The two items of missing evidence every failed request reports.
pub open spec fn unavailable_items() -> Seq<Seq<char>> {
    seq!["lsp_diagnostics_unavailable"@, "no_lsp_diagnostics"@]
}

/// The server and request a request starts with: rust-analyzer, run by the
/// configured command (or the default one), with no version yet; the requested
/// files with `/` separators, the timeout and the limit of the options.
pub open spec fn started_with(server: LspServerInfo, request: LspRequestInfo, files: Seq<String>, options: LspDiagnosticsOptions) -> bool {
    &&& server.name@ == "rust-analyzer"@
    &&& server.command@ == (match options.command {
        Some(c) => c@,
        None => DEFAULT_RUST_ANALYZER_COMMAND@,
    })
    &&& server.version is None
    &&& request.kind@ == "diagnostics"@
    &&& request.files@.len() == files.len()
    &&& forall|i: int| 0 <= i < files.len() ==> (#[trigger] request.files@[i])@ == slashes(files[i]@)
    &&& request.timeout_ms == options.timeout_ms
    &&& request.max_diagnostics == options.max_diagnostics
}

/// A report of a request that failed before the server ran: no evidence, no server
/// version, its warnings in order with the warning that diagnostics are no
/// localization among them.
pub open spec fn failed_report(r: LspDiagnosticsReport) -> bool {
    &&& r.evidence@.len() == 0
    &&& sorted(r.warnings@)
    &&& exists|i: int| 0 <= i < r.warnings@.len() && is_lsp_not_localization(#[trigger] r.warnings@[i])
    &&& r.server.version is None
}

/// The report warns about each skipped file, with its category and path.
pub open spec fn warns_rejected(ws: Seq<LspWarning>, rejected: Seq<(Seq<char>, LspWarningCategory)>) -> bool {
    forall|k: int| 0 <= k < rejected.len() ==> exists|i: int| 0 <= i < ws.len() && (#[trigger] ws[i]).category == #[trigger] rejected[k].1
        && opt_text(ws[i].path) == Some(rejected[k].0)
}

/// Starts a request: a report with status `Error` when the workspace root could not
/// be resolved or no requested file is kept; else the builder and the kept files.
pub fn begin_diagnostics(
    root: Result<String, String>,
    files: Vec<String>,
    options: &LspDiagnosticsOptions,
    probes: Vec<LspFileProbe>,
) -> (step: LspStep)
    requires
        probes@.len() == files@.len(),
    ensures
        match root {
            Err(message) => step matches LspStep::Done { report } && {
                &&& report.status == LspAvailabilityStatus::Error
                &&& started_with(report.server, report.request, files@, *options)
                &&& failed_report(report)
                &&& report.workspace_root@ == "."@
                &&& report.diagnostics@.len() == 0
                &&& views(report.missing_evidence@).to_multiset() == unavailable_items().to_multiset()
                &&& exists|i: int| 0 <= i < report.warnings@.len() && (#[trigger] report.warnings@[i]).category == LspWarningCategory::PathOutsideRepo
                    && report.warnings@[i].message == message
            },
            Ok(workspace) => {
                let kept = accepted_files(views(files@), probes@);
                if kept.len() == 0 {
                    step matches LspStep::Done { report } && {
                        &&& report.status == LspAvailabilityStatus::Error
                        &&& started_with(report.server, report.request, files@, *options)
                        &&& failed_report(report)
                        &&& warns_rejected(report.warnings@, rejected_files(views(files@), probes@))
                        &&& report.workspace_root == workspace
                        &&& report.diagnostics@.len() == 0
                        &&& views(report.missing_evidence@).to_multiset() == unavailable_items().to_multiset()
                        &&& (files@.len() == 0 ==> exists|i: int| 0 <= i < report.warnings@.len()
                            && (#[trigger] report.warnings@[i]).category == LspWarningCategory::NoFilesRequested)
                    }
                } else {
                    step matches LspStep::Continue { builder, files: kept_files } && {
                        &&& builder.wf()
                        &&& builder.workspace_root == workspace
                        &&& started_with(builder.server, builder.request, files@, *options)
                        &&& builder.evidence@.len() == 0
                        &&& builder.missing_evidence@.len() == 0
                        &&& builder.warnings@.len() == rejected_files(views(files@), probes@).len()
                        &&& forall|k: int| 0 <= k < builder.warnings@.len() ==> (#[trigger] builder.warnings@[k]).category
                            == rejected_files(views(files@), probes@)[k].1 && opt_text(builder.warnings@[k].path)
                            == Some(rejected_files(views(files@), probes@)[k].0)
                        &&& builder.diagnostics@.len() == 0
                        &&& builder.request.max_diagnostics == options.max_diagnostics
                        &&& builder.request.timeout_ms == options.timeout_ms
                        &&& sorted(kept_files@)
                        &&& views(kept_files@).to_multiset() == kept.to_multiset()
                    }
                }
            },
        },
{
    let command = options.command();
    match root {
        Err(message) => {
            let ghost fs = files@;
            let mut builder = LspDiagnosticsBuilder::new(owned("."), files, command, None, options.timeout_ms, options.max_diagnostics);
            assert(views(builder.request.files@).len() == views(fs).len());
            assert forall|i: int| 0 <= i < fs.len() implies (#[trigger] builder.request.files@[i])@ == slashes(fs[i]@) by {
                assert(views(builder.request.files@)[i] == builder.request.files@[i]@);
                assert(views(fs)[i] == fs[i]@);
            }
            builder.warn(LspWarningCategory::PathOutsideRepo, message, None, "error");
            let ghost w = builder.warnings@.last();
            assert(builder.warnings@.contains(w));
            proof {
                reveal_strlit("lsp_diagnostics_unavailable");
                reveal_strlit("no_lsp_diagnostics");
                assert(views(builder.missing_evidence@) =~= Seq::<Seq<char>>::empty());
            }
            builder.missing("lsp_diagnostics_unavailable");
            assert(views(builder.missing_evidence@) =~= seq!["lsp_diagnostics_unavailable"@]);
            assert(!seq!["lsp_diagnostics_unavailable"@].contains("no_lsp_diagnostics"@)) by {
                reveal_strlit("lsp_diagnostics_unavailable");
                reveal_strlit("no_lsp_diagnostics");
                assert("lsp_diagnostics_unavailable"@.len() != "no_lsp_diagnostics"@.len());
            }
            builder.missing("no_lsp_diagnostics");
            assert(views(builder.missing_evidence@) =~= unavailable_items());
            let ghost ws = builder.warnings@;
            let ghost ds = builder.diagnostics@;
            let ghost ev = builder.evidence@;
            let report = builder.finish(LspAvailabilityStatus::Error);
            proof {
                lemma_kept_warning(report.warnings@, ws, w);
                lemma_not_localization_kept(report.warnings@, ws);
                lemma_empty_multiset_len(report.diagnostics@, ds);
                lemma_empty_multiset_len(report.evidence@, ev);
                crate::order::lemma_map_multiset(report.missing_evidence@, builder.missing_evidence@, |s: String| s@);
            }
            LspStep::Done { report }
        },
        Ok(workspace) => {
            let n = files.len();
            let mut builder = LspDiagnosticsBuilder::new(workspace, copy_texts(&files), command, None, options.timeout_ms, options.max_diagnostics);
            assert(views(builder.request.files@).len() == views(files@).len());
            assert forall|i: int| 0 <= i < files@.len() implies (#[trigger] builder.request.files@[i])@ == slashes(files@[i]@) by {
                assert(views(builder.request.files@)[i] == builder.request.files@[i]@);
                assert(views(files@)[i] == files@[i]@);
            }
            let ghost b0 = builder;
            let valid = validate_requested_files(&files, &probes, &mut builder);
            let ghost rejected = rejected_files(views(files@), probes@);
            let ghost after_validate = builder.warnings@;
            assert(b0.warnings@.len() == 0);
            if n == 0 {
                builder.warn(
                    LspWarningCategory::NoFilesRequested,
                    owned("No files were requested for LSP diagnostics."),
                    None,
                    "warning",
                );
            }
            let ghost w = builder.warnings@.last();
            assert(n == 0 ==> builder.warnings@.contains(w) && w.category == LspWarningCategory::NoFilesRequested);
            proof {
                vstd::seq_lib::lemma_multiset_commutative(views(valid@), accepted_files(views(files@), probes@));
                views(valid@).to_multiset_ensures();
                accepted_files(views(files@), probes@).to_multiset_ensures();
            }
            if valid.len() == 0 {
                assert(accepted_files(views(files@), probes@).to_multiset().len() == 0);
                proof {
                    reveal_strlit("lsp_diagnostics_unavailable");
                    reveal_strlit("no_lsp_diagnostics");
                    assert(views(builder.missing_evidence@) =~= Seq::<Seq<char>>::empty());
                }
                builder.missing("lsp_diagnostics_unavailable");
                assert(views(builder.missing_evidence@) =~= seq!["lsp_diagnostics_unavailable"@]);
                assert(!seq!["lsp_diagnostics_unavailable"@].contains("no_lsp_diagnostics"@)) by {
                    reveal_strlit("lsp_diagnostics_unavailable");
                    reveal_strlit("no_lsp_diagnostics");
                    assert("lsp_diagnostics_unavailable"@.len() != "no_lsp_diagnostics"@.len());
                }
                builder.missing("no_lsp_diagnostics");
                assert(views(builder.missing_evidence@) =~= unavailable_items());
                let ghost ws = builder.warnings@;
                let ghost ds = builder.diagnostics@;
                let ghost ev = builder.evidence@;
                let report = builder.finish(LspAvailabilityStatus::Error);
                proof {
                    if n == 0 {
                        lemma_kept_warning(report.warnings@, ws, w);
                    }
                    lemma_not_localization_kept(report.warnings@, ws);
                    assert forall|k: int| 0 <= k < rejected.len() implies exists|i: int| 0 <= i < report.warnings@.len()
                        && (#[trigger] report.warnings@[i]).category == #[trigger] rejected[k].1 && opt_text(report.warnings@[i].path) == Some(rejected[k].0) by {
                        let wk = after_validate[k];
                        assert(after_validate[0 + k] == wk);
                        assert(wk.category == rejected[k].1);
                        assert(ws[k] == wk);
                        assert(ws.contains(wk));
                        lemma_kept_warning(report.warnings@, ws, wk);
                    }
                    lemma_empty_multiset_len(report.diagnostics@, ds);
                    lemma_empty_multiset_len(report.evidence@, ev);
                    crate::order::lemma_map_multiset(report.missing_evidence@, builder.missing_evidence@, |s: String| s@);
                }
                return LspStep::Done { report };
            }
            assert(accepted_files(views(files@), probes@).len() > 0) by {
                if accepted_files(views(files@), probes@).len() == 0 {
                    assert(accepted_files(views(files@), probes@).to_multiset() =~= vstd::multiset::Multiset::empty());
                    assert(views(valid@).to_multiset().len() == 0);
                }
            }
            proof {
                assert(n > 0) by {
                    if n == 0 {
                        assert(views(files@) =~= Seq::<Seq<char>>::empty());
                        assert(accepted_files(views(files@), probes@) =~= Seq::<Seq<char>>::empty());
                    }
                }
                assert forall|k: int| 0 <= k < builder.warnings@.len() implies (#[trigger] builder.warnings@[k]).category
                    == rejected[k].1 && opt_text(builder.warnings@[k].path) == Some(rejected[k].0) by {
                    assert(builder.warnings@[0 + k] == builder.warnings@[k]);
                }
            }
            LspStep::Continue { builder, files: valid }
        },
    }
}

proof fn lemma_kept_warning(after: Seq<super::LspWarning>, before: Seq<super::LspWarning>, w: super::LspWarning)
    requires
        before.contains(w),
        exists|x: super::LspWarning| #[trigger] is_lsp_not_localization(x) && after.to_multiset() == before.push(x).to_multiset(),
    ensures
        exists|i: int| 0 <= i < after.len() && #[trigger] after[i] == w,
{
    broadcast use vstd::seq_lib::group_to_multiset_ensures;

    let x = choose|x: super::LspWarning| #[trigger] is_lsp_not_localization(x) && after.to_multiset() == before.push(x).to_multiset();
    assert(before.push(x).contains(w)) by {
        let i = choose|i: int| 0 <= i < before.len() && before[i] == w;
        assert(before.push(x)[i] == w);
    }
    crate::order::lemma_same_elements(after, before.push(x));
    assert(after.contains(w));
}

proof fn lemma_empty_multiset_len<T>(s: Seq<T>, t: Seq<T>)
    requires
        s.to_multiset() == t.to_multiset(),
        t.len() == 0,
    ensures
        s.len() == 0,
{
    broadcast use vstd::seq_lib::group_to_multiset_ensures;

    assert(t.to_multiset().len() == 0);
}

fn copy_texts(v: &Vec<String>) -> (r: Vec<String>)
    ensures
        views(r@) == views(v@),
{
    let mut r: Vec<String> = Vec::new();
    let mut i: usize = 0;
    while i < v.len()
        invariant
            i <= v@.len(),
            views(r@) == views(v@).take(i as int),
        decreases v@.len() - i,
    {
        let ghost r0 = views(r@);
        r.push(v[i].clone());
        assert(views(v@).take(i + 1) =~= views(v@).take(i as int).push(v@[i as int]@));
        assert(views(r@) =~= r0.push(v@[i as int]@));
        i = i + 1;
    }
    assert(views(v@).take(v@.len() as int) =~= views(v@));
    r
}

/// The version rust-analyzer printed, trimmed; `unknown` when it printed nothing.
pub fn version_text(stdout: &str) -> (r: String)
    ensures
        r@ == (if trim_ws(stdout@).len() == 0 { "unknown"@ } else { trim_ws(stdout@) }),
{
    let t = trim_text(stdout);
    if chars_of(t.as_str()).len() == 0 {
        owned("unknown")
    } else {
        t
    }
}

/// The missing-evidence items after noting `item`: unchanged when it is already there.
pub open spec fn with_missing(ms: Seq<Seq<char>>, item: Seq<char>) -> Seq<Seq<char>> {
    if ms.contains(item) {
        ms
    } else {
        ms.push(item)
    }
}

/// The missing evidence of a request that found no rust-analyzer: the builder's, and
/// `rust_analyzer_unavailable`, `lsp_diagnostics_unavailable` and
/// `no_lsp_diagnostics`.
pub open spec fn unavailable_missing(ms: Seq<Seq<char>>) -> Seq<Seq<char>> {
    with_missing(with_missing(with_missing(ms, "rust_analyzer_unavailable"@), "lsp_diagnostics_unavailable"@), "no_lsp_diagnostics"@)
}

/// Goes on with the server's version, or ends the request as unavailable when the
/// server could not report one.
pub fn check_server_version(builder: LspDiagnosticsBuilder, version: Result<String, String>) -> (step: LspStep)
    requires
        builder.wf(),
    ensures
        match version {
            Ok(v) => step matches LspStep::Continue { builder: b, files } && {
                &&& b.wf()
                &&& b.server.version == Some(v)
                &&& b.server.name == builder.server.name
                &&& b.server.command == builder.server.command
                &&& b.workspace_root == builder.workspace_root
                &&& b.request == builder.request
                &&& b.diagnostics@ == builder.diagnostics@
                &&& b.evidence@ == builder.evidence@
                &&& b.warnings@ == builder.warnings@
                &&& b.missing_evidence@ == builder.missing_evidence@
                &&& files@.len() == 0
            },
            Err(message) => step matches LspStep::Done { report } && {
                &&& report.status == LspAvailabilityStatus::Unavailable
                &&& exists|i: int| 0 <= i < report.warnings@.len() && (#[trigger] report.warnings@[i]).category == LspWarningCategory::RustAnalyzerUnavailable
                    && report.warnings@[i].message == message
                &&& reports_warning(report, LspWarningCategory::LspDiagnosticsUnavailable)
                &&& reports_missing(report, "rust_analyzer_unavailable"@)
                &&& reports_missing(report, "lsp_diagnostics_unavailable"@)
                &&& reports_missing(report, "no_lsp_diagnostics"@)
                &&& sorted(report.missing_evidence@)
                &&& views(report.missing_evidence@).to_multiset() == unavailable_missing(views(builder.missing_evidence@)).to_multiset()
                &&& report.diagnostics@.to_multiset() == builder.diagnostics@.to_multiset()
                &&& report_keeps(report, builder)
                &&& lsp_report_valid(report)
            },
        },
{
    let mut builder = builder;
    match version {
        Ok(v) => {
            builder.server.version = Some(v);
            LspStep::Continue { builder, files: Vec::new() }
        },
        Err(message) => {
            builder.warn(LspWarningCategory::RustAnalyzerUnavailable, message, None, "warning");
            let ghost w = builder.warnings@.last();
            assert(builder.warnings@.contains(w));
            let ghost ws1 = builder.warnings@;
            builder.warn(
                LspWarningCategory::LspDiagnosticsUnavailable,
                owned("rust-analyzer is unavailable; LSP diagnostics were not collected."),
                None,
                "warning",
            );
            assert(builder.warnings@[ws1.len() - 1] == w);
            assert(builder.warnings@.contains(w));
            let ghost w2 = builder.warnings@.last();
            assert(builder.warnings@.contains(w2));
            let ghost m0 = views(builder.missing_evidence@);
            builder.missing("rust_analyzer_unavailable");
            builder.missing("lsp_diagnostics_unavailable");
            builder.missing("no_lsp_diagnostics");
            let ghost ws = builder.warnings@;
            let ghost me = builder.missing_evidence@;
            let report = builder.finish(LspAvailabilityStatus::Unavailable);
            proof {
                lemma_kept_warning(report.warnings@, ws, w);
                lemma_kept_warning(report.warnings@, ws, w2);
                lemma_not_localization_kept(report.warnings@, ws);
                lemma_missing_kept(report.missing_evidence@, me, "rust_analyzer_unavailable"@);
                lemma_missing_kept(report.missing_evidence@, me, "lsp_diagnostics_unavailable"@);
                lemma_missing_kept(report.missing_evidence@, me, "no_lsp_diagnostics"@);
                let f = |t: String| t@;
                crate::order::lemma_map_multiset(report.missing_evidence@, me, f);
                assert(views(report.missing_evidence@) =~= report.missing_evidence@.map_values(f));
                assert(views(me) =~= me.map_values(f));
                assert(views(me) == unavailable_missing(m0));
            }
            LspStep::Done { report }
        },
    }
}

/// Records that a requested file could not be read for the server.
pub fn note_unreadable_file(builder: &mut LspDiagnosticsBuilder, path: String, error: &str)
    requires
        old(builder).wf(),
    ensures
        final(builder).wf(),
        final(builder).warnings@ == old(builder).warnings@.push(final(builder).warnings@.last()),
        final(builder).warnings@.last().category == LspWarningCategory::ServerError,
        final(builder).warnings@.last().message@ == "Failed to read diagnostics file: "@ + error@,
        final(builder).diagnostics@ == old(builder).diagnostics@,
        final(builder).request == old(builder).request,
{
    let message = concat2("Failed to read diagnostics file: ", error);
    proof {
        reveal_strlit("Failed to read diagnostics file: ");
    }
    builder.warn(LspWarningCategory::ServerError, message, Some(path), "warning");
}

/// Whether to keep waiting for diagnostics: the limit is not reached.
pub fn wants_more_diagnostics(builder: &LspDiagnosticsBuilder) -> (r: bool)
    ensures
        r == (builder.diagnostics@.len() < builder.request.max_diagnostics),
{
    builder.diagnostics.len() < builder.request.max_diagnostics
}

/// After listening: warns when the limit cut the diagnostics short.
pub fn finish_listening(builder: &mut LspDiagnosticsBuilder)
    requires
        old(builder).wf(),
    ensures
        final(builder).wf(),
        final(builder).diagnostics@ == old(builder).diagnostics@,
        final(builder).evidence@ == old(builder).evidence@,
        final(builder).request == old(builder).request,
        if old(builder).diagnostics@.len() >= old(builder).request.max_diagnostics {
            &&& final(builder).warnings@ == old(builder).warnings@.push(final(builder).warnings@.last())
            &&& final(builder).warnings@.last().category == LspWarningCategory::ResultLimitExceeded
        } else {
            final(builder).warnings@ == old(builder).warnings@
        },
{
    if builder.diagnostics.len() >= builder.request.max_diagnostics {
        builder.warn(
            LspWarningCategory::ResultLimitExceeded,
            owned("LSP diagnostics were truncated by max_diagnostics."),
            None,
            "warning",
        );
    }
}

/// Ends a session: on success the status is `Partial` when a warning says results
/// were cut short, else `Complete`; on a server failure, `Error` with its message.
pub fn end_session(builder: LspDiagnosticsBuilder, outcome: Result<(), String>) -> (r: LspDiagnosticsReport)
    requires
        builder.wf(),
    ensures
        lsp_report_valid(r),
        r.diagnostics@.to_multiset() == builder.diagnostics@.to_multiset(),
        report_keeps(r, builder),
        match outcome {
            Ok(()) => r.status == (if exists|i: int| 0 <= i < builder.warnings@.len() && is_partial_category(#[trigger] builder.warnings@[i].category) {
                LspAvailabilityStatus::Partial
            } else {
                LspAvailabilityStatus::Complete
            }),
            Err(message) => {
                &&& r.status == LspAvailabilityStatus::Error
                &&& exists|i: int| 0 <= i < r.warnings@.len() && (#[trigger] r.warnings@[i]).category == LspWarningCategory::ServerError
                    && r.warnings@[i].message == message
                &&& reports_missing(r, "lsp_diagnostics_unavailable"@)
            },
        },
{
    let mut builder = builder;
    match outcome {
        Ok(()) => {
            let status = if builder.has_partial_warning() {
                LspAvailabilityStatus::Partial
            } else {
                LspAvailabilityStatus::Complete
            };
            let ghost ws = builder.warnings@;
            let r = builder.finish(status);
            proof {
                lemma_not_localization_kept(r.warnings@, ws);
            }
            r
        },
        Err(message) => {
            builder.warn(LspWarningCategory::ServerError, message, None, "error");
            let ghost w = builder.warnings@.last();
            assert(builder.warnings@.contains(w));
            builder.missing("lsp_diagnostics_unavailable");
            let ghost ws = builder.warnings@;
            let ghost ds = builder.diagnostics@;
            let ghost me = builder.missing_evidence@;
            proof {
                reveal_strlit("lsp_diagnostics_unavailable");
                assert(views(me).contains("lsp_diagnostics_unavailable"@));
            }
            let report = builder.finish(LspAvailabilityStatus::Error);
            proof {
                lemma_kept_warning(report.warnings@, ws, w);
                lemma_not_localization_kept(report.warnings@, ws);
                lemma_missing_kept(report.missing_evidence@, me, "lsp_diagnostics_unavailable"@);
            }
            report
        },
    }
}

} // verus!
