use vstd::prelude::*;
use vstd::utf8::encode_utf8;

use super::syntax::{item_symbol, item_symbol_exec, item_symbols, parse_rust_syntax, rust_syntax, RustSyntax, SyntaxItem};
use super::{
    symbol_graph_valid, symbol_kind_name, symbol_warning_category_label, symbol_warning_category_name,
    ParseStatus, SourceFile, SourceLanguage, SourceRange, SourceSymbol, SymbolGraph, SymbolKind,
    SymbolWarning, SymbolWarningCategory, SYMBOLS_CONTRACT_VERSION,
};
use crate::order::{lemma_same_elements, sort_items, sorted};
use crate::repo_graph::types::{
    evidence_id_set, ids_backed, opt_backed, opt_text, DetectionSeverity, Evidence, RepoInfo,
};
use crate::text::{concat2, concat3, decimal, decimal_text, normalize_slashes, owned, slashes, stable_id, stable_id_spec};
use crate::textset::views;

verus! {

/// Collects the source files, symbols, evidence and warnings of a symbol graph.
pub struct SymbolGraphBuilder {
    pub repo_root: String,
    pub source_files: Vec<SourceFile>,
    pub symbols: Vec<SourceSymbol>,
    pub evidence: Vec<Evidence>,
    pub warnings: Vec<SymbolWarning>,
}

// ---------------------------------------------------------------------------
// Identifiers and records
// ---------------------------------------------------------------------------

pub open spec fn evidence_id_spec(path: Seq<char>, kind: Seq<char>, field: Seq<char>) -> Seq<char> {
    stable_id_spec("evidence"@, path + "-"@ + kind + "-"@ + field)
}

pub open spec fn source_file_id_spec(path: Seq<char>) -> Seq<char> {
    stable_id_spec("source-file"@, path)
}

pub open spec fn symbol_id_spec(path: Seq<char>, s: (SymbolKind, Seq<char>, SourceRange)) -> Seq<char> {
    stable_id_spec(
        "symbol"@,
        path + "-"@ + symbol_kind_name(s.0) + "-"@ + s.1 + "-"@ + decimal(s.2.start_byte as nat),
    )
}

pub open spec fn symbol_evidence_id_spec(path: Seq<char>, s: (SymbolKind, Seq<char>, SourceRange)) -> Seq<char> {
    stable_id_spec(
        "evidence-symbol"@,
        path + "-"@ + symbol_kind_name(s.0) + "-"@ + s.1 + "-"@ + decimal(s.2.start_byte as nat) + "-"@
            + decimal(s.2.end_byte as nat),
    )
}

pub open spec fn symbol_field_spec(s: (SymbolKind, Seq<char>, SourceRange)) -> Seq<char> {
    "symbol."@ + symbol_kind_name(s.0) + "."@ + s.1 + "@"@ + decimal(s.2.start_line as nat) + ":"@
        + decimal(s.2.start_column as nat)
}

pub open spec fn warning_id_spec(c: SymbolWarningCategory, path: Option<Seq<char>>) -> Seq<char> {
    stable_id_spec(
        "warning"@,
        symbol_warning_category_name(c) + "-"@ + match path {
            Some(p) => p,
            None => "repo"@,
        },
    )
}

pub open spec fn evidence_is(e: Evidence, id: Seq<char>, path: Seq<char>, kind: Seq<char>, field: Option<Seq<char>>, reason: Seq<char>) -> bool {
    e.id@ == id && e.path@ == path && e.kind@ == kind && opt_text(e.field) == field && e.reason@ == reason
}

pub open spec fn source_file_is(f: SourceFile, path: Seq<char>, status: ParseStatus, evidence_id: Seq<char>) -> bool {
    &&& f.id@ == source_file_id_spec(path)
    &&& f.path@ == path
    &&& f.language == SourceLanguage::Rust
    &&& f.parse_status == status
    &&& views(f.evidence_ids@) == seq![evidence_id]
}

pub open spec fn symbol_is(x: SourceSymbol, path: Seq<char>, s: (SymbolKind, Seq<char>, SourceRange)) -> bool {
    &&& x.id@ == symbol_id_spec(path, s)
    &&& x.kind == s.0
    &&& x.name@ == s.1
    &&& x.path@ == path
    &&& x.range == s.2
    &&& views(x.evidence_ids@) == seq![symbol_evidence_id_spec(path, s)]
}

pub open spec fn symbol_evidence_is(e: Evidence, path: Seq<char>, s: (SymbolKind, Seq<char>, SourceRange)) -> bool {
    evidence_is(
        e,
        symbol_evidence_id_spec(path, s),
        path,
        "source_symbol"@,
        Some(symbol_field_spec(s)),
        "Rust top-level symbol declaration."@,
    )
}

pub open spec fn warning_is(
    w: SymbolWarning,
    severity: DetectionSeverity,
    category: SymbolWarningCategory,
    message: Seq<char>,
    path: Option<Seq<char>>,
    evidence_id: Option<Seq<char>>,
) -> bool {
    &&& w.id@ == warning_id_spec(category, path)
    &&& w.severity == severity
    &&& w.category == category
    &&& w.message@ == message
    &&& opt_text(w.path) == path
    &&& opt_text(w.evidence_id) == evidence_id
}

/// How a source file fares: its parse status and, when something went wrong, the
/// severity, category and message of the warning about it.
pub open spec fn source_outcome(contents: Option<String>) -> (ParseStatus, Option<(DetectionSeverity, SymbolWarningCategory, Seq<char>)>) {
    match contents {
        None => (
            ParseStatus::Unreadable,
            Some((DetectionSeverity::Warning, SymbolWarningCategory::UnreadableSource, "Rust source file could not be read."@)),
        ),
        Some(t) => match rust_syntax(t@) {
            RustSyntax::ParserUnavailable => (
                ParseStatus::Error,
                Some((DetectionSeverity::Error, SymbolWarningCategory::ParseError, "Rust parser could not be initialized."@)),
            ),
            RustSyntax::Unparsed => (
                ParseStatus::Error,
                Some((DetectionSeverity::Error, SymbolWarningCategory::ParseError, "Rust source file could not be parsed."@)),
            ),
            RustSyntax::Parsed { has_error, items } => if has_error {
                (
                    ParseStatus::Error,
                    Some((
                        DetectionSeverity::Warning,
                        SymbolWarningCategory::ParseError,
                        "Rust source file parsed with syntax errors; no symbols were extracted."@,
                    )),
                )
            } else {
                (ParseStatus::Parsed, None)
            },
        },
    }
}

/// The symbols extracted from a source file: the declarations of a text that parsed
/// without syntax errors.
pub open spec fn source_symbols(contents: Option<String>) -> Seq<(SymbolKind, Seq<char>, SourceRange)> {
    match contents {
        Some(t) => match rust_syntax(t@) {
            RustSyntax::Parsed { has_error, items } => if has_error {
                seq![]
            } else {
                item_symbols(items@, encode_utf8(t@))
            },
            _ => seq![],
        },
        None => seq![],
    }
}

proof fn lemma_evidence_push(ev: Seq<Evidence>, e: Evidence)
    ensures
        evidence_id_set(ev.push(e)) == evidence_id_set(ev).insert(e.id@),
{
    let a = ev.map_values(|x: Evidence| x.id@);
    let b = ev.push(e).map_values(|x: Evidence| x.id@);
    assert(b =~= a.push(e.id@));
    crate::text::lemma_push_to_set(a, e.id@);
}

impl SymbolGraphBuilder {
    /// Every referenced evidence identifier names an evidence item of the builder.
    pub open spec fn wf(&self) -> bool {
        let known = evidence_id_set(self.evidence@);
        &&& forall|i: int| 0 <= i < self.source_files@.len() ==> ids_backed((#[trigger] self.source_files@[i]).evidence_ids@, known)
        &&& forall|i: int| 0 <= i < self.symbols@.len() ==> ids_backed((#[trigger] self.symbols@[i]).evidence_ids@, known)
        &&& forall|i: int| 0 <= i < self.warnings@.len() ==> opt_backed((#[trigger] self.warnings@[i]).evidence_id, known)
    }

    pub fn new(repo_root: String) -> (b: Self)
        ensures
            b.repo_root == repo_root,
            b.source_files@.len() == 0,
            b.symbols@.len() == 0,
            b.evidence@.len() == 0,
            b.warnings@.len() == 0,
            b.wf(),
    {
        SymbolGraphBuilder {
            repo_root,
            source_files: Vec::new(),
            symbols: Vec::new(),
            evidence: Vec::new(),
            warnings: Vec::new(),
        }
    }

    fn add_evidence(&mut self, path: &str, kind: &str, field: Option<&str>, reason: &str) -> (id: String)
        requires
            old(self).wf(),
        ensures
            final(self).wf(),
            evidence_id_set(final(self).evidence@).contains(id@),
            id@ == evidence_id_spec(path@, kind@, match field { Some(f) => f@, None => seq![] }),
            final(self).evidence@ == old(self).evidence@.push(final(self).evidence@.last()),
            evidence_is(final(self).evidence@.last(), id@, path@, kind@, match field { Some(f) => Some(f@), None => None }, reason@),
            final(self).source_files == old(self).source_files,
            final(self).symbols == old(self).symbols,
            final(self).warnings == old(self).warnings,
            final(self).repo_root == old(self).repo_root,
    {
        let field_text = match field {
            Some(f) => owned(f),
            None => owned(""),
        };
        proof {
            reveal_strlit("");
        }
        let value = concat3(path, "-", kind);
        let value = concat3(value.as_str(), "-", field_text.as_str());
        let id = stable_id("evidence", value.as_str());
        let e = Evidence {
            id: id.clone(),
            path: owned(path),
            kind: owned(kind),
            field: match field {
                Some(f) => Some(owned(f)),
                None => None,
            },
            reason: owned(reason),
        };
        let ghost before = self.evidence@;
        self.evidence.push(e);
        proof {
            lemma_evidence_push(before, e);
        }
        id
    }

    fn add_source_file(&mut self, path: &str, status: ParseStatus, evidence_id: String)
        requires
            old(self).wf(),
            evidence_id_set(old(self).evidence@).contains(evidence_id@),
        ensures
            final(self).wf(),
            final(self).source_files@ == old(self).source_files@.push(final(self).source_files@.last()),
            source_file_is(final(self).source_files@.last(), path@, status, evidence_id@),
            final(self).evidence == old(self).evidence,
            final(self).symbols == old(self).symbols,
            final(self).warnings == old(self).warnings,
            final(self).repo_root == old(self).repo_root,
    {
        let mut ids: Vec<String> = Vec::new();
        ids.push(evidence_id);
        assert(views(ids@) =~= seq![evidence_id@]);
        let f = SourceFile {
            id: stable_id("source-file", path),
            path: owned(path),
            language: SourceLanguage::Rust,
            parse_status: status,
            evidence_ids: ids,
        };
        self.source_files.push(f);
        assert(ids_backed(f.evidence_ids@, evidence_id_set(self.evidence@)));
    }

    fn add_warning(
        &mut self,
        severity: DetectionSeverity,
        category: SymbolWarningCategory,
        message: &str,
        path: Option<&str>,
        evidence_id: Option<String>,
    )
        requires
            old(self).wf(),
            opt_backed(evidence_id, evidence_id_set(old(self).evidence@)),
        ensures
            final(self).wf(),
            final(self).warnings@ == old(self).warnings@.push(final(self).warnings@.last()),
            warning_is(
                final(self).warnings@.last(),
                severity,
                category,
                message@,
                match path { Some(p) => Some(p@), None => None },
                opt_text(evidence_id),
            ),
            final(self).evidence == old(self).evidence,
            final(self).symbols == old(self).symbols,
            final(self).source_files == old(self).source_files,
            final(self).repo_root == old(self).repo_root,
    {
        let label = symbol_warning_category_label(category);
        let place = match path {
            Some(p) => owned(p),
            None => owned("repo"),
        };
        let value = concat3(label, "-", place.as_str());
        let w = SymbolWarning {
            id: stable_id("warning", value.as_str()),
            severity,
            category,
            message: owned(message),
            path: match path {
                Some(p) => Some(owned(p)),
                None => None,
            },
            evidence_id,
        };
        self.warnings.push(w);
    }

    fn add_symbol(&mut self, path: &str, kind: SymbolKind, name: String, range: SourceRange)
        requires
            old(self).wf(),
        ensures
            final(self).wf(),
            final(self).evidence@ == old(self).evidence@.push(final(self).evidence@.last()),
            symbol_evidence_is(final(self).evidence@.last(), path@, (kind, name@, range)),
            final(self).symbols@ == old(self).symbols@.push(final(self).symbols@.last()),
            symbol_is(final(self).symbols@.last(), path@, (kind, name@, range)),
            final(self).source_files == old(self).source_files,
            final(self).warnings == old(self).warnings,
            final(self).repo_root == old(self).repo_root,
    {
        let kind_name = kind.as_str();
        let start = decimal_text(range.start_byte);
        let end = decimal_text(range.end_byte);
        let value = concat3(path, "-", kind_name);
        let value = concat3(value.as_str(), "-", name.as_str());
        let value = concat3(value.as_str(), "-", start.as_str());
        let symbol_value = value.clone();
        let value = concat3(value.as_str(), "-", end.as_str());
        let evidence_id = stable_id("evidence-symbol", value.as_str());
        let line = decimal_text(range.start_line);
        let column = decimal_text(range.start_column);
        let field = concat3("symbol.", kind_name, ".");
        let field = concat3(field.as_str(), name.as_str(), "@");
        let field = concat3(field.as_str(), line.as_str(), ":");
        let field = concat2(field.as_str(), column.as_str());
        let e = Evidence {
            id: evidence_id.clone(),
            path: owned(path),
            kind: owned("source_symbol"),
            field: Some(field),
            reason: owned("Rust top-level symbol declaration."),
        };
        let ghost before = self.evidence@;
        self.evidence.push(e);
        proof {
            lemma_evidence_push(before, e);
        }
        let mut ids: Vec<String> = Vec::new();
        ids.push(evidence_id);
        assert(views(ids@) =~= seq![e.id@]);
        let s = SourceSymbol {
            id: stable_id("symbol", symbol_value.as_str()),
            kind,
            name,
            path: owned(path),
            range,
            evidence_ids: ids,
        };
        self.symbols.push(s);
        assert(ids_backed(s.evidence_ids@, evidence_id_set(self.evidence@)));
    }

    /// Records a path that was passed over (ignored directory or symlink).
    pub fn note_path_warning(&mut self, severity: DetectionSeverity, category: SymbolWarningCategory, message: &str, path: &str)
        requires
            old(self).wf(),
        ensures
            final(self).wf(),
            final(self).warnings@ == old(self).warnings@.push(final(self).warnings@.last()),
            warning_is(final(self).warnings@.last(), severity, category, message@, Some(slashes(path@)), None),
            final(self).evidence == old(self).evidence,
            final(self).symbols == old(self).symbols,
            final(self).source_files == old(self).source_files,
            final(self).repo_root == old(self).repo_root,
    {
        let p = normalize_slashes(path);
        self.add_warning(severity, category, message, Some(p.as_str()), None);
    }

    /// Records a generated, dependency or cache directory that is present and that
    /// discovery passed over.
    pub fn note_ignored_dir(&mut self, name: &str)
        requires
            old(self).wf(),
        ensures
            final(self).wf(),
            final(self).warnings@ == old(self).warnings@.push(final(self).warnings@.last()),
            warning_is(
                final(self).warnings@.last(),
                DetectionSeverity::Info,
                SymbolWarningCategory::IgnoredPath,
                "Generated, dependency, or cache directory was ignored by SymbolGraph inspection."@,
                Some(slashes(name@)),
                None,
            ),
            final(self).evidence == old(self).evidence,
            final(self).symbols == old(self).symbols,
            final(self).source_files == old(self).source_files,
            final(self).repo_root == old(self).repo_root,
    {
        self.note_path_warning(
            DetectionSeverity::Info,
            SymbolWarningCategory::IgnoredPath,
            "Generated, dependency, or cache directory was ignored by SymbolGraph inspection.",
            name,
        );
    }

    /// Inspects one Rust source file given by its path relative to the repository and
    /// its text (`None` when it could not be read): records the file with its parse
    /// status and evidence, a warning when it could not be read or parsed cleanly, and
    /// the top-level declarations of a text that parsed without syntax errors.
    pub fn inspect_rust_source(&mut self, relative_path: &str, contents: Option<String>)
        requires
            old(self).wf(),
        ensures
            final(self).wf(),
            final(self).repo_root == old(self).repo_root,
            ({
                let p = slashes(relative_path@);
                let ev_id = evidence_id_spec(p, "source_file"@, seq![]);
                let outcome = source_outcome(contents);
                let syms = source_symbols(contents);
                let n_ev = old(self).evidence@.len() as int;
                let n_sym = old(self).symbols@.len() as int;
                &&& final(self).source_files@ == old(self).source_files@.push(final(self).source_files@.last())
                &&& source_file_is(final(self).source_files@.last(), p, outcome.0, ev_id)
                &&& final(self).evidence@.len() == n_ev + 1 + syms.len()
                &&& final(self).evidence@.take(n_ev) == old(self).evidence@
                &&& evidence_is(final(self).evidence@[n_ev], ev_id, p, "source_file"@, None, "Rust source file discovered by SymbolGraph-lite."@)
                &&& forall|i: int| 0 <= i < syms.len() ==> symbol_evidence_is(#[trigger] final(self).evidence@[n_ev + 1 + i], p, syms[i])
                &&& final(self).symbols@.len() == n_sym + syms.len()
                &&& final(self).symbols@.take(n_sym) == old(self).symbols@
                &&& forall|i: int| 0 <= i < syms.len() ==> symbol_is(#[trigger] final(self).symbols@[n_sym + i], p, syms[i])
                &&& match outcome.1 {
                    Some((sev, cat, msg)) => final(self).warnings@ == old(self).warnings@.push(final(self).warnings@.last())
                        && warning_is(final(self).warnings@.last(), sev, cat, msg, Some(p), Some(ev_id)),
                    None => final(self).warnings@ == old(self).warnings@,
                }
            }),
    {
        let path = normalize_slashes(relative_path);
        let ev = self.add_evidence(path.as_str(), "source_file", None, "Rust source file discovered by SymbolGraph-lite.");
        let ghost n_ev = self.evidence@.len() - 1;
        let ghost n_sym = self.symbols@.len() as int;
        let ghost ev0 = self.evidence@;
        let ghost old_warnings = self.warnings@;
        match contents {
            None => {
                self.add_source_file(path.as_str(), ParseStatus::Unreadable, ev.clone());
                self.add_warning(
                    DetectionSeverity::Warning,
                    SymbolWarningCategory::UnreadableSource,
                    "Rust source file could not be read.",
                    Some(path.as_str()),
                    Some(ev),
                );
                assert(self.evidence@.take(n_ev) =~= ev0.take(n_ev));
            },
            Some(text) => {
                let syntax = parse_rust_syntax(text.as_str());
                match syntax {
                    RustSyntax::ParserUnavailable => {
                        self.add_source_file(path.as_str(), ParseStatus::Error, ev.clone());
                        self.add_warning(
                            DetectionSeverity::Error,
                            SymbolWarningCategory::ParseError,
                            "Rust parser could not be initialized.",
                            Some(path.as_str()),
                            Some(ev),
                        );
                        assert(self.evidence@.take(n_ev) =~= ev0.take(n_ev));
                    },
                    RustSyntax::Unparsed => {
                        self.add_source_file(path.as_str(), ParseStatus::Error, ev.clone());
                        self.add_warning(
                            DetectionSeverity::Error,
                            SymbolWarningCategory::ParseError,
                            "Rust source file could not be parsed.",
                            Some(path.as_str()),
                            Some(ev),
                        );
                        assert(self.evidence@.take(n_ev) =~= ev0.take(n_ev));
                    },
                    RustSyntax::Parsed { has_error, items } => {
                        if has_error {
                            self.add_source_file(path.as_str(), ParseStatus::Error, ev.clone());
                            self.add_warning(
                                DetectionSeverity::Warning,
                                SymbolWarningCategory::ParseError,
                                "Rust source file parsed with syntax errors; no symbols were extracted.",
                                Some(path.as_str()),
                                Some(ev),
                            );
                            assert(self.evidence@.take(n_ev) =~= ev0.take(n_ev));
                        } else {
                            self.add_source_file(path.as_str(), ParseStatus::Parsed, ev);
                            let bytes = text.as_str().as_bytes();
                            let ghost sf = self.source_files@;
                            let mut i: usize = 0;
                            while i < items.len()
                                invariant
                                    i <= items@.len(),
                                    n_ev >= 0,
                                    n_sym >= 0,
                                    self.source_files@ == sf,
                                    self.wf(),
                                    self.repo_root == old(self).repo_root,
                                    self.warnings@ == old_warnings,
                                    self.evidence@.len() == n_ev + 1 + item_symbols(items@.take(i as int), bytes@).len(),
                                    self.evidence@.take(n_ev + 1) == ev0,
                                    self.symbols@.len() == n_sym + item_symbols(items@.take(i as int), bytes@).len(),
                                    self.symbols@.take(n_sym) == old(self).symbols@,
                                    forall|k: int|
                                        0 <= k < item_symbols(items@.take(i as int), bytes@).len() ==> symbol_evidence_is(
                                            #[trigger] self.evidence@[n_ev + 1 + k],
                                            path@,
                                            item_symbols(items@.take(i as int), bytes@)[k],
                                        ),
                                    forall|k: int|
                                        0 <= k < item_symbols(items@.take(i as int), bytes@).len() ==> symbol_is(
                                            #[trigger] self.symbols@[n_sym + k],
                                            path@,
                                            item_symbols(items@.take(i as int), bytes@)[k],
                                        ),
                                decreases items@.len() - i,
                            {
                                let ghost pre = item_symbols(items@.take(i as int), bytes@);
                                assert(items@.take(i + 1).drop_last() =~= items@.take(i as int));
                                assert(items@.take(i + 1).last() == items@[i as int]);
                                let ghost ev_before = self.evidence@;
                                let ghost sym_before = self.symbols@;
                                match item_symbol_exec(&items[i], bytes) {
                                    Some((k, n, range)) => {
                                        self.add_symbol(path.as_str(), k, n, range);
                                        let ghost cur = item_symbols(items@.take(i + 1), bytes@);
                                        assert(cur == pre.push((k, n@, range)));
                                        assert forall|q: int| 0 <= q < cur.len() implies symbol_evidence_is(
                                            #[trigger] self.evidence@[n_ev + 1 + q],
                                            path@,
                                            cur[q],
                                        ) by {
                                            assert(ev_before.len() == n_ev + 1 + pre.len());
                                            if q < pre.len() {
                                                assert(self.evidence@[n_ev + 1 + q] == ev_before[n_ev + 1 + q]);
                                            } else {
                                                assert(q == pre.len());
                                                assert(cur[q] == (k, n@, range));
                                            }
                                        }
                                        assert forall|q: int| 0 <= q < cur.len() implies symbol_is(
                                            #[trigger] self.symbols@[n_sym + q],
                                            path@,
                                            cur[q],
                                        ) by {
                                            assert(sym_before.len() == n_sym + pre.len());
                                            if q < pre.len() {
                                                assert(self.symbols@[n_sym + q] == sym_before[n_sym + q]);
                                            } else {
                                                assert(q == pre.len());
                                                assert(cur[q] == (k, n@, range));
                                            }
                                        }
                                        assert(self.evidence@.take(n_ev + 1) =~= ev_before.take(n_ev + 1));
                                        assert(self.symbols@.take(n_sym) =~= sym_before.take(n_sym));
                                    },
                                    None => {},
                                }
                                i = i + 1;
                            }
                            assert(items@.take(items@.len() as int) =~= items@);
                            assert(self.evidence@.take(n_ev) =~= ev0.take(n_ev));
                        }
                    },
                }
            },
        }
    }

    /// The symbol graph, every list ordered by identifier.
    pub fn finish(self) -> (g: SymbolGraph)
        ensures
            g.contract_version@ == SYMBOLS_CONTRACT_VERSION@,
            g.repo == (RepoInfo { root: self.repo_root, read_only: true }),
            sorted(g.source_files@),
            g.source_files@.to_multiset() == self.source_files@.to_multiset(),
            sorted(g.symbols@),
            g.symbols@.to_multiset() == self.symbols@.to_multiset(),
            sorted(g.evidence@),
            g.evidence@.to_multiset() == self.evidence@.to_multiset(),
            sorted(g.warnings@),
            g.warnings@.to_multiset() == self.warnings@.to_multiset(),
            views(g.limitations@) == seq![
                "SymbolGraph-lite extracts top-level Rust declarations only."@,
                "No call graph, references, imports, LSP diagnostics, or edit localization."@,
            ],
            self.wf() ==> symbol_graph_valid(g),
    {
        let ghost b = self;
        let SymbolGraphBuilder { repo_root, source_files, symbols, evidence, warnings } = self;
        let source_files = sort_items(source_files);
        let symbols = sort_items(symbols);
        let evidence = sort_items(evidence);
        let warnings = sort_items(warnings);
        let mut limitations: Vec<String> = Vec::new();
        limitations.push(owned("SymbolGraph-lite extracts top-level Rust declarations only."));
        limitations.push(owned("No call graph, references, imports, LSP diagnostics, or edit localization."));
        assert(views(limitations@) =~= seq![
            "SymbolGraph-lite extracts top-level Rust declarations only."@,
            "No call graph, references, imports, LSP diagnostics, or edit localization."@,
        ]);
        let g = SymbolGraph {
            contract_version: owned(SYMBOLS_CONTRACT_VERSION),
            repo: RepoInfo { root: repo_root, read_only: true },
            source_files,
            symbols,
            evidence,
            warnings,
            limitations,
        };
        proof {
            if b.wf() {
                lemma_same_elements(g.evidence@, b.evidence@);
                lemma_same_elements(g.source_files@, b.source_files@);
                lemma_same_elements(g.symbols@, b.symbols@);
                lemma_same_elements(g.warnings@, b.warnings@);
                let known = evidence_id_set(b.evidence@);
                assert(evidence_id_set(g.evidence@) =~= known) by {
                    let a = g.evidence@.map_values(|x: Evidence| x.id@);
                    let c = b.evidence@.map_values(|x: Evidence| x.id@);
                    assert forall|t: Seq<char>| a.contains(t) implies c.contains(t) by {
                        let k = choose|k: int| 0 <= k < a.len() && a[k] == t;
                        assert(g.evidence@.contains(g.evidence@[k]));
                        let j = choose|j: int| 0 <= j < b.evidence@.len() && b.evidence@[j] == g.evidence@[k];
                        assert(c[j] == t);
                    }
                    assert forall|t: Seq<char>| c.contains(t) implies a.contains(t) by {
                        let k = choose|k: int| 0 <= k < c.len() && c[k] == t;
                        assert(b.evidence@.contains(b.evidence@[k]));
                        let j = choose|j: int| 0 <= j < g.evidence@.len() && g.evidence@[j] == b.evidence@[k];
                        assert(a[j] == t);
                    }
                }
                assert forall|i: int| 0 <= i < g.source_files@.len() implies ids_backed((#[trigger] g.source_files@[i]).evidence_ids@, known) by {
                    assert(g.source_files@.contains(g.source_files@[i]));
                    let j = choose|j: int| 0 <= j < b.source_files@.len() && b.source_files@[j] == g.source_files@[i];
                    assert(ids_backed(b.source_files@[j].evidence_ids@, known));
                }
                assert forall|i: int| 0 <= i < g.symbols@.len() implies ids_backed((#[trigger] g.symbols@[i]).evidence_ids@, known) by {
                    assert(g.symbols@.contains(g.symbols@[i]));
                    let j = choose|j: int| 0 <= j < b.symbols@.len() && b.symbols@[j] == g.symbols@[i];
                    assert(ids_backed(b.symbols@[j].evidence_ids@, known));
                }
                assert forall|i: int| 0 <= i < g.warnings@.len() implies opt_backed((#[trigger] g.warnings@[i]).evidence_id, known) by {
                    assert(g.warnings@.contains(g.warnings@[i]));
                    let j = choose|j: int| 0 <= j < b.warnings@.len() && b.warnings@[j] == g.warnings@[i];
                    assert(opt_backed(b.warnings@[j].evidence_id, known));
                }
            }
        }
        g
    }
}

} // verus!
