use vstd::prelude::*;

use super::{BundleConfidence, CandidateFile, CandidateSymbol};
use crate::order::{
    dedup_items, dedup_spec, key4_le, key4_le_exec, key_le, key_le_exec, lemma_key4_le_total,
    lemma_key4_le_transitive, lemma_key_le_total, lemma_key_le_transitive, lemma_map_multiset,
    sort_items, sorted, Ordered, SameItem,
};
use crate::symbol_graph::{ParseStatus, SourceFile, SourceLanguage, SourceRange, SourceSymbol, SymbolKind};
use crate::text::{contains_seq, contains_text, lower_seq, lower_text, owned, text_eq, tokenize, tokens};
use crate::textset::views;

verus! {

// ---------------------------------------------------------------------------
// Match quality
// ---------------------------------------------------------------------------

/// Some token of `value` is one of `terms`.
pub open spec fn has_common_token(value: Seq<char>, terms: Set<Seq<char>>) -> bool {
    exists|t: Seq<char>| terms.contains(t) && #[trigger] tokens(value).contains(t)
}

/// How well a value matches a non-empty query, ignoring ASCII case: exactly (high),
/// as a substring (medium), or by a common token (low).
pub open spec fn match_quality(value: Seq<char>, query: Seq<char>, exact: Seq<char>, partial: Seq<char>) -> Option<(BundleConfidence, Seq<char>)> {
    if query.len() == 0 {
        None
    } else if lower_seq(value) == lower_seq(query) {
        Some((BundleConfidence::High, exact))
    } else if contains_seq(lower_seq(value), lower_seq(query)) {
        Some((BundleConfidence::Medium, partial))
    } else if has_common_token(value, tokens(query)) {
        Some((BundleConfidence::Low, "query_token_overlap"@))
    } else {
        None
    }
}

fn has_common_token_exec(value: &str, terms: &Vec<String>) -> (r: bool)
    ensures
        r == has_common_token(value@, views(terms@).to_set()),
{
    let value_terms = tokenize(value);
    let ghost vt = value_terms@.map_values(|t: String| t@);
    let mut i: usize = 0;
    while i < terms.len()
        invariant
            i <= terms@.len(),
            vt == value_terms@.map_values(|t: String| t@),
            vt.to_set() == tokens(value@),
            forall|k: int| 0 <= k < i ==> !tokens(value@).contains(#[trigger] terms@[k]@),
        decreases terms@.len() - i,
    {
        let mut j: usize = 0;
        while j < value_terms.len()
            invariant
                j <= value_terms@.len(),
                i < terms@.len(),
                vt == value_terms@.map_values(|t: String| t@),
                vt.to_set() == tokens(value@),
                forall|k: int| 0 <= k < j ==> vt[k] != terms@[i as int]@,
            decreases value_terms@.len() - j,
        {
            if text_eq(value_terms[j].as_str(), terms[i].as_str()) {
                assert(vt[j as int] == terms@[i as int]@);
                assert(vt.to_set().contains(terms@[i as int]@));
                assert(views(terms@)[i as int] == terms@[i as int]@);
                assert(views(terms@).to_set().contains(terms@[i as int]@));
                assert(tokens(value@).contains(terms@[i as int]@));
                return true;
            }
            j = j + 1;
        }
        assert(!vt.to_set().contains(terms@[i as int]@)) by {
            if vt.to_set().contains(terms@[i as int]@) {
                let k = choose|k: int| 0 <= k < vt.len() && vt[k] == terms@[i as int]@;
            }
        }
        i = i + 1;
    }
    assert(!has_common_token(value@, views(terms@).to_set())) by {
        if has_common_token(value@, views(terms@).to_set()) {
            let t = choose|t: Seq<char>| views(terms@).to_set().contains(t) && #[trigger] tokens(value@).contains(t);
            let k = choose|k: int| 0 <= k < views(terms@).len() && views(terms@)[k] == t;
            assert(terms@[k]@ == t);
        }
    }
    false
}

/// The match quality of `value` for `query`, whose tokens are `terms`.
pub fn match_quality_exec(value: &str, query: &str, terms: &Vec<String>, exact: &str, partial: &str) -> (r: Option<(BundleConfidence, String)>)
    requires
        views(terms@).to_set() == tokens(query@),
    ensures
        match r {
            Some((c, s)) => match_quality(value@, query@, exact@, partial@) == Some((c, s@)),
            None => match_quality(value@, query@, exact@, partial@) is None,
        },
{
    if query.unicode_len() == 0 {
        return None;
    }
    let v = lower_text(value);
    let q = lower_text(query);
    if text_eq(v.as_str(), q.as_str()) {
        return Some((BundleConfidence::High, owned(exact)));
    }
    if contains_text(v.as_str(), q.as_str()) {
        return Some((BundleConfidence::Medium, owned(partial)));
    }
    if has_common_token_exec(value, terms) {
        return Some((BundleConfidence::Low, owned("query_token_overlap")));
    }
    None
}

pub open spec fn confidence_rank(c: BundleConfidence) -> u32 {
    match c {
        BundleConfidence::High => 0,
        BundleConfidence::Medium => 1,
        BundleConfidence::Low => 2,
        BundleConfidence::Insufficient => 3,
    }
}

pub fn confidence_rank_exec(c: BundleConfidence) -> (r: u32)
    ensures
        r == confidence_rank(c),
{
    match c {
        BundleConfidence::High => 0,
        BundleConfidence::Medium => 1,
        BundleConfidence::Low => 2,
        BundleConfidence::Insufficient => 3,
    }
}

// ---------------------------------------------------------------------------
// Candidate symbols
// ---------------------------------------------------------------------------

pub open spec fn symbol_candidate_view(c: CandidateSymbol) -> (Seq<char>, SymbolKind, Seq<char>, Seq<char>, SourceRange, BundleConfidence, Seq<char>, Seq<Seq<char>>) {
    (c.symbol_id@, c.kind, c.name@, c.path@, c.range, c.confidence, c.reason@, views(c.evidence_ids@))
}

pub open spec fn symbol_candidate_views(s: Seq<CandidateSymbol>) -> Seq<(Seq<char>, SymbolKind, Seq<char>, Seq<char>, SourceRange, BundleConfidence, Seq<char>, Seq<Seq<char>>)> {
    s.map_values(|c: CandidateSymbol| symbol_candidate_view(c))
}

/// How a symbol matches: by its name, else by its file's path.
pub open spec fn symbol_quality(s: SourceSymbol, query: Seq<char>) -> Option<(BundleConfidence, Seq<char>)> {
    match match_quality(s.name@, query, "exact_symbol_match"@, "symbol_substring_match"@) {
        Some(m) => Some(m),
        None => match_quality(s.path@, query, "exact_file_match"@, "path_substring_match"@),
    }
}

/// The candidate made of a symbol that matches the query.
pub open spec fn expected_symbol_candidate(s: SourceSymbol, query: Seq<char>) -> Option<(Seq<char>, SymbolKind, Seq<char>, Seq<char>, SourceRange, BundleConfidence, Seq<char>, Seq<Seq<char>>)> {
    match symbol_quality(s, query) {
        Some((c, reason)) => Some((s.id@, s.kind, s.name@, s.path@, s.range, c, reason, views(s.evidence_ids@))),
        None => None,
    }
}

pub open spec fn expected_symbol_candidates(symbols: Seq<SourceSymbol>, query: Seq<char>) -> Seq<(Seq<char>, SymbolKind, Seq<char>, Seq<char>, SourceRange, BundleConfidence, Seq<char>, Seq<Seq<char>>)>
    decreases symbols.len(),
{
    if symbols.len() == 0 {
        seq![]
    } else {
        let prev = expected_symbol_candidates(symbols.drop_last(), query);
        match expected_symbol_candidate(symbols.last(), query) {
            Some(v) => prev.push(v),
            None => prev,
        }
    }
}

impl Ordered for CandidateSymbol {
    open spec fn le(self, other: Self) -> bool {
        key4_le(
            confidence_rank(self.confidence), self.path@, self.name@, self.symbol_id@,
            confidence_rank(other.confidence), other.path@, other.name@, other.symbol_id@,
        )
    }

    proof fn lemma_le_transitive(a: Self, b: Self, c: Self) {
        lemma_key4_le_transitive(
            confidence_rank(a.confidence), a.path@, a.name@, a.symbol_id@,
            confidence_rank(b.confidence), b.path@, b.name@, b.symbol_id@,
            confidence_rank(c.confidence), c.path@, c.name@, c.symbol_id@,
        );
    }

    proof fn lemma_le_total(a: Self, b: Self) {
        lemma_key4_le_total(
            confidence_rank(a.confidence), a.path@, a.name@, a.symbol_id@,
            confidence_rank(b.confidence), b.path@, b.name@, b.symbol_id@,
        );
    }

    fn le_exec(&self, other: &Self) -> (r: bool) {
        key4_le_exec(
            confidence_rank_exec(self.confidence), self.path.as_str(), self.name.as_str(), self.symbol_id.as_str(),
            confidence_rank_exec(other.confidence), other.path.as_str(), other.name.as_str(), other.symbol_id.as_str(),
        )
    }
}

impl SameItem for CandidateSymbol {
    open spec fn same(self, other: Self) -> bool {
        self.symbol_id@ == other.symbol_id@
    }

    fn same_exec(&self, other: &Self) -> (r: bool) {
        text_eq(self.symbol_id.as_str(), other.symbol_id.as_str())
    }
}

/// The symbols that match the query, best first (by confidence, path, name and
/// identifier), one candidate per symbol identifier.
pub fn rank_symbol_candidates(symbols: &Vec<SourceSymbol>, query: &str, terms: &Vec<String>) -> (r: Vec<CandidateSymbol>)
    requires
        views(terms@).to_set() == tokens(query@),
    ensures
        exists|p: Seq<CandidateSymbol>|
            sorted(p) && symbol_candidate_views(p).to_multiset() == expected_symbol_candidates(symbols@, query@).to_multiset()
                && r@ == dedup_spec(p),
{
    let mut pre: Vec<CandidateSymbol> = Vec::new();
    let mut i: usize = 0;
    while i < symbols.len()
        invariant
            i <= symbols@.len(),
            views(terms@).to_set() == tokens(query@),
            symbol_candidate_views(pre@) == expected_symbol_candidates(symbols@.take(i as int), query@),
        decreases symbols@.len() - i,
    {
        let s = &symbols[i];
        let ghost before = pre@;
        assert(symbols@.take(i + 1).drop_last() =~= symbols@.take(i as int));
        assert(symbols@.take(i + 1).last() == *s);
        let quality = match match_quality_exec(s.name.as_str(), query, terms, "exact_symbol_match", "symbol_substring_match") {
            Some(m) => Some(m),
            None => match_quality_exec(s.path.as_str(), query, terms, "exact_file_match", "path_substring_match"),
        };
        match quality {
            Some((c, reason)) => {
                let cand = CandidateSymbol {
                    symbol_id: s.id.clone(),
                    kind: s.kind,
                    name: s.name.clone(),
                    path: s.path.clone(),
                    range: s.range,
                    confidence: c,
                    reason,
                    evidence_ids: crate::repo_graph::types::copy_strings(&s.evidence_ids),
                };
                pre.push(cand);
                assert(symbol_candidate_views(pre@) =~= symbol_candidate_views(before).push(symbol_candidate_view(cand)));
            },
            None => {},
        }
        i = i + 1;
    }
    assert(symbols@.take(symbols@.len() as int) =~= symbols@);
    let ranked = sort_items(pre);
    proof {
        lemma_map_multiset(ranked@, pre@, |c: CandidateSymbol| symbol_candidate_view(c));
    }
    let r = dedup_items(ranked);
    r
}

// ---------------------------------------------------------------------------
// Candidate files
// ---------------------------------------------------------------------------

pub open spec fn file_candidate_view(c: CandidateFile) -> (Seq<char>, SourceLanguage, ParseStatus, BundleConfidence, Seq<char>, Seq<Seq<char>>) {
    (c.path@, c.language, c.parse_status, c.confidence, c.reason@, views(c.evidence_ids@))
}

pub open spec fn file_candidate_views(s: Seq<CandidateFile>) -> Seq<(Seq<char>, SourceLanguage, ParseStatus, BundleConfidence, Seq<char>, Seq<Seq<char>>)> {
    s.map_values(|c: CandidateFile| file_candidate_view(c))
}

/// The candidate made of a source file whose path matches the query.
pub open spec fn expected_file_candidate(f: SourceFile, query: Seq<char>) -> Option<(Seq<char>, SourceLanguage, ParseStatus, BundleConfidence, Seq<char>, Seq<Seq<char>>)> {
    match match_quality(f.path@, query, "exact_file_match"@, "path_substring_match"@) {
        Some((c, reason)) => Some((f.path@, f.language, f.parse_status, c, reason, views(f.evidence_ids@))),
        None => None,
    }
}

pub open spec fn expected_file_candidates(files: Seq<SourceFile>, query: Seq<char>) -> Seq<(Seq<char>, SourceLanguage, ParseStatus, BundleConfidence, Seq<char>, Seq<Seq<char>>)>
    decreases files.len(),
{
    if files.len() == 0 {
        seq![]
    } else {
        let prev = expected_file_candidates(files.drop_last(), query);
        match expected_file_candidate(files.last(), query) {
            Some(v) => prev.push(v),
            None => prev,
        }
    }
}

/// The first source file with the given path.
pub open spec fn first_file_with_path(files: Seq<SourceFile>, path: Seq<char>) -> Option<SourceFile>
    decreases files.len(),
{
    if files.len() == 0 {
        None
    } else if files[0].path@ == path {
        Some(files[0])
    } else {
        first_file_with_path(files.drop_first(), path)
    }
}

/// For each candidate symbol, the file that contains it, with the symbol's confidence.
pub open spec fn containing_file_entries(cands: Seq<CandidateSymbol>, files: Seq<SourceFile>) -> Seq<(Seq<char>, SourceLanguage, ParseStatus, BundleConfidence, Seq<char>, Seq<Seq<char>>)>
    decreases cands.len(),
{
    if cands.len() == 0 {
        seq![]
    } else {
        let prev = containing_file_entries(cands.drop_last(), files);
        match first_file_with_path(files, cands.last().path@) {
            Some(f) => prev.push((f.path@, f.language, f.parse_status, cands.last().confidence, "contains_candidate_symbol"@, views(f.evidence_ids@))),
            None => prev,
        }
    }
}

impl Ordered for CandidateFile {
    open spec fn le(self, other: Self) -> bool {
        key_le(confidence_rank(self.confidence), self.path@, seq![], confidence_rank(other.confidence), other.path@, seq![])
    }

    proof fn lemma_le_transitive(a: Self, b: Self, c: Self) {
        lemma_key_le_transitive(
            confidence_rank(a.confidence), a.path@, seq![],
            confidence_rank(b.confidence), b.path@, seq![],
            confidence_rank(c.confidence), c.path@, seq![],
        );
    }

    proof fn lemma_le_total(a: Self, b: Self) {
        lemma_key_le_total(confidence_rank(a.confidence), a.path@, seq![], confidence_rank(b.confidence), b.path@, seq![]);
    }

    fn le_exec(&self, other: &Self) -> (r: bool) {
        proof {
            reveal_strlit("");
        }
        key_le_exec(confidence_rank_exec(self.confidence), self.path.as_str(), "", confidence_rank_exec(other.confidence), other.path.as_str(), "")
    }
}

impl SameItem for CandidateFile {
    open spec fn same(self, other: Self) -> bool {
        self.path@ == other.path@
    }

    fn same_exec(&self, other: &Self) -> (r: bool) {
        text_eq(self.path.as_str(), other.path.as_str())
    }
}

fn first_file_with_path_exec(files: &Vec<SourceFile>, path: &str) -> (r: Option<usize>)
    ensures
        match r {
            Some(k) => k < files@.len() && first_file_with_path(files@, path@) == Some(files@[k as int]),
            None => first_file_with_path(files@, path@) is None,
        },
{
    let mut i: usize = 0;
    assert(files@.skip(0) =~= files@);
    while i < files.len()
        invariant
            i <= files@.len(),
            first_file_with_path(files@, path@) == first_file_with_path(files@.skip(i as int), path@),
        decreases files@.len() - i,
    {
        assert(files@.skip(i as int)[0] == files@[i as int]);
        if text_eq(files[i].path.as_str(), path) {
            return Some(i);
        }
        assert(files@.skip(i as int).drop_first() =~= files@.skip(i + 1));
        i = i + 1;
    }
    assert(files@.skip(i as int).len() == 0);
    None
}

fn copy_file_entry(f: &SourceFile, confidence: BundleConfidence, reason: String) -> (c: CandidateFile)
    ensures
        file_candidate_view(c) == (f.path@, f.language, f.parse_status, confidence, reason@, views(f.evidence_ids@)),
{
    CandidateFile {
        path: f.path.clone(),
        language: f.language,
        parse_status: f.parse_status,
        confidence,
        reason,
        evidence_ids: crate::repo_graph::types::copy_strings(&f.evidence_ids),
    }
}

/// The files that match the query or contain a candidate symbol, best first (by
/// confidence and path), one candidate per path.
pub fn rank_file_candidates(files: &Vec<SourceFile>, symbols: &Vec<CandidateSymbol>, query: &str, terms: &Vec<String>) -> (r: Vec<CandidateFile>)
    requires
        views(terms@).to_set() == tokens(query@),
    ensures
        exists|p: Seq<CandidateFile>|
            sorted(p) && file_candidate_views(p).to_multiset() == (expected_file_candidates(files@, query@)
                + containing_file_entries(symbols@, files@)).to_multiset() && r@ == dedup_spec(p),
{
    let mut pre: Vec<CandidateFile> = Vec::new();
    let mut i: usize = 0;
    while i < files.len()
        invariant
            i <= files@.len(),
            views(terms@).to_set() == tokens(query@),
            file_candidate_views(pre@) == expected_file_candidates(files@.take(i as int), query@),
        decreases files@.len() - i,
    {
        let f = &files[i];
        let ghost before = pre@;
        assert(files@.take(i + 1).drop_last() =~= files@.take(i as int));
        assert(files@.take(i + 1).last() == *f);
        match match_quality_exec(f.path.as_str(), query, terms, "exact_file_match", "path_substring_match") {
            Some((c, reason)) => {
                let cand = copy_file_entry(f, c, reason);
                pre.push(cand);
                assert(file_candidate_views(pre@) =~= file_candidate_views(before).push(file_candidate_view(cand)));
            },
            None => {},
        }
        i = i + 1;
    }
    assert(files@.take(files@.len() as int) =~= files@);
    let ghost from_files = file_candidate_views(pre@);
    let mut j: usize = 0;
    while j < symbols.len()
        invariant
            j <= symbols@.len(),
            from_files == expected_file_candidates(files@, query@),
            file_candidate_views(pre@) == from_files + containing_file_entries(symbols@.take(j as int), files@),
        decreases symbols@.len() - j,
    {
        let c = &symbols[j];
        let ghost before = pre@;
        assert(symbols@.take(j + 1).drop_last() =~= symbols@.take(j as int));
        assert(symbols@.take(j + 1).last() == *c);
        match first_file_with_path_exec(files, c.path.as_str()) {
            Some(k) => {
                let cand = copy_file_entry(&files[k], c.confidence, owned("contains_candidate_symbol"));
                pre.push(cand);
                assert(file_candidate_views(pre@) =~= file_candidate_views(before).push(file_candidate_view(cand)));
            },
            None => {},
        }
        j = j + 1;
    }
    assert(symbols@.take(symbols@.len() as int) =~= symbols@);
    let ranked = sort_items(pre);
    proof {
        lemma_map_multiset(ranked@, pre@, |c: CandidateFile| file_candidate_view(c));
    }
    dedup_items(ranked)
}

} // verus!
