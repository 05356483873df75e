use vstd::prelude::*;
use vstd::utf8::{decode_utf8, encode_utf8, valid_utf8};

use super::slicing::{
    content_hash, hex_digits, fnv1a, line_count, lemma_encode_len, lemma_utf8_len_prefix, longest_fitting_prefix, slice_lines, slice_text,
    start_byte_of, end_byte_of, truncate_to_bytes, utf8_len, utf8_len_capped,
};
use super::{
    source_context_valid, LineRange, SourceContextReport, SourceContextSelector, SourceContextSlice,
    SourceContextStatus, SourceContextWarning, SourceContextWarningCategory, DEFAULT_FILE_LINES,
    MAX_BYTES_PER_SLICE, MAX_LINES_PER_SLICE, MAX_SLICES, MAX_TOTAL_BYTES,
    SOURCE_CONTEXT_CONTRACT_VERSION, SYMBOL_CONTEXT_LINES,
};
use crate::order::{dedup_items, dedup_spec, lemma_dedup_covers, lemma_dedup_subset, lemma_same_elements, sort_items, sorted, Ordered, SameItem};
use crate::repo_graph::types::{evidence_id_set, ids_backed, opt_backed, opt_text, DetectionSeverity, Evidence};
use crate::symbol_graph::{SourceLanguage, SourceSymbol, SymbolGraph};
use crate::text::{
    chars_of, concat2, concat3, decimal_text, ends_with_text, lemma_seq_lt_total, lemma_seq_lt_transitive,
    normalize_slashes, owned, seq_le, seq_lt, slashes, stable_id, stable_id_spec, string_from_chars, text_eq, text_less,
    trim_text, trim_ws, utf8_text,
};
use crate::textset::{insert_sorted_unique, strictly_sorted, views};

verus! {

// ---------------------------------------------------------------------------
// What the filesystem says about a selected path
// ---------------------------------------------------------------------------

/// How a selected relative path resolves in the repository.
pub enum PathProbe {
    /// Nothing exists at the path.
    Missing,
    /// Some component of the path is a symbolic link.
    Symlink,
    /// The path could not be resolved.
    Unresolved,
    /// The path resolves outside the repository.
    Outside,
    /// The path resolves to something that is not a file.
    NotFile,
    /// The path resolves to this file, relative to the repository root.
    File { relative: String },
}

/// What was read for one selector: how its path resolves (for a file selector) and
/// the bytes of the file to slice (`None` when it could not be read).
pub struct SelectorInput {
    pub probe: PathProbe,
    pub bytes: Option<Vec<u8>>,
}

// ---------------------------------------------------------------------------
// Paths
// ---------------------------------------------------------------------------

/// The `/`-separated parts of a path.
pub open spec fn path_parts(s: Seq<char>) -> Seq<Seq<char>>
    decreases s.len(),
{
    if s.len() == 0 {
        seq![seq![]]
    } else {
        let prev = path_parts(s.drop_last());
        if s.last() == '/' {
            prev.push(seq![])
        } else {
            prev.update(prev.len() - 1, prev.last().push(s.last()))
        }
    }
}

/// The directories that are never sliced.
pub open spec fn is_ignored_name(n: Seq<char>) -> bool {
    n == ".git"@ || n == "target"@ || n == "node_modules"@ || n == "dist"@ || n == "build"@ || n == ".cache"@
        || n == ".venv"@ || n == "__pycache__"@ || n == "coverage"@
}

/// The path is absolute or has a `..` part.
pub open spec fn escapes_root(p: Seq<char>) -> bool {
    "/"@.is_prefix_of(p) || path_parts(p).contains(".."@)
}

/// Some part of the path names an ignored directory.
pub open spec fn has_ignored_part(p: Seq<char>) -> bool {
    exists|i: int| 0 <= i < path_parts(p).len() && is_ignored_name(#[trigger] path_parts(p)[i])
}

fn is_ignored_name_exec(n: &str) -> (r: bool)
    ensures
        r == is_ignored_name(n@),
{
    text_eq(n, ".git") || text_eq(n, "target") || text_eq(n, "node_modules") || text_eq(n, "dist") || text_eq(n, "build")
        || text_eq(n, ".cache") || text_eq(n, ".venv") || text_eq(n, "__pycache__") || text_eq(n, "coverage")
}

pub fn path_parts_exec(p: &str) -> (r: Vec<String>)
    ensures
        views(r@) == path_parts(p@),
{
    let v = chars_of(p);
    let mut done: Vec<String> = Vec::new();
    let mut cur: Vec<char> = Vec::new();
    let mut i: usize = 0;
    while i < v.len()
        invariant
            v@ == p@,
            i <= v@.len(),
            path_parts(v@.take(i as int)) == views(done@).push(cur@),
        decreases v@.len() - i,
    {
        assert(v@.take(i + 1).drop_last() =~= v@.take(i as int));
        assert(v@.take(i + 1).last() == v[i as int]);
        let ghost before = views(done@);
        if v[i] == '/' {
            let part = string_from_chars(cur.as_slice());
            done.push(part);
            cur = Vec::new();
            assert(views(done@) =~= before.push(part@));
            assert(path_parts(v@.take(i + 1)) =~= views(done@).push(cur@));
        } else {
            cur.push(v[i]);
            assert(path_parts(v@.take(i + 1)) =~= before.push(cur@));
        }
        i = i + 1;
    }
    assert(v@.take(v@.len() as int) =~= v@);
    let last = string_from_chars(cur.as_slice());
    let ghost before = views(done@);
    done.push(last);
    assert(views(done@) =~= before.push(last@));
    done
}

pub fn escapes_root_exec(p: &str) -> (r: bool)
    ensures
        r == escapes_root(p@),
{
    if crate::text::starts_with_text(p, "/") {
        return true;
    }
    let parts = path_parts_exec(p);
    let mut i: usize = 0;
    while i < parts.len()
        invariant
            i <= parts@.len(),
            views(parts@) == path_parts(p@),
            forall|k: int| 0 <= k < i ==> views(parts@)[k] != ".."@,
        decreases parts@.len() - i,
    {
        assert(views(parts@)[i as int] == parts@[i as int]@);
        if text_eq(parts[i].as_str(), "..") {
            assert(path_parts(p@).contains(".."@));
            return true;
        }
        i = i + 1;
    }
    false
}

pub fn has_ignored_part_exec(p: &str) -> (r: bool)
    ensures
        r == has_ignored_part(p@),
{
    let parts = path_parts_exec(p);
    let mut i: usize = 0;
    while i < parts.len()
        invariant
            i <= parts@.len(),
            views(parts@) == path_parts(p@),
            forall|k: int| 0 <= k < i ==> !is_ignored_name(#[trigger] path_parts(p@)[k]),
        decreases parts@.len() - i,
    {
        assert(views(parts@)[i as int] == parts@[i as int]@);
        if is_ignored_name_exec(parts[i].as_str()) {
            return true;
        }
        i = i + 1;
    }
    false
}

/// The file name of the path has the extension `rs`.
pub open spec fn is_rust_path(p: Seq<char>) -> bool {
    let name = path_parts(p).last();
    ".rs"@.is_suffix_of(name) && name.len() > 3
}

fn is_rust_path_exec(p: &str) -> (r: bool)
    ensures
        r == is_rust_path(p@),
{
    let parts = path_parts_exec(p);
    proof {
        crate::text::lemma_newline_split_nonempty(seq![]);
        lemma_path_parts_nonempty(p@);
    }
    let name = &parts[parts.len() - 1];
    assert(name@ == path_parts(p@).last());
    proof {
        reveal_strlit(".rs");
    }
    ends_with_text(name.as_str(), ".rs") && chars_of(name.as_str()).len() > 3
}

proof fn lemma_path_parts_nonempty(s: Seq<char>)
    ensures
        path_parts(s).len() > 0,
    decreases s.len(),
{
    if s.len() > 0 {
        lemma_path_parts_nonempty(s.drop_last());
    }
}

// ---------------------------------------------------------------------------
// The builder
// ---------------------------------------------------------------------------

/// Collects the slices, evidence and warnings of a source context report.
pub struct SourceContextBuilder {
    pub selectors: Vec<SourceContextSelector>,
    pub slices: Vec<SourceContextSlice>,
    pub evidence: Vec<Evidence>,
    pub warnings: Vec<SourceContextWarning>,
    pub total_bytes: usize,
}

pub open spec fn category_name(c: SourceContextWarningCategory) -> Seq<char> {
    match c {
        SourceContextWarningCategory::AmbiguousSymbolSelector => "AmbiguousSymbolSelector"@,
        SourceContextWarningCategory::BinaryFile => "BinaryFile"@,
        SourceContextWarningCategory::IgnoredPath => "IgnoredPath"@,
        SourceContextWarningCategory::MissingFile => "MissingFile"@,
        SourceContextWarningCategory::NonUtf8File => "NonUtf8File"@,
        SourceContextWarningCategory::PathOutsideRepo => "PathOutsideRepo"@,
        SourceContextWarningCategory::SliceTruncated => "SliceTruncated"@,
        SourceContextWarningCategory::SourceContextLimitExceeded => "SourceContextLimitExceeded"@,
        SourceContextWarningCategory::SourceContextNotLocalization => "SourceContextNotLocalization"@,
        SourceContextWarningCategory::SymbolNotFound => "SymbolNotFound"@,
        SourceContextWarningCategory::SymlinkIgnored => "SymlinkIgnored"@,
        SourceContextWarningCategory::UnsupportedLanguage => "UnsupportedLanguage"@,
    }
}

fn category_label(c: SourceContextWarningCategory) -> (r: &'static str)
    ensures
        r@ == category_name(c),
{
    match c {
        SourceContextWarningCategory::AmbiguousSymbolSelector => "AmbiguousSymbolSelector",
        SourceContextWarningCategory::BinaryFile => "BinaryFile",
        SourceContextWarningCategory::IgnoredPath => "IgnoredPath",
        SourceContextWarningCategory::MissingFile => "MissingFile",
        SourceContextWarningCategory::NonUtf8File => "NonUtf8File",
        SourceContextWarningCategory::PathOutsideRepo => "PathOutsideRepo",
        SourceContextWarningCategory::SliceTruncated => "SliceTruncated",
        SourceContextWarningCategory::SourceContextLimitExceeded => "SourceContextLimitExceeded",
        SourceContextWarningCategory::SourceContextNotLocalization => "SourceContextNotLocalization",
        SourceContextWarningCategory::SymbolNotFound => "SymbolNotFound",
        SourceContextWarningCategory::SymlinkIgnored => "SymlinkIgnored",
        SourceContextWarningCategory::UnsupportedLanguage => "UnsupportedLanguage",
    }
}

/// The identifier of a warning: its category, its path (or `repo`) and its message.
pub open spec fn warning_id(c: SourceContextWarningCategory, path: Option<Seq<char>>, message: Seq<char>) -> Seq<char> {
    let place = match path {
        Some(p) => slashes(p),
        None => "repo"@,
    };
    stable_id_spec("source-context-warning"@, category_name(c) + "-"@ + place + "-"@ + message)
}

/// The sum of the UTF-8 lengths of the slice texts.
pub open spec fn slice_bytes(s: Seq<SourceContextSlice>) -> nat
    decreases s.len(),
{
    if s.len() == 0 {
        0
    } else {
        slice_bytes(s.drop_last()) + utf8_len(s.last().text@)
    }
}

proof fn lemma_evidence_push(ev: Seq<Evidence>, e: Evidence)
    ensures
        evidence_id_set(ev.push(e)) == evidence_id_set(ev).insert(e.id@),
{
    let a = ev.map_values(|x: Evidence| x.id@);
    let b = ev.push(e).map_values(|x: Evidence| x.id@);
    assert(b =~= a.push(e.id@));
    crate::text::lemma_push_to_set(a, e.id@);
}

/// What a slice promises of itself: bounded lines and bytes.
pub open spec fn slice_bounded(s: SourceContextSlice) -> bool {
    &&& 1 <= s.start_line <= s.end_line
    &&& s.end_line - s.start_line < MAX_LINES_PER_SLICE
    &&& utf8_len(s.text@) <= MAX_BYTES_PER_SLICE
}

/// The bytes hold a zero byte, the mark of a binary file.
pub open spec fn has_zero_byte(b: Seq<u8>) -> bool {
    exists|i: int| 0 <= i < b.len() && b[i] == 0
}

pub open spec fn opt_bytes(b: Option<Vec<u8>>) -> Option<Seq<u8>> {
    match b {
        Some(v) => Some(v@),
        None => None,
    }
}

/// Why a file is not sliced, if it is not: the slice limit is reached, it is not a
/// Rust file, it could not be read, it is binary, or it is not UTF-8.
pub open spec fn slice_refusal(count: nat, path: Seq<char>, bytes: Option<Seq<u8>>) -> Option<SourceContextWarningCategory> {
    if count >= MAX_SLICES {
        Some(SourceContextWarningCategory::SourceContextLimitExceeded)
    } else if !is_rust_path(path) {
        Some(SourceContextWarningCategory::UnsupportedLanguage)
    } else {
        match bytes {
            None => Some(SourceContextWarningCategory::MissingFile),
            Some(b) => if has_zero_byte(b) {
                Some(SourceContextWarningCategory::BinaryFile)
            } else if !valid_utf8(b) {
                Some(SourceContextWarningCategory::NonUtf8File)
            } else {
                None
            },
        }
    }
}

/// The first line sliced: the requested one, within `1..=n`.
pub open spec fn clamp_start(requested: LineRange, n: nat) -> int {
    if requested.start_line < 1 {
        1
    } else if requested.start_line > n {
        n as int
    } else {
        requested.start_line as int
    }
}

/// The last line asked for: the requested one, within `start..=n`.
pub open spec fn clamp_end(requested: LineRange, n: nat, start: int) -> int {
    if requested.end_line < start {
        start
    } else if requested.end_line > n {
        n as int
    } else {
        requested.end_line as int
    }
}

/// The last line sliced: at most `MAX_LINES_PER_SLICE` lines from `start`.
pub open spec fn cap_end(start: int, end: int) -> int {
    if end - start > MAX_LINES_PER_SLICE - 1 {
        start + MAX_LINES_PER_SLICE - 1
    } else {
        end
    }
}

/// The bytes a new slice may hold when `used` bytes are already in the report.
pub open spec fn byte_budget(used: nat) -> nat {
    if MAX_TOTAL_BYTES - used < MAX_BYTES_PER_SLICE {
        (MAX_TOTAL_BYTES - used) as nat
    } else {
        MAX_BYTES_PER_SLICE as nat
    }
}

/// Lines `start..=end` and their text, cut from `contents` for the requested lines:
/// the clamped and capped lines, their text cut at the last character boundary within
/// the byte budget, marked truncated when lines or bytes were cut.
pub open spec fn cut_ok(
    start_line: usize,
    end_line: usize,
    start_byte: Option<usize>,
    end_byte: Option<usize>,
    text: Seq<char>,
    truncated: bool,
    contents: Seq<char>,
    requested: LineRange,
    used: nat,
) -> bool {
    let n = line_count(contents);
    let start = clamp_start(requested, n);
    let asked_end = clamp_end(requested, n, start);
    let end = cap_end(start, asked_end);
    let full = slice_lines(contents, start, end);
    &&& start_line == start
    &&& end_line == end
    &&& start_byte matches Some(b) && b == start_byte_of(contents, start)
    &&& end_byte matches Some(b) && b == end_byte_of(contents, end)
    &&& exists|k: int| longest_fitting_prefix(full, byte_budget(used), k) && text == full.take(k)
    &&& truncated == (end < asked_end || text.len() < full.len())
}

/// `s` is the slice of `contents` for the requested lines (see `cut_ok`), of the
/// Rust file at `path`.
pub open spec fn slice_cut_from(
    s: SourceContextSlice,
    contents: Seq<char>,
    requested: LineRange,
    used: nat,
    path: Seq<char>,
    reason: Seq<char>,
    symbol_id: Option<Seq<char>>,
) -> bool {
    &&& cut_ok(s.start_line, s.end_line, s.start_byte, s.end_byte, s.text@, s.truncated, contents, requested, used)
    &&& s.file_path@ == slashes(path)
    &&& s.reason@ == reason
    &&& s.language == SourceLanguage::Rust
    &&& opt_text(s.symbol_id) == symbol_id
}

/// Warnings only grow: the earlier ones stay, in order.
pub open spec fn kept_prefix<T>(a: Seq<T>, b: Seq<T>) -> bool {
    a.len() <= b.len() && forall|i: int| 0 <= i < a.len() ==> b[i] == a[i]
}

/// The lines and text of one slice, before it is recorded.
struct SliceCut {
    start_line: usize,
    end_line: usize,
    text: String,
    truncated: bool,
    over_total: bool,
    start_byte: usize,
    end_byte: usize,
}

/// `a - b`, or 0 when `b` is larger.
pub open spec fn sat_sub(a: usize, b: usize) -> usize {
    if a > b {
        (a - b) as usize
    } else {
        0
    }
}

/// What a slice records of the symbol it was cut for: the symbol's name and kind, and
/// how many lines of context precede and follow the symbol's own lines; nothing
/// for a file slice.
pub open spec fn symbol_fields_ok(s: SourceContextSlice, symbol: Option<SourceSymbol>) -> bool {
    match symbol {
        Some(sym) => {
            &&& opt_text(s.symbol_name) == Some(sym.name@)
            &&& s.symbol_kind == Some(sym.kind)
            &&& s.context_before_lines == sat_sub(sym.range.start_line, s.start_line)
            &&& s.context_after_lines == sat_sub(s.end_line, sym.range.end_line)
        },
        None => {
            &&& s.symbol_name is None
            &&& s.symbol_kind is None
            &&& s.context_before_lines == 0
            &&& s.context_after_lines == 0
        },
    }
}

pub open spec fn symbol_id_of(symbol: Option<SourceSymbol>) -> Option<Seq<char>> {
    match symbol {
        Some(sym) => Some(sym.id@),
        None => None,
    }
}

pub open spec fn symbol_evidence_of(symbol: Option<SourceSymbol>) -> Set<Seq<char>> {
    match symbol {
        Some(sym) => views(sym.evidence_ids@).to_set(),
        None => Set::empty(),
    }
}

/// One warning appended, with the category, severity `Warning` and the path; the
/// slices, evidence and byte total unchanged.
pub open spec fn refused_with(before: SourceContextBuilder, after: SourceContextBuilder, path: Seq<char>, c: SourceContextWarningCategory) -> bool {
    &&& after.slices@ == before.slices@
    &&& after.evidence@ == before.evidence@
    &&& after.total_bytes == before.total_bytes
    &&& after.warnings@ == before.warnings@.push(after.warnings@.last())
    &&& after.warnings@.last().category == c
    &&& after.warnings@.last().severity == DetectionSeverity::Warning
    &&& opt_text(after.warnings@.last().path) == Some(slashes(path))
}

/// What slicing a file does to the builder: a warning of the refusal's category and
/// nothing more when the file is refused; else one slice cut from the decoded text
/// (see `slice_cut_from`), with the symbol's fields and evidence, evidence
/// identifiers in increasing order, and, when it was truncated, a last warning that
/// says so and names one of those identifiers (no warning otherwise).
pub open spec fn sliced(
    before: SourceContextBuilder,
    after: SourceContextBuilder,
    path: Seq<char>,
    requested: LineRange,
    reason: Seq<char>,
    symbol: Option<SourceSymbol>,
    bytes: Option<Seq<u8>>,
) -> bool {
    &&& after.selectors == before.selectors
    &&& kept_prefix(before.warnings@, after.warnings@)
    &&& match slice_refusal(before.slices@.len(), path, bytes) {
        Some(c) => refused_with(before, after, path, c),
        None => {
            let s = after.slices@.last();
            &&& after.slices@ == before.slices@.push(s)
            &&& slice_cut_from(s, decode_utf8(bytes->0), requested, before.total_bytes as nat, path, reason, symbol_id_of(symbol))
            &&& symbol_evidence_of(symbol).subset_of(views(s.evidence_ids@).to_set())
            &&& strictly_sorted(views(s.evidence_ids@))
            &&& symbol_fields_ok(s, symbol)
            &&& !s.truncated ==> after.warnings@ == before.warnings@
            &&& s.truncated ==> {
                let w = after.warnings@.last();
                &&& after.warnings@.len() > before.warnings@.len()
                &&& w.category == SourceContextWarningCategory::SliceTruncated
                &&& w.severity == DetectionSeverity::Info
                &&& opt_text(w.path) == Some(slashes(path))
                &&& w.evidence_id matches Some(e) && views(s.evidence_ids@).contains(e@)
            }
        },
    }
}

/// How a selected path resolves: refused with a warning of the given category
/// (empty, absolute or with `..`; in an ignored directory; or as the filesystem
/// probe says), or the file's path relative to the repository root.
pub open spec fn path_resolution(path: Seq<char>, probe: PathProbe) -> Result<Seq<char>, SourceContextWarningCategory> {
    if trim_ws(path).len() == 0 || escapes_root(path) {
        Err(SourceContextWarningCategory::PathOutsideRepo)
    } else if has_ignored_part(path) {
        Err(SourceContextWarningCategory::IgnoredPath)
    } else {
        match probe {
            PathProbe::Missing => Err(SourceContextWarningCategory::MissingFile),
            PathProbe::Symlink => Err(SourceContextWarningCategory::SymlinkIgnored),
            PathProbe::Unresolved => Err(SourceContextWarningCategory::MissingFile),
            PathProbe::Outside => Err(SourceContextWarningCategory::PathOutsideRepo),
            PathProbe::NotFile => Err(SourceContextWarningCategory::MissingFile),
            PathProbe::File { relative } => Ok(relative@),
        }
    }
}

/// The lines a file selector asks for: its range, or the first `DEFAULT_FILE_LINES`.
pub open spec fn file_range(line_range: Option<LineRange>) -> LineRange {
    match line_range {
        Some(r) => r,
        None => LineRange { start_line: 1, end_line: DEFAULT_FILE_LINES },
    }
}

/// The lines a symbol selector asks for: the symbol's lines with
/// `SYMBOL_CONTEXT_LINES` of context on each side.
pub open spec fn symbol_range(sym: SourceSymbol) -> LineRange {
    let start = if sym.range.start_line <= SYMBOL_CONTEXT_LINES { 0 } else { sym.range.start_line - SYMBOL_CONTEXT_LINES };
    let end = if sym.range.end_line > usize::MAX - SYMBOL_CONTEXT_LINES { usize::MAX as int } else { sym.range.end_line + SYMBOL_CONTEXT_LINES };
    LineRange { start_line: if start < 1 { 1 } else { start as usize }, end_line: end as usize }
}

/// The first symbol with the identifier, if any.
pub open spec fn first_symbol(symbols: Seq<SourceSymbol>, id: Seq<char>) -> Option<int>
    decreases symbols.len(),
{
    if symbols.len() == 0 {
        None
    } else {
        match first_symbol(symbols.drop_last(), id) {
            Some(i) => Some(i),
            None => if symbols.last().id@ == id {
                Some(symbols.len() - 1)
            } else {
                None
            },
        }
    }
}

proof fn lemma_first_symbol(symbols: Seq<SourceSymbol>, id: Seq<char>)
    ensures
        match first_symbol(symbols, id) {
            Some(i) => 0 <= i < symbols.len() && symbols[i].id@ == id && forall|j: int| 0 <= j < i ==> symbols[j].id@ != id,
            None => forall|j: int| 0 <= j < symbols.len() ==> symbols[j].id@ != id,
        },
    decreases symbols.len(),
{
    if symbols.len() > 0 {
        let d = symbols.drop_last();
        lemma_first_symbol(d, id);
        assert forall|j: int| 0 <= j < d.len() implies d[j] == symbols[j] by {}
    }
}

/// The index of the first symbol with the identifier.
pub fn find_symbol(symbols: &Vec<SourceSymbol>, id: &str) -> (r: Option<usize>)
    ensures
        match r {
            Some(i) => i < symbols@.len() && first_symbol(symbols@, id@) == Some(i as int),
            None => first_symbol(symbols@, id@) is None,
        },
{
    proof {
        lemma_first_symbol(symbols@, id@);
    }
    let mut i: usize = 0;
    while i < symbols.len()
        invariant
            i <= symbols@.len(),
            forall|j: int| 0 <= j < i ==> symbols@[j].id@ != id@,
        decreases symbols@.len() - i,
    {
        if text_eq(symbols[i].id.as_str(), id) {
            proof {
                lemma_first_symbol(symbols@, id@);
                match first_symbol(symbols@, id@) {
                    Some(k) => {
                        if k < i {
                        } else if k > i {
                        }
                    },
                    None => {},
                }
            }
            return Some(i);
        }
        i = i + 1;
    }
    None
}

proof fn lemma_fitting_prefix_compose(t: Seq<char>, m1: nat, k1: int, m2: nat, k2: int)
    requires
        longest_fitting_prefix(t, m1, k1),
        longest_fitting_prefix(t.take(k1), m2, k2),
    ensures
        longest_fitting_prefix(t, if m2 < m1 { m2 } else { m1 }, k2),
        t.take(k1).take(k2) == t.take(k2),
{
    let u = t.take(k1);
    assert(u.take(k2) =~= t.take(k2));
    lemma_utf8_len_prefix(t, k2, k1);
    if k2 < k1 {
        assert(u.take(k2 + 1) =~= t.take(k2 + 1));
    }
}


fn cut_slice(contents: &str, requested: LineRange, used: usize) -> (c: SliceCut)
    requires
        used <= MAX_TOTAL_BYTES,
        utf8_len(contents@) <= usize::MAX,
    ensures
        cut_ok(c.start_line, c.end_line, Some(c.start_byte), Some(c.end_byte), c.text@, c.truncated, contents@, requested, used as nat),
        1 <= c.start_line <= c.end_line,
        c.end_line - c.start_line < MAX_LINES_PER_SLICE,
        utf8_len(c.text@) <= byte_budget(used as nat),
        c.over_total ==> c.truncated,
{
    let lines = crate::text::split_lines(contents);
    let n_lines: usize = if lines.len() == 0 { 1 } else { lines.len() };
    let start_line: usize = if requested.start_line < 1 {
        1
    } else if requested.start_line > n_lines {
        n_lines
    } else {
        requested.start_line
    };
    let requested_end: usize = if requested.end_line < start_line {
        if start_line > n_lines { n_lines } else { start_line }
    } else if requested.end_line > n_lines {
        n_lines
    } else {
        requested.end_line
    };
    let capped_end: usize = if requested_end - start_line > MAX_LINES_PER_SLICE - 1 {
        start_line + (MAX_LINES_PER_SLICE - 1)
    } else {
        requested_end
    };
    let mut truncated = capped_end < requested_end;
    let (full_text, start_byte, end_byte) = slice_text(contents, start_line, capped_end);
    let chars = chars_of(full_text.as_str());
    let ghost mut k1: int = chars@.len() as int;
    let mut text_chars = if utf8_len_capped(&chars) > MAX_BYTES_PER_SLICE {
        truncated = true;
        truncate_to_bytes(&chars, MAX_BYTES_PER_SLICE)
    } else {
        chars.clone()
    };
    proof {
        if utf8_len(chars@) > MAX_BYTES_PER_SLICE {
            k1 = choose|kk: int| longest_fitting_prefix(chars@, MAX_BYTES_PER_SLICE as nat, kk) && text_chars@ == chars@.take(kk);
        } else {
            assert(chars@.take(k1) =~= chars@);
        }
    }
    assert(longest_fitting_prefix(chars@, MAX_BYTES_PER_SLICE as nat, k1) && text_chars@ == chars@.take(k1));
    assert(utf8_len(text_chars@) <= MAX_BYTES_PER_SLICE);
    let ghost first_cut = text_chars@;
    let remaining: usize = MAX_TOTAL_BYTES - used;
    let ghost mut k2: int = text_chars@.len() as int;
    let mut over = false;
    if utf8_len_capped(&text_chars) > remaining {
        let cut = truncate_to_bytes(&text_chars, remaining);
        proof {
            k2 = choose|kk: int| longest_fitting_prefix(text_chars@, remaining as nat, kk) && cut@ == text_chars@.take(kk);
            lemma_utf8_len_prefix(text_chars@, k2, text_chars@.len() as int);
            assert(text_chars@.take(text_chars@.len() as int) =~= text_chars@);
        }
        text_chars = cut;
        truncated = true;
        over = true;
    } else {
        assert(text_chars@.take(k2) =~= text_chars@);
    }
    proof {
        assert(longest_fitting_prefix(first_cut, remaining as nat, k2) && text_chars@ == first_cut.take(k2));
        lemma_fitting_prefix_compose(chars@, MAX_BYTES_PER_SLICE as nat, k1, remaining as nat, k2);
        assert(byte_budget(used as nat) == (if remaining < MAX_BYTES_PER_SLICE { remaining as nat } else { MAX_BYTES_PER_SLICE as nat }));
        assert(longest_fitting_prefix(chars@, byte_budget(used as nat), k2) && text_chars@ == chars@.take(k2));
        assert(chars@.take(chars@.len() as int) =~= chars@);
        assert(first_cut.take(first_cut.len() as int) =~= first_cut);
        assert(text_chars@.len() == k2);
        assert(first_cut.len() == k1);
        assert(truncated == (capped_end < requested_end || text_chars@.len() < chars@.len()));
    }
    proof {
        assert(lines@.map_values(|t: String| t@).len() == lines@.len());
        assert(n_lines as nat == line_count(contents@));
        assert(start_line == clamp_start(requested, line_count(contents@)));
        assert(requested_end == clamp_end(requested, line_count(contents@), start_line as int));
        assert(capped_end == cap_end(start_line as int, requested_end as int));
        assert(chars@ == slice_lines(contents@, start_line as int, capped_end as int));
        assert(utf8_len(text_chars@) <= byte_budget(used as nat));
    }
    let text = string_from_chars(text_chars.as_slice());
    SliceCut { start_line, end_line: capped_end, text, truncated, over_total: over, start_byte, end_byte }
}

/// What a file selector does to the builder: a warning of the resolution's category
/// when its path is refused; else the file slice of its lines (see `sliced`).
pub open spec fn file_selector_step(
    before: SourceContextBuilder,
    after: SourceContextBuilder,
    path: Seq<char>,
    line_range: Option<LineRange>,
    input: SelectorInput,
) -> bool {
    &&& after.selectors == before.selectors
    &&& kept_prefix(before.warnings@, after.warnings@)
    &&& match path_resolution(path, input.probe) {
        Ok(rel) => sliced(before, after, rel, file_range(line_range), "explicit_file_selector"@, None, opt_bytes(input.bytes)),
        Err(c) => {
            &&& after.slices@ == before.slices@
            &&& after.evidence@ == before.evidence@
            &&& after.total_bytes == before.total_bytes
            &&& after.warnings@ == before.warnings@.push(after.warnings@.last())
            &&& after.warnings@.last().category == c
            &&& opt_text(after.warnings@.last().path) == Some(slashes(path))
        },
    }
}

/// What a symbol selector does to the builder: the slice of the first symbol with
/// the identifier, with context lines (see `sliced`); else a `SymbolNotFound`
/// warning and nothing more.
pub open spec fn symbol_selector_step(
    before: SourceContextBuilder,
    after: SourceContextBuilder,
    symbols: Seq<SourceSymbol>,
    symbol_id: Seq<char>,
    bytes: Option<Seq<u8>>,
) -> bool {
    &&& after.selectors == before.selectors
    &&& kept_prefix(before.warnings@, after.warnings@)
    &&& match first_symbol(symbols, symbol_id) {
        Some(i) => {
            let sym = symbols[i];
            sliced(before, after, sym.path@, symbol_range(sym), "symbol_id_selector"@, Some(sym), bytes)
        },
        None => {
            &&& after.slices@ == before.slices@
            &&& after.evidence@ == before.evidence@
            &&& after.total_bytes == before.total_bytes
            &&& after.warnings@ == before.warnings@.push(after.warnings@.last())
            &&& after.warnings@.last().category == SourceContextWarningCategory::SymbolNotFound
            &&& after.warnings@.last().severity == DetectionSeverity::Warning
            &&& after.warnings@.last().path is None
        },
    }
}

impl SourceContextBuilder {
    /// Slices and warnings rest on the builder's evidence; at most eight slices, each
    /// bounded, whose texts add up to the recorded total, itself within the limit.
    pub open spec fn wf(&self) -> bool {
        let known = evidence_id_set(self.evidence@);
        &&& forall|i: int| 0 <= i < self.slices@.len() ==> ids_backed((#[trigger] self.slices@[i]).evidence_ids@, known)
        &&& forall|i: int| 0 <= i < self.warnings@.len() ==> opt_backed((#[trigger] self.warnings@[i]).evidence_id, known)
        &&& self.slices@.len() <= MAX_SLICES
        &&& forall|i: int| 0 <= i < self.slices@.len() ==> slice_bounded(#[trigger] self.slices@[i])
        &&& self.total_bytes == slice_bytes(self.slices@)
        &&& self.total_bytes <= MAX_TOTAL_BYTES
    }

    pub fn new(selectors: Vec<SourceContextSelector>) -> (b: Self)
        ensures
            b.wf(),
            b.selectors == selectors,
            b.slices@.len() == 0,
            b.evidence@.len() == 0,
            b.warnings@.len() == 0,
    {
        SourceContextBuilder { selectors, slices: Vec::new(), evidence: Vec::new(), warnings: Vec::new(), total_bytes: 0 }
    }

    /// Records a warning; its identifier is made of its category, path and message.
    pub fn add_warning(
        &mut self,
        severity: DetectionSeverity,
        category: SourceContextWarningCategory,
        message: &str,
        path: Option<&str>,
        evidence_id: Option<String>,
    )
        requires
            old(self).wf(),
            opt_backed(evidence_id, evidence_id_set(old(self).evidence@)),
        ensures
            final(self).wf(),
            final(self).slices@ == old(self).slices@,
            final(self).evidence@ == old(self).evidence@,
            final(self).selectors == old(self).selectors,
            final(self).warnings@ == old(self).warnings@.push(final(self).warnings@.last()),
            kept_prefix(old(self).warnings@, final(self).warnings@),
            final(self).total_bytes == old(self).total_bytes,
            final(self).warnings@.last().severity == severity,
            final(self).warnings@.last().category == category,
            final(self).warnings@.last().message@ == message@,
            opt_text(final(self).warnings@.last().path) == (match path { Some(p) => Some(slashes(p@)), None => None }),
            opt_text(final(self).warnings@.last().evidence_id) == opt_text(evidence_id),
            final(self).warnings@.last().id@ == warning_id(category, match path { Some(p) => Some(p@), None => None }, message@),
    {
        let path_text = match path {
            Some(p) => Some(normalize_slashes(p)),
            None => None,
        };
        let place = match &path_text {
            Some(p) => p.clone(),
            None => owned("repo"),
        };
        let value = concat3(category_label(category), "-", place.as_str());
        let value = concat3(value.as_str(), "-", message);
        proof {
            reveal_strlit("repo");
        }
        let w = SourceContextWarning {
            id: stable_id("source-context-warning", value.as_str()),
            severity,
            category,
            message: owned(message),
            path: path_text,
            evidence_id,
        };
        self.warnings.push(w);
    }

    fn add_evidence(&mut self, path: &str, kind: &str, field: &str, reason: &str) -> (id: String)
        requires
            old(self).wf(),
        ensures
            final(self).wf(),
            evidence_id_set(final(self).evidence@).contains(id@),
            forall|t: Seq<char>| evidence_id_set(old(self).evidence@).contains(t) ==> evidence_id_set(final(self).evidence@).contains(t),
            final(self).slices@ == old(self).slices@,
            final(self).warnings@ == old(self).warnings@,
            final(self).selectors == old(self).selectors,
            final(self).total_bytes == old(self).total_bytes,
    {
        let value = concat3(path, "-", kind);
        let value = concat3(value.as_str(), "-", field);
        let id = stable_id("evidence-source-context", value.as_str());
        let e = Evidence { id: id.clone(), path: owned(path), kind: owned(kind), field: Some(owned(field)), reason: owned(reason) };
        let ghost before = self.evidence@;
        self.evidence.push(e);
        proof {
            lemma_evidence_push(before, e);
        }
        id
    }

    /// Resolves the path of a file selector, warning when it is refused.
    pub fn resolve_selector_path(&mut self, path: &str, probe: PathProbe) -> (r: Option<String>)
        requires
            old(self).wf(),
        ensures
            final(self).wf(),
            final(self).slices@ == old(self).slices@,
            final(self).evidence@ == old(self).evidence@,
            final(self).selectors == old(self).selectors,
            final(self).total_bytes == old(self).total_bytes,
            kept_prefix(old(self).warnings@, final(self).warnings@),
            match path_resolution(path@, probe) {
                Ok(rel) => r matches Some(x) && x@ == rel && final(self).warnings@ == old(self).warnings@,
                Err(c) => {
                    &&& r is None
                    &&& final(self).warnings@ == old(self).warnings@.push(final(self).warnings@.last())
                    &&& final(self).warnings@.last().category == c
                    &&& opt_text(final(self).warnings@.last().path) == Some(slashes(path@))
                },
            },
    {
        let trimmed = trim_text(path);
        if chars_of(trimmed.as_str()).len() == 0 || escapes_root_exec(path) {
            self.add_warning(
                DetectionSeverity::Warning,
                SourceContextWarningCategory::PathOutsideRepo,
                "Source context selector path must stay inside the repository.",
                Some(path),
                None,
            );
            return None;
        }
        if has_ignored_part_exec(path) {
            self.add_warning(
                DetectionSeverity::Info,
                SourceContextWarningCategory::IgnoredPath,
                "Generated, dependency, or cache path was not sliced.",
                Some(path),
                None,
            );
            return None;
        }
        match probe {
            PathProbe::Missing => {
                self.add_warning(
                    DetectionSeverity::Warning,
                    SourceContextWarningCategory::MissingFile,
                    "Source context selector path does not exist.",
                    Some(path),
                    None,
                );
                None
            },
            PathProbe::Symlink => {
                self.add_warning(
                    DetectionSeverity::Warning,
                    SourceContextWarningCategory::SymlinkIgnored,
                    "SourceContext does not follow symlinks.",
                    Some(path),
                    None,
                );
                None
            },
            PathProbe::Unresolved => {
                self.add_warning(
                    DetectionSeverity::Warning,
                    SourceContextWarningCategory::MissingFile,
                    "Source context selector path could not be resolved.",
                    Some(path),
                    None,
                );
                None
            },
            PathProbe::Outside => {
                self.add_warning(
                    DetectionSeverity::Warning,
                    SourceContextWarningCategory::PathOutsideRepo,
                    "Source context selector path resolved outside the repository.",
                    Some(path),
                    None,
                );
                None
            },
            PathProbe::NotFile => {
                self.add_warning(
                    DetectionSeverity::Warning,
                    SourceContextWarningCategory::MissingFile,
                    "Source context selector path is not a file.",
                    Some(path),
                    None,
                );
                None
            },
            PathProbe::File { relative } => Some(relative),
        }
    }

    /// Slices the file a file selector names: its line range, or its first lines.
    pub fn add_file_slice(&mut self, path: &str, line_range: Option<LineRange>, input: SelectorInput)
        requires
            old(self).wf(),
        ensures
            final(self).wf(),
            file_selector_step(*old(self), *final(self), path@, line_range, input),
    {
        let SelectorInput { probe, bytes } = input;
        let relative = match self.resolve_selector_path(path, probe) {
            Some(r) => r,
            None => return,
        };
        let range = match line_range {
            Some(r) => r,
            None => LineRange { start_line: 1, end_line: DEFAULT_FILE_LINES },
        };
        proof {
            reveal_strlit("explicit_file_selector");
        }
        self.slice_file(relative.as_str(), range, "explicit_file_selector", None, bytes);
    }

    /// Slices the lines of the symbol a symbol selector names, with some context, or
    /// warns that no symbol has that identifier.
    pub fn add_symbol_slice(&mut self, symbol_graph: &SymbolGraph, symbol_id: &str, bytes: Option<Vec<u8>>)
        requires
            old(self).wf(),
        ensures
            final(self).wf(),
            symbol_selector_step(*old(self), *final(self), symbol_graph.symbols@, symbol_id@, opt_bytes(bytes)),
    {
        let found = find_symbol(&symbol_graph.symbols, symbol_id);
        match found {
            None => {
                self.add_warning(
                    DetectionSeverity::Warning,
                    SourceContextWarningCategory::SymbolNotFound,
                    "No SymbolGraph-lite symbol matched the selector.",
                    None,
                    None,
                );
            },
            Some(i) => {
                let sym = &symbol_graph.symbols[i];
                let start = sym.range.start_line.saturating_sub(SYMBOL_CONTEXT_LINES);
                let range = LineRange {
                    start_line: if start < 1 { 1 } else { start },
                    end_line: sym.range.end_line.saturating_add(SYMBOL_CONTEXT_LINES),
                };
                proof {
                    reveal_strlit("symbol_id_selector");
                }
                self.slice_file(sym.path.as_str(), range, "symbol_id_selector", Some(sym), bytes);
            },
        }
    }

    /// Records the evidence of a symbol and adds its identifiers to `ids`.
    fn add_symbol_evidence(&mut self, sym: &SourceSymbol, ids: &mut Vec<String>)
        requires
            old(self).wf(),
            strictly_sorted(views(old(ids)@)),
            forall|t: Seq<char>| views(old(ids)@).to_set().contains(t) ==> evidence_id_set(old(self).evidence@).contains(t),
        ensures
            final(self).wf(),
            final(self).slices@ == old(self).slices@,
            final(self).warnings@ == old(self).warnings@,
            final(self).selectors == old(self).selectors,
            final(self).total_bytes == old(self).total_bytes,
            strictly_sorted(views(final(ids)@)),
            views(final(ids)@).to_set() == views(old(ids)@).to_set().union(views(sym.evidence_ids@).to_set()),
            forall|t: Seq<char>| views(final(ids)@).to_set().contains(t) ==> evidence_id_set(final(self).evidence@).contains(t),
            forall|t: Seq<char>| evidence_id_set(old(self).evidence@).contains(t) ==> evidence_id_set(final(self).evidence@).contains(t),
    {
        let ghost ids0 = views(ids@).to_set();
        let ghost known0 = evidence_id_set(self.evidence@);
        let mut j: usize = 0;
        while j < sym.evidence_ids.len()
            invariant
                j <= sym.evidence_ids@.len(),
                self.wf(),
                self.slices@ == old(self).slices@,
                self.warnings@ == old(self).warnings@,
                self.selectors == old(self).selectors,
                self.total_bytes == old(self).total_bytes,
                strictly_sorted(views(ids@)),
                views(ids@).to_set() == ids0.union(views(sym.evidence_ids@.take(j as int)).to_set()),
                forall|t: Seq<char>| views(ids@).to_set().contains(t) ==> evidence_id_set(self.evidence@).contains(t),
                forall|t: Seq<char>| known0.contains(t) ==> evidence_id_set(self.evidence@).contains(t),
            decreases sym.evidence_ids@.len() - j,
        {
            let sid = &sym.evidence_ids[j];
            let field = concat2("symbol.", sym.name.as_str());
            let e = Evidence {
                id: sid.clone(),
                path: sym.path.clone(),
                kind: owned("source_symbol"),
                field: Some(field),
                reason: owned("SymbolGraph-lite symbol evidence referenced by SourceContext."),
            };
            let ghost before = self.evidence@;
            self.evidence.push(e);
            proof {
                lemma_evidence_push(before, e);
            }
            insert_sorted_unique(ids, sid.clone());
            proof {
                let prev = views(sym.evidence_ids@.take(j as int));
                assert(views(sym.evidence_ids@.take(j + 1)) =~= prev.push(sid@));
                crate::text::lemma_push_to_set(prev, sid@);
                assert(views(ids@).to_set() =~= ids0.union(views(sym.evidence_ids@.take(j + 1)).to_set()));
            }
            j = j + 1;
        }
        proof {
            assert(sym.evidence_ids@.take(j as int) =~= sym.evidence_ids@);
        }
    }

    /// Slices lines of a Rust source file given by its bytes, within the line and
    /// byte limits, and records its evidence (and the symbol's, for a symbol slice).
    pub fn slice_file(
        &mut self,
        relative_path: &str,
        requested: LineRange,
        reason: &str,
        symbol: Option<&SourceSymbol>,
        bytes: Option<Vec<u8>>,
    )
        requires
            old(self).wf(),
        ensures
            final(self).wf(),
            final(self).selectors == old(self).selectors,
            kept_prefix(old(self).warnings@, final(self).warnings@),
            sliced(
                *old(self),
                *final(self),
                relative_path@,
                requested,
                reason@,
                match symbol { Some(sym) => Some(*sym), None => None },
                opt_bytes(bytes),
            ),
    {
        if self.slices.len() >= MAX_SLICES {
            self.add_warning(
                DetectionSeverity::Warning,
                SourceContextWarningCategory::SourceContextLimitExceeded,
                "Source context slice limit was exceeded; slice was skipped.",
                Some(relative_path),
                None,
            );
            return;
        }
        if !is_rust_path_exec(relative_path) {
            self.add_warning(
                DetectionSeverity::Warning,
                SourceContextWarningCategory::UnsupportedLanguage,
                "SourceContext currently slices Rust source files only.",
                Some(relative_path),
                None,
            );
            return;
        }
        let bytes = match bytes {
            Some(b) => b,
            None => {
                self.add_warning(
                    DetectionSeverity::Warning,
                    SourceContextWarningCategory::MissingFile,
                    "Source file could not be read.",
                    Some(relative_path),
                    None,
                );
                return;
            },
        };
        let mut k: usize = 0;
        let mut binary = false;
        while k < bytes.len()
            invariant
                k <= bytes@.len(),
                binary == exists|i: int| 0 <= i < k && bytes@[i] == 0,
            decreases bytes@.len() - k,
        {
            if bytes[k] == 0 {
                binary = true;
            }
            k = k + 1;
        }
        assert(binary == has_zero_byte(bytes@));
        if binary {
            self.add_warning(
                DetectionSeverity::Warning,
                SourceContextWarningCategory::BinaryFile,
                "Source file looks binary and was not sliced.",
                Some(relative_path),
                None,
            );
            return;
        }
        let contents = match utf8_text(bytes.as_slice()) {
            Some(t) => t,
            None => {
                self.add_warning(
                    DetectionSeverity::Warning,
                    SourceContextWarningCategory::NonUtf8File,
                    "Source file is not valid UTF-8 and was not sliced.",
                    Some(relative_path),
                    None,
                );
                return;
            },
        };
        proof {
            vstd::utf8::decode_utf8_encode_utf8(bytes@);
            lemma_encode_len(contents@);
        }
        let cut = cut_slice(contents.as_str(), requested, self.total_bytes);
        let start_line = cut.start_line;
        let capped_end = cut.end_line;
        let start_byte = cut.start_byte;
        let end_byte = cut.end_byte;
        let truncated = cut.truncated;
        let over = cut.over_total;
        let text = cut.text;
        let text_chars = chars_of(text.as_str());
        let text_len = utf8_len_capped(&text_chars);
        assert(text_len == utf8_len(text_chars@));
        if over {
            self.add_warning(
                DetectionSeverity::Warning,
                SourceContextWarningCategory::SourceContextLimitExceeded,
                "Source context report byte limit was exceeded; slice was truncated.",
                Some(relative_path),
                None,
            );
        }
        let path = normalize_slashes(relative_path);
        let first = decimal_text(start_line);
        let last = decimal_text(capped_end);
        let field = concat2("lines.", first.as_str());
        let field = concat3(field.as_str(), "-", last.as_str());
        let evidence_id = self.add_evidence(path.as_str(), "source_context_slice", field.as_str(), "Read-only source context slice.");
        let ghost known_now = evidence_id_set(self.evidence@);
        let mut evidence_ids: Vec<String> = Vec::new();
        insert_sorted_unique(&mut evidence_ids, evidence_id.clone());
        proof {
            assert(views(evidence_ids@).to_set().contains(evidence_id@));
            assert(views(evidence_ids@).contains(evidence_id@));
        }
        match symbol {
            Some(sym) => self.add_symbol_evidence(sym, &mut evidence_ids),
            None => {},
        }
        proof {
            assert(views(evidence_ids@).to_set().contains(evidence_id@));
            assert(views(evidence_ids@).contains(evidence_id@));
        }
        assert(evidence_id_set(self.evidence@).contains(evidence_id@));
        if truncated {
            self.add_warning(
                DetectionSeverity::Info,
                SourceContextWarningCategory::SliceTruncated,
                "Source context slice was truncated by line or byte limits.",
                Some(relative_path),
                Some(evidence_id.clone()),
            );
        }
        let symbol_part = match symbol {
            Some(sym) => sym.id.clone(),
            None => owned("file"),
        };
        let value = concat3(path.as_str(), "-", symbol_part.as_str());
        let value = concat3(value.as_str(), "-", first.as_str());
        let value = concat3(value.as_str(), "-", last.as_str());
        let hash = content_hash(text.as_str());
        let slice = SourceContextSlice {
            slice_id: stable_id("source-slice", value.as_str()),
            file_path: path,
            language: SourceLanguage::Rust,
            reason: owned(reason),
            symbol_id: match symbol {
                Some(sym) => Some(sym.id.clone()),
                None => None,
            },
            symbol_name: match symbol {
                Some(sym) => Some(sym.name.clone()),
                None => None,
            },
            symbol_kind: match symbol {
                Some(sym) => Some(sym.kind),
                None => None,
            },
            start_line,
            end_line: capped_end,
            start_byte: Some(start_byte),
            end_byte: Some(end_byte),
            context_before_lines: match symbol {
                Some(sym) => sym.range.start_line.saturating_sub(start_line),
                None => 0,
            },
            context_after_lines: match symbol {
                Some(sym) => capped_end.saturating_sub(sym.range.end_line),
                None => 0,
            },
            text,
            truncated,
            content_hash: hash,
            evidence_ids,
        };
        let ghost slices_before = self.slices@;
        self.total_bytes = self.total_bytes + text_len;
        self.slices.push(slice);
        proof {
            assert(slice_refusal(old(self).slices@.len(), relative_path@, opt_bytes(Some(bytes))) is None);
            assert(self.slices@.last() == slice);
            assert(slice_cut_from(slice, contents@, requested, old(self).total_bytes as nat, relative_path@, reason@,
                match symbol { Some(sym) => Some(sym.id@), None => None }));
            assert(self.slices@.drop_last() =~= slices_before);
            assert(ids_backed(slice.evidence_ids@, evidence_id_set(self.evidence@))) by {
                assert forall|i: int| 0 <= i < slice.evidence_ids@.len() implies evidence_id_set(self.evidence@).contains(#[trigger] slice.evidence_ids@[i]@) by {
                    assert(views(slice.evidence_ids@)[i] == slice.evidence_ids@[i]@);
                    assert(views(slice.evidence_ids@).to_set().contains(slice.evidence_ids@[i]@));
                }
            }
        }
    }
}

} // verus!
