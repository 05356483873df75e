use vstd::prelude::*;

use crate::kernel::KernelProfile;
use crate::source_context::{LineRange, SourceContextSelector};
use crate::text::{chars_of, starts_with_text, string_from_chars, trim_text, trim_ws};
use crate::textset::views;

verus! {

// ---------------------------------------------------------------------------
// Text helpers of the command line
// ---------------------------------------------------------------------------

/// `str::strip_prefix`: the rest of `s` after `prefix`, when `s` starts with it.
pub fn strip_prefix_text(s: &str, prefix: &str) -> (r: Option<String>)
    ensures
        match r {
            Some(t) => prefix@.is_prefix_of(s@) && t@ == s@.skip(prefix@.len() as int),
            None => !prefix@.is_prefix_of(s@),
        },
{
    if starts_with_text(s, prefix) {
        let v = chars_of(s);
        let n = chars_of(prefix).len();
        assert(v@.skip(n as int) =~= v@.subrange(n as int, v@.len() as int));
        Some(string_from_chars(&v.as_slice()[n..v.len()]))
    } else {
        None
    }
}

/// The value of a decimal digit.
pub open spec fn digit_value(c: char) -> nat {
    (c as int - '0' as int) as nat
}

pub open spec fn is_digit(c: char) -> bool {
    '0' <= c && c <= '9'
}

/// The number that a sequence of decimal digits writes.
pub open spec fn digits_value(s: Seq<char>) -> nat
    decreases s.len(),
{
    if s.len() == 0 {
        0
    } else {
        digits_value(s.drop_last()) * 10 + digit_value(s.last())
    }
}

/// The digits of a number: the text without one leading `+`.
pub open spec fn usize_body(s: Seq<char>) -> Seq<char> {
    if s.len() > 0 && s[0] == '+' {
        s.drop_first()
    } else {
        s
    }
}

pub open spec fn all_digits(s: Seq<char>) -> bool {
    forall|i: int| 0 <= i < s.len() ==> is_digit(#[trigger] s[i])
}

/// `usize::from_str`: an optional `+`, then one or more decimal digits whose value
/// fits.
pub open spec fn parse_usize_spec(s: Seq<char>) -> Option<usize> {
    let body = usize_body(s);
    if body.len() > 0 && all_digits(body) && digits_value(body) <= usize::MAX {
        Some(digits_value(body) as usize)
    } else {
        None
    }
}

proof fn lemma_digits_value_grows(s: Seq<char>, k: int)
    requires
        0 <= k <= s.len(),
    ensures
        digits_value(s.take(k)) <= digits_value(s),
    decreases s.len() - k,
{
    if k < s.len() {
        assert(s.drop_last().take(k) =~= s.take(k));
        lemma_digits_value_grows(s.drop_last(), k);
    } else {
        assert(s.take(k) =~= s);
    }
}

/// Parses a decimal `usize` as `str::parse` does.
pub fn parse_usize(s: &str) -> (r: Option<usize>)
    ensures
        r == parse_usize_spec(s@),
{
    let v = chars_of(s);
    let start: usize = if v.len() > 0 && v[0] == '+' { 1 } else { 0 };
    let ghost body = usize_body(s@);
    assert(body =~= v@.skip(start as int));
    if start >= v.len() {
        return None;
    }
    let mut value: usize = 0;
    let mut i: usize = start;
    while i < v.len()
        invariant
            v@ == s@,
            start <= i <= v@.len(),
            body == v@.skip(start as int),
            body == usize_body(s@),
            value as nat == digits_value(body.take(i - start)),
            forall|j: int| 0 <= j < i - start ==> is_digit(#[trigger] body[j]),
        decreases v@.len() - i,
    {
        let c = v[i];
        assert(body[i - start] == c);
        assert(body.take(i - start + 1).drop_last() =~= body.take(i - start));
        if !('0' <= c && c <= '9') {
            assert(!is_digit(body[i - start]));
            return None;
        }
        let d = (c as u32 - '0' as u32) as usize;
        assert(d as nat == digit_value(c));
        match value.checked_mul(10) {
            Some(m) => match m.checked_add(d) {
                Some(next) => {
                    value = next;
                },
                None => {
                    proof {
                        let t = body.take(i - start + 1);
                        assert(t.last() == c);
                        assert(digits_value(t) == value * 10 + d);
                        lemma_digits_value_grows(body, i - start + 1);
                    }
                    return None;
                },
            },
            None => {
                proof {
                    lemma_digits_value_grows(body, i - start + 1);
                }
                return None;
            },
        }
        i = i + 1;
    }
    assert(body.take(body.len() as int) =~= body);
    Some(value)
}

// ---------------------------------------------------------------------------
// Line ranges and changed-file lists
// ---------------------------------------------------------------------------

/// The index of the first `c` in `s`.
pub open spec fn first_index_of(s: Seq<char>, c: char) -> Option<int>
    decreases s.len(),
{
    if s.len() == 0 {
        None
    } else {
        match first_index_of(s.drop_last(), c) {
            Some(i) => Some(i),
            None => if s.last() == c {
                Some(s.len() - 1)
            } else {
                None
            },
        }
    }
}

proof fn lemma_first_index_of(s: Seq<char>, c: char)
    ensures
        match first_index_of(s, c) {
            Some(i) => 0 <= i < s.len() && s[i] == c && forall|j: int| 0 <= j < i ==> s[j] != c,
            None => forall|j: int| 0 <= j < s.len() ==> s[j] != c,
        },
    decreases s.len(),
{
    if s.len() > 0 {
        let d = s.drop_last();
        lemma_first_index_of(d, c);
        assert forall|j: int| 0 <= j < d.len() implies d[j] == s[j] by {}
    }
}

/// A `start:end` line range: both numbers trimmed and parsed, split at the first `:`.
pub open spec fn line_range_spec(value: Seq<char>) -> Option<LineRange> {
    match first_index_of(value, ':') {
        Some(k) => match (parse_usize_spec(trim_ws(value.take(k))), parse_usize_spec(trim_ws(value.skip(k + 1)))) {
            (Some(start_line), Some(end_line)) => Some(LineRange { start_line, end_line }),
            _ => None,
        },
        None => None,
    }
}

/// Parses a `start:end` line range.
pub fn parse_line_range(value: &str) -> (r: Option<LineRange>)
    ensures
        r == line_range_spec(value@),
{
    let v = chars_of(value);
    let mut k: usize = 0;
    while k < v.len() && v[k] != ':'
        invariant
            v@ == value@,
            k <= v@.len(),
            forall|j: int| 0 <= j < k ==> v@[j] != ':',
        decreases v@.len() - k,
    {
        k = k + 1;
    }
    proof {
        lemma_first_index_of(value@, ':');
    }
    if k == v.len() {
        return None;
    }
    let head = string_from_chars(&v.as_slice()[0..k]);
    let tail = string_from_chars(&v.as_slice()[k + 1..v.len()]);
    assert(head@ =~= value@.take(k as int));
    assert(tail@ =~= value@.skip(k + 1));
    let start = parse_usize(trim_text(head.as_str()).as_str());
    let end = parse_usize(trim_text(tail.as_str()).as_str());
    match (start, end) {
        (Some(start_line), Some(end_line)) => Some(LineRange { start_line, end_line }),
        _ => None,
    }
}

/// The pieces of `s` between commas (`str::split(',')`).
pub open spec fn comma_split(s: Seq<char>) -> Seq<Seq<char>>
    decreases s.len(),
{
    if s.len() == 0 {
        seq![seq![]]
    } else {
        let prev = comma_split(s.drop_last());
        if s.last() == ',' {
            prev.push(seq![])
        } else {
            prev.update(prev.len() - 1, prev.last().push(s.last()))
        }
    }
}

proof fn lemma_comma_split_nonempty(s: Seq<char>)
    ensures
        comma_split(s).len() > 0,
    decreases s.len(),
{
    if s.len() > 0 {
        lemma_comma_split_nonempty(s.drop_last());
    }
}

/// The trimmed pieces that are not blank, in order.
pub open spec fn kept_trimmed(parts: Seq<Seq<char>>) -> Seq<Seq<char>>
    decreases parts.len(),
{
    if parts.len() == 0 {
        seq![]
    } else {
        let prev = kept_trimmed(parts.drop_last());
        let t = trim_ws(parts.last());
        if t.len() > 0 {
            prev.push(t)
        } else {
            prev
        }
    }
}

/// The files of a comma-separated list: each trimmed, blanks left out.
pub open spec fn changed_file_list(value: Seq<char>) -> Seq<Seq<char>> {
    kept_trimmed(comma_split(value))
}

/// Splits a comma-separated list of changed files.
pub fn split_changed_files(value: &str) -> (r: Vec<String>)
    ensures
        views(r@) == changed_file_list(value@),
{
    let v = chars_of(value);
    let mut done: Vec<String> = Vec::new();
    let mut cur: Vec<char> = Vec::new();
    let mut i: usize = 0;
    while i < v.len()
        invariant
            v@ == value@,
            i <= v@.len(),
            comma_split(v@.take(i as int)) == views(done@).push(cur@),
        decreases v@.len() - i,
    {
        let c = v[i];
        assert(v@.take(i + 1).drop_last() =~= v@.take(i as int));
        assert(v@.take(i + 1).last() == c);
        let ghost before = views(done@);
        if c == ',' {
            let piece = string_from_chars(cur.as_slice());
            done.push(piece);
            cur = Vec::new();
            assert(views(done@) =~= before.push(piece@));
            assert(comma_split(v@.take(i + 1)) =~= views(done@).push(cur@));
        } else {
            cur.push(c);
            assert(comma_split(v@.take(i + 1)) =~= before.push(cur@));
        }
        i = i + 1;
    }
    assert(v@.take(v@.len() as int) =~= v@);
    let last = string_from_chars(cur.as_slice());
    let ghost before = views(done@);
    done.push(last);
    assert(views(done@) =~= before.push(last@));
    let ghost parts = views(done@);
    assert(parts == comma_split(value@));
    let mut out: Vec<String> = Vec::new();
    let mut k: usize = 0;
    while k < done.len()
        invariant
            k <= done@.len(),
            parts == views(done@),
            views(out@) == kept_trimmed(parts.take(k as int)),
        decreases done@.len() - k,
    {
        let t = trim_text(done[k].as_str());
        assert(parts.take(k + 1).drop_last() =~= parts.take(k as int));
        assert(parts.take(k + 1).last() == parts[k as int]);
        let ghost before = views(out@);
        if chars_of(t.as_str()).len() > 0 {
            out.push(t);
            assert(views(out@) =~= before.push(t@));
        }
        k = k + 1;
    }
    assert(parts.take(parts.len() as int) =~= parts);
    out
}

// ---------------------------------------------------------------------------
// Command arguments
// ---------------------------------------------------------------------------

/// The changed files named from position `i` on: `--json` is passed over,
/// `--changed-files` takes the next argument as a list, `--changed-files=` the rest of
/// its own, and any other argument is a list.
pub open spec fn changed_from(args: Seq<Seq<char>>, i: int) -> Seq<Seq<char>>
    decreases args.len() - i,
{
    if i < 0 || i >= args.len() {
        seq![]
    } else if args[i] == "--json"@ {
        changed_from(args, i + 1)
    } else if args[i] == "--changed-files"@ {
        if i + 1 < args.len() {
            changed_file_list(args[i + 1]) + changed_from(args, i + 2)
        } else {
            seq![]
        }
    } else if "--changed-files="@.is_prefix_of(args[i]) {
        changed_file_list(args[i].skip("--changed-files="@.len() as int)) + changed_from(args, i + 1)
    } else {
        changed_file_list(args[i]) + changed_from(args, i + 1)
    }
}

/// The changed files named by the arguments of `impact`.
pub fn parse_changed_files(args: &[String]) -> (r: Vec<String>)
    ensures
        views(r@) == changed_from(views(args@), 0),
{
    let ghost a = views(args@);
    let mut r: Vec<String> = Vec::new();
    let mut i: usize = 0;
    while i < args.len()
        invariant
            a == views(args@),
            i <= args@.len(),
            views(r@) + changed_from(a, i as int) == changed_from(a, 0),
        decreases args@.len() - i,
    {
        let arg = args[i].as_str();
        assert(arg@ == a[i as int]);
        let ghost before = views(r@);
        if crate::text::text_eq(arg, "--json") {
            i = i + 1;
        } else if crate::text::text_eq(arg, "--changed-files") {
            if i + 1 < args.len() {
                assert(args[i + 1 as int]@ == a[i + 1]);
                let mut pieces = split_changed_files(args[i + 1].as_str());
                r.append(&mut pieces);
                assert(views(r@) + changed_from(a, i + 2) =~= before + changed_from(a, i as int));
                i = i + 2;
            } else {
                assert(views(r@) + changed_from(a, args@.len() as int) =~= before + changed_from(a, i as int));
                i = args.len();
            }
        } else {
            let value = match strip_prefix_text(arg, "--changed-files=") {
                Some(rest) => rest,
                None => crate::text::owned(arg),
            };
            let mut pieces = split_changed_files(value.as_str());
            r.append(&mut pieces);
            assert(views(r@) + changed_from(a, i + 1) =~= before + changed_from(a, i as int));
            i = i + 1;
        }
    }
    assert(views(r@) + changed_from(a, i as int) =~= views(r@));
    r
}

/// The repository and the query named from position `i` on: `--json` is passed over,
/// `--repo` takes the next argument, `--repo=` the rest of its own, and the first
/// other argument that is not empty is the query.
pub open spec fn evidence_scan(args: Seq<Seq<char>>, i: int, repo: Seq<char>, query: Seq<char>) -> (Seq<char>, Seq<char>)
    decreases args.len() - i,
{
    if i < 0 || i >= args.len() {
        (repo, query)
    } else if args[i] == "--json"@ {
        evidence_scan(args, i + 1, repo, query)
    } else if args[i] == "--repo"@ {
        if i + 1 < args.len() {
            evidence_scan(args, i + 2, args[i + 1], query)
        } else {
            (repo, query)
        }
    } else if "--repo="@.is_prefix_of(args[i]) {
        evidence_scan(args, i + 1, args[i].skip("--repo="@.len() as int), query)
    } else if query.len() == 0 {
        evidence_scan(args, i + 1, repo, args[i])
    } else {
        evidence_scan(args, i + 1, repo, query)
    }
}

/// The repository (`.` unless named) and the query of `source-evidence`.
pub fn parse_source_evidence_args(args: &[String]) -> (r: (String, String))
    ensures
        (r.0@, r.1@) == evidence_scan(views(args@), 0, "."@, seq![]),
{
    let ghost a = views(args@);
    let mut repo = crate::text::owned(".");
    let mut query = String::new();
    let mut i: usize = 0;
    while i < args.len()
        invariant
            a == views(args@),
            i <= args@.len(),
            evidence_scan(a, i as int, repo@, query@) == evidence_scan(a, 0, "."@, seq![]),
        decreases args@.len() - i,
    {
        let arg = args[i].as_str();
        assert(arg@ == a[i as int]);
        if crate::text::text_eq(arg, "--json") {
            i = i + 1;
        } else if crate::text::text_eq(arg, "--repo") {
            if i + 1 < args.len() {
                assert(args[i + 1 as int]@ == a[i + 1]);
                repo = args[i + 1].clone();
                i = i + 2;
            } else {
                i = args.len();
            }
        } else {
            match strip_prefix_text(arg, "--repo=") {
                Some(rest) => {
                    repo = rest;
                },
                None => {
                    if chars_of(query.as_str()).len() == 0 {
                        query = crate::text::owned(arg);
                    }
                },
            }
            i = i + 1;
        }
    }
    (repo, query)
}

/// A selector as text: a file with its optional lines, or a symbol identifier.
pub enum SelectorText {
    File { path: Seq<char>, line_range: Option<LineRange> },
    SymbolId { symbol_id: Seq<char> },
}

pub open spec fn selector_text(s: SourceContextSelector) -> SelectorText {
    match s {
        SourceContextSelector::File { path, line_range } => SelectorText::File { path: path@, line_range },
        SourceContextSelector::SymbolId { symbol_id } => SelectorText::SymbolId { symbol_id: symbol_id@ },
    }
}

pub open spec fn selector_texts(s: Seq<SourceContextSelector>) -> Seq<SelectorText> {
    s.map_values(|x: SourceContextSelector| selector_text(x))
}

/// What the arguments of `source-context` have named so far.
pub struct ContextArgs {
    pub repo: Seq<char>,
    pub selectors: Seq<SelectorText>,
    pub pending_file: Option<Seq<char>>,
    pub pending_lines: Option<LineRange>,
}

/// The arguments of `source-context` from position `i` on: `--json` is passed over;
/// `--repo`, `--file`, `--lines` and `--symbol-id` take the next argument, and their
/// forms with `=` the rest of their own; the last file and the last lines named make
/// one file selector, and each symbol identifier a selector of its own.
pub open spec fn context_scan(args: Seq<Seq<char>>, i: int, st: ContextArgs) -> ContextArgs
    decreases args.len() - i,
{
    if i < 0 || i >= args.len() {
        st
    } else {
        let arg = args[i];
        let has_next = i + 1 < args.len();
        if arg == "--json"@ {
            context_scan(args, i + 1, st)
        } else if arg == "--repo"@ {
            if has_next { context_scan(args, i + 2, ContextArgs { repo: args[i + 1], ..st }) } else { st }
        } else if "--repo="@.is_prefix_of(arg) {
            context_scan(args, i + 1, ContextArgs { repo: arg.skip("--repo="@.len() as int), ..st })
        } else if arg == "--file"@ {
            if has_next { context_scan(args, i + 2, ContextArgs { pending_file: Some(args[i + 1]), ..st }) } else { st }
        } else if "--file="@.is_prefix_of(arg) {
            context_scan(args, i + 1, ContextArgs { pending_file: Some(arg.skip("--file="@.len() as int)), ..st })
        } else if arg == "--lines"@ {
            if has_next { context_scan(args, i + 2, ContextArgs { pending_lines: line_range_spec(args[i + 1]), ..st }) } else { st }
        } else if "--lines="@.is_prefix_of(arg) {
            context_scan(args, i + 1, ContextArgs { pending_lines: line_range_spec(arg.skip("--lines="@.len() as int)), ..st })
        } else if arg == "--symbol-id"@ {
            if has_next {
                context_scan(args, i + 2, ContextArgs { selectors: st.selectors.push(SelectorText::SymbolId { symbol_id: args[i + 1] }), ..st })
            } else {
                st
            }
        } else if "--symbol-id="@.is_prefix_of(arg) {
            context_scan(
                args,
                i + 1,
                ContextArgs { selectors: st.selectors.push(SelectorText::SymbolId { symbol_id: arg.skip("--symbol-id="@.len() as int) }), ..st },
            )
        } else {
            context_scan(args, i + 1, st)
        }
    }
}

/// The repository (`.` unless named) and the selectors of `source-context`: the
/// symbol selectors in order, then the file selector when a file was named.
pub open spec fn context_args_spec(args: Seq<Seq<char>>) -> (Seq<char>, Seq<SelectorText>) {
    let st = context_scan(args, 0, ContextArgs { repo: "."@, selectors: seq![], pending_file: None, pending_lines: None });
    (st.repo, match st.pending_file {
        Some(path) => st.selectors.push(SelectorText::File { path, line_range: st.pending_lines }),
        None => st.selectors,
    })
}

/// Parses the arguments of `source-context`.
pub fn parse_source_context_args(args: &[String]) -> (r: (String, Vec<SourceContextSelector>))
    ensures
        (r.0@, selector_texts(r.1@)) == context_args_spec(views(args@)),
{
    let ghost a = views(args@);
    let mut repo = crate::text::owned(".");
    let mut selectors: Vec<SourceContextSelector> = Vec::new();
    let mut pending_file: Option<String> = None;
    let mut pending_lines: Option<LineRange> = None;
    let ghost init = ContextArgs { repo: "."@, selectors: seq![], pending_file: None, pending_lines: None };
    assert(selector_texts(selectors@) =~= Seq::<SelectorText>::empty());
    let mut i: usize = 0;
    while i < args.len()
        invariant
            a == views(args@),
            i <= args@.len(),
            context_scan(a, i as int, ContextArgs {
                repo: repo@,
                selectors: selector_texts(selectors@),
                pending_file: crate::repo_graph::types::opt_text(pending_file),
                pending_lines,
            }) == context_scan(a, 0, init),
        decreases args@.len() - i,
    {
        let arg = args[i].as_str();
        assert(arg@ == a[i as int]);
        let has_next = i + 1 < args.len();
        if has_next {
            assert(args[i + 1 as int]@ == a[i + 1]);
        }
        let ghost before = selector_texts(selectors@);
        if crate::text::text_eq(arg, "--json") {
            i = i + 1;
        } else if crate::text::text_eq(arg, "--repo") {
            if has_next {
                repo = args[i + 1].clone();
                i = i + 2;
            } else {
                i = args.len();
            }
        } else if let Some(rest) = strip_prefix_text(arg, "--repo=") {
            repo = rest;
            i = i + 1;
        } else if crate::text::text_eq(arg, "--file") {
            if has_next {
                pending_file = Some(args[i + 1].clone());
                i = i + 2;
            } else {
                i = args.len();
            }
        } else if let Some(rest) = strip_prefix_text(arg, "--file=") {
            pending_file = Some(rest);
            i = i + 1;
        } else if crate::text::text_eq(arg, "--lines") {
            if has_next {
                pending_lines = parse_line_range(args[i + 1].as_str());
                i = i + 2;
            } else {
                i = args.len();
            }
        } else if let Some(rest) = strip_prefix_text(arg, "--lines=") {
            pending_lines = parse_line_range(rest.as_str());
            i = i + 1;
        } else if crate::text::text_eq(arg, "--symbol-id") {
            if has_next {
                let symbol_id = args[i + 1].clone();
                let ghost id = symbol_id@;
                selectors.push(SourceContextSelector::SymbolId { symbol_id });
                assert(selector_texts(selectors@) =~= before.push(SelectorText::SymbolId { symbol_id: id }));
                i = i + 2;
            } else {
                i = args.len();
            }
        } else if let Some(rest) = strip_prefix_text(arg, "--symbol-id=") {
            let ghost id = rest@;
            selectors.push(SourceContextSelector::SymbolId { symbol_id: rest });
            assert(selector_texts(selectors@) =~= before.push(SelectorText::SymbolId { symbol_id: id }));
            i = i + 1;
        } else {
            i = i + 1;
        }
    }
    let ghost last = selector_texts(selectors@);
    match pending_file {
        Some(path) => {
            let ghost p = path@;
            selectors.push(SourceContextSelector::File { path, line_range: pending_lines });
            assert(selector_texts(selectors@) =~= last.push(SelectorText::File { path: p, line_range: pending_lines }));
        },
        None => {},
    }
    (repo, selectors)
}

/// The index of the first argument that starts with `prefix`.
pub open spec fn first_prefixed(args: Seq<Seq<char>>, prefix: Seq<char>) -> Option<int>
    decreases args.len(),
{
    if args.len() == 0 {
        None
    } else {
        match first_prefixed(args.drop_last(), prefix) {
            Some(i) => Some(i),
            None => if prefix.is_prefix_of(args.last()) {
                Some(args.len() - 1)
            } else {
                None
            },
        }
    }
}

proof fn lemma_first_prefixed(args: Seq<Seq<char>>, prefix: Seq<char>)
    ensures
        match first_prefixed(args, prefix) {
            Some(i) => 0 <= i < args.len() && prefix.is_prefix_of(args[i])
                && forall|j: int| 0 <= j < i ==> !prefix.is_prefix_of(#[trigger] args[j]),
            None => forall|j: int| 0 <= j < args.len() ==> !prefix.is_prefix_of(#[trigger] args[j]),
        },
    decreases args.len(),
{
    if args.len() > 0 {
        let d = args.drop_last();
        lemma_first_prefixed(d, prefix);
        assert forall|j: int| 0 <= j < d.len() implies d[j] == args[j] by {}
    }
}

/// The profile named by the first `--profile=` argument, when that names one.
pub open spec fn profile_arg(args: Seq<Seq<char>>) -> Option<KernelProfile> {
    match first_prefixed(args, "--profile="@) {
        Some(k) => {
            crate::kernel::profile_named(args[k].skip("--profile="@.len() as int))
        },
        None => None,
    }
}

/// The profile of the first `--profile=` argument.
pub fn parse_profile(args: &[String]) -> (r: Option<KernelProfile>)
    ensures
        r == profile_arg(views(args@)),
{
    let ghost a = views(args@);
    let mut i: usize = 0;
    while i < args.len()
        invariant
            a == views(args@),
            i <= args@.len(),
            forall|j: int| 0 <= j < i ==> !"--profile="@.is_prefix_of(#[trigger] a[j]),
        decreases args@.len() - i,
    {
        assert(args[i as int]@ == a[i as int]);
        if let Some(rest) = strip_prefix_text(args[i].as_str(), "--profile=") {
            proof {
                lemma_first_prefixed(a, "--profile="@);
                match first_prefixed(a, "--profile="@) {
                    Some(k) => {
                        if k < i {
                            assert(!"--profile="@.is_prefix_of(a[k]));
                        } else if k > i {
                            assert(!"--profile="@.is_prefix_of(a[i as int]));
                        }
                    },
                    None => {
                        assert(!"--profile="@.is_prefix_of(a[i as int]));
                    },
                }
            }
            return KernelProfile::parse(rest.as_str());
        }
        i = i + 1;
    }
    proof {
        lemma_first_prefixed(a, "--profile="@);
        match first_prefixed(a, "--profile="@) {
            Some(k) => {
                assert(!"--profile="@.is_prefix_of(a[k]));
            },
            None => {},
        }
    }
    None
}

/// The first argument that does not start with `--`.
pub open spec fn first_positional(args: Seq<Seq<char>>) -> Option<Seq<char>>
    decreases args.len(),
{
    if args.len() == 0 {
        None
    } else if !"--"@.is_prefix_of(args[0]) {
        Some(args[0])
    } else {
        first_positional(args.drop_first())
    }
}

/// The first argument that does not start with `--`, if any.
pub fn first_positional_arg(args: &[String]) -> (r: Option<String>)
    ensures
        crate::repo_graph::types::opt_text(r) == first_positional(views(args@)),
{
    let ghost a = views(args@);
    let mut i: usize = 0;
    assert(a.skip(0) =~= a);
    while i < args.len()
        invariant
            a == views(args@),
            i <= args@.len(),
            first_positional(a.skip(i as int)) == first_positional(a),
        decreases args@.len() - i,
    {
        assert(a.skip(i as int)[0] == args@[i as int]@);
        if !starts_with_text(args[i].as_str(), "--") {
            return Some(args[i].clone());
        }
        assert(a.skip(i as int).drop_first() =~= a.skip(i + 1));
        i = i + 1;
    }
    None
}

// ---------------------------------------------------------------------------
// Commands
// ---------------------------------------------------------------------------

/// A command of the command line, with its parsed arguments.
pub enum CliCommand {
    Inspect { repo_path: String },
    RepoMap,
    Impact { changed_files: Vec<String> },
    Symbols { repo_path: String },
    SourceEvidence { repo_path: String, query: String },
    SourceContext { repo_path: String, selectors: Vec<SourceContextSelector> },
    EvalFixtures,
    WhereToEdit { task: String, profile: KernelProfile },
    Help,
    Unknown { command: String },
}

/// What the arguments ask for: the command named first, with its arguments; help
/// when none is named.
pub open spec fn command_matches(a: Seq<Seq<char>>, c: CliCommand) -> bool {
    if a.len() == 0 {
        c is Help
    } else {
        let name = a[0];
        let rest = a.skip(1);
        if name == "inspect"@ {
            c matches CliCommand::Inspect { repo_path } && repo_path@ == (if a.len() > 1 { a[1] } else { "."@ })
        } else if name == "repo-map"@ {
            c is RepoMap
        } else if name == "impact"@ {
            c matches CliCommand::Impact { changed_files } && views(changed_files@) == changed_from(rest, 0)
        } else if name == "symbols"@ || name == "symbol-graph"@ {
            c matches CliCommand::Symbols { repo_path } && repo_path@ == (match first_positional(rest) {
                Some(p) => p,
                None => "."@,
            })
        } else if name == "source-evidence"@ {
            c matches CliCommand::SourceEvidence { repo_path, query } && (repo_path@, query@) == evidence_scan(rest, 0, "."@, seq![])
        } else if name == "source-context"@ {
            c matches CliCommand::SourceContext { repo_path, selectors }
                && (repo_path@, selector_texts(selectors@)) == context_args_spec(rest)
        } else if name == "eval-fixtures"@ {
            c is EvalFixtures
        } else if name == "where-to-edit"@ {
            c matches CliCommand::WhereToEdit { task, profile } && task@ == (match first_positional(rest) {
                Some(t) => t,
                None => seq![],
            }) && profile == (match profile_arg(a) {
                Some(p) => p,
                None => KernelProfile::Standard,
            })
        } else if name == "help"@ || name == "--help"@ || name == "-h"@ {
            c is Help
        } else {
            c matches CliCommand::Unknown { command } && command@ == name
        }
    }
}

/// Reads the command and its arguments.
pub fn parse_command(args: &[String]) -> (c: CliCommand)
    ensures
        command_matches(views(args@), c),
{
    let ghost a = views(args@);
    if args.len() == 0 {
        return CliCommand::Help;
    }
    let name = args[0].as_str();
    assert(name@ == a[0]);
    let rest = &args[1..args.len()];
    assert(views(rest@) =~= a.skip(1));
    if crate::text::text_eq(name, "inspect") {
        let repo_path = if args.len() > 1 {
            assert(args@[1]@ == a[1]);
            args[1].clone()
        } else {
            crate::text::owned(".")
        };
        CliCommand::Inspect { repo_path }
    } else if crate::text::text_eq(name, "repo-map") {
        CliCommand::RepoMap
    } else if crate::text::text_eq(name, "impact") {
        CliCommand::Impact { changed_files: parse_changed_files(rest) }
    } else if crate::text::text_eq(name, "symbols") || crate::text::text_eq(name, "symbol-graph") {
        let repo_path = match first_positional_arg(rest) {
            Some(p) => p,
            None => crate::text::owned("."),
        };
        CliCommand::Symbols { repo_path }
    } else if crate::text::text_eq(name, "source-evidence") {
        let (repo_path, query) = parse_source_evidence_args(rest);
        CliCommand::SourceEvidence { repo_path, query }
    } else if crate::text::text_eq(name, "source-context") {
        let (repo_path, selectors) = parse_source_context_args(rest);
        CliCommand::SourceContext { repo_path, selectors }
    } else if crate::text::text_eq(name, "eval-fixtures") {
        CliCommand::EvalFixtures
    } else if crate::text::text_eq(name, "where-to-edit") {
        let task = match first_positional_arg(rest) {
            Some(t) => t,
            None => String::new(),
        };
        let profile = match parse_profile(args) {
            Some(p) => p,
            None => KernelProfile::Standard,
        };
        CliCommand::WhereToEdit { task, profile }
    } else if crate::text::text_eq(name, "help") || crate::text::text_eq(name, "--help") || crate::text::text_eq(name, "-h") {
        CliCommand::Help
    } else {
        CliCommand::Unknown { command: args[0].clone() }
    }
}

/// The exit status of a command that ran: `5` for an unknown command, else `0`.
pub fn command_exit_code(c: &CliCommand) -> (r: i32)
    ensures
        r == (if c is Unknown { 5i32 } else { 0i32 }),
{
    match c {
        CliCommand::Unknown { .. } => 5,
        _ => 0,
    }
}

/// The exit status of an evaluation run: `0` when every case passed, `7` when some
/// failed or the cases could not be loaded (`None`).
pub fn evaluation_exit_code(failed_cases: Option<usize>) -> (r: i32)
    ensures
        r == (if failed_cases == Some(0usize) { 0i32 } else { 7i32 }),
{
    match failed_cases {
        Some(0) => 0,
        _ => 7,
    }
}

} // verus!
