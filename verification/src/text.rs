use vstd::prelude::*;
use vstd::utf8::{decode_utf8, valid_utf8};

verus! {

// ---------------------------------------------------------------------------
// Character classes
// ---------------------------------------------------------------------------

/// ASCII letters and digits.
pub open spec fn is_alnum(c: char) -> bool {
    ('a' <= c && c <= 'z') || ('A' <= c && c <= 'Z') || ('0' <= c && c <= '9')
}

/// ASCII lowercase mapping of one character (other characters are kept).
pub open spec fn lower(c: char) -> char {
    if 'A' <= c && c <= 'Z' {
        ((c as u32) + 32) as char
    } else {
        c
    }
}

/// ASCII lowercase mapping of a character sequence.
pub open spec fn lower_seq(s: Seq<char>) -> Seq<char> {
    s.map_values(|c: char| lower(c))
}

/// The Unicode `White_Space` property, as used by `char::is_whitespace`.
pub open spec fn is_ws(c: char) -> bool {
    ('\u{9}' <= c && c <= '\u{d}') || c == ' ' || c == '\u{85}' || c == '\u{a0}' || c
        == '\u{1680}' || ('\u{2000}' <= c && c <= '\u{200a}') || c == '\u{2028}' || c
        == '\u{2029}' || c == '\u{202f}' || c == '\u{205f}' || c == '\u{3000}'
}

pub fn is_alnum_char(c: char) -> (r: bool)
    ensures
        r == is_alnum(c),
{
    ('a' <= c && c <= 'z') || ('A' <= c && c <= 'Z') || ('0' <= c && c <= '9')
}

pub fn lower_char(c: char) -> (r: char)
    ensures
        r == lower(c),
{
    if 'A' <= c && c <= 'Z' {
        let b: u8 = c as u8;
        (b + 32) as char
    } else {
        c
    }
}

pub fn is_ws_char(c: char) -> (r: bool)
    ensures
        r == is_ws(c),
{
    ('\u{9}' <= c && c <= '\u{d}') || c == ' ' || c == '\u{85}' || c == '\u{a0}' || c
        == '\u{1680}' || ('\u{2000}' <= c && c <= '\u{200a}') || c == '\u{2028}' || c
        == '\u{2029}' || c == '\u{202f}' || c == '\u{205f}' || c == '\u{3000}'
}

// ---------------------------------------------------------------------------
// Conversions between strings and character vectors
// ---------------------------------------------------------------------------

/// `String::push`: appends one character.
#[verifier::external_body]
pub(crate) fn push_char(s: &mut String, c: char)
    ensures
        final(s)@ == old(s)@.push(c),
{
    s.push(c);
}

/// The characters of a string slice, in order.
pub fn chars_of(s: &str) -> (v: Vec<char>)
    ensures
        v@ == s@,
{
    let mut v: Vec<char> = Vec::new();
    for c in it: s.chars()
        invariant
            v@ == it.seq().take(it.index() as int),
            it.seq() == s@,
    {
        v.push(c);
    }
    v
}

/// A string made of the given characters.
pub fn string_from_chars(v: &[char]) -> (s: String)
    ensures
        s@ == v@,
{
    let mut s = String::new();
    let mut i: usize = 0;
    while i < v.len()
        invariant
            i <= v@.len(),
            s@ == v@.take(i as int),
        decreases v@.len() - i,
    {
        push_char(&mut s, v[i]);
        assert(v@.take(i as int).push(v@[i as int]) =~= v@.take(i + 1));
        i = i + 1;
    }
    assert(v@.take(v@.len() as int) =~= v@);
    s
}

/// A copy of a string slice as an owned string.
pub fn owned(s: &str) -> (r: String)
    ensures
        r@ == s@,
{
    s.to_owned()
}

/// Concatenation of two string slices.
pub fn concat2(a: &str, b: &str) -> (r: String)
    ensures
        r@ == a@ + b@,
{
    let mut r = a.to_owned();
    r.append(b);
    r
}

/// Concatenation of three string slices.
pub fn concat3(a: &str, b: &str, c: &str) -> (r: String)
    ensures
        r@ == a@ + b@ + c@,
{
    let mut r = a.to_owned();
    r.append(b);
    r.append(c);
    r
}

// ---------------------------------------------------------------------------
// Equality and order on text
// ---------------------------------------------------------------------------

/// Equality of two string slices.
pub fn text_eq(a: &str, b: &str) -> (r: bool)
    ensures
        r == (a@ == b@),
{
    let x = chars_of(a);
    let y = chars_of(b);
    if x.len() != y.len() {
        return false;
    }
    let mut i: usize = 0;
    while i < x.len()
        invariant
            x@ == a@,
            y@ == b@,
            x@.len() == y@.len(),
            i <= x@.len(),
            forall|j: int| 0 <= j < i ==> x@[j] == y@[j],
        decreases x@.len() - i,
    {
        if x[i] != y[i] {
            return false;
        }
        i = i + 1;
    }
    assert(x@ =~= y@);
    true
}

/// Strict lexicographic order on character sequences (by code point), which is
/// the order of `String` (byte-wise order of the UTF-8 encoding).
pub open spec fn seq_lt(a: Seq<char>, b: Seq<char>) -> bool
    decreases a.len(),
{
    if a.len() == 0 {
        b.len() > 0
    } else if b.len() == 0 {
        false
    } else if a[0] != b[0] {
        a[0] < b[0]
    } else {
        seq_lt(a.drop_first(), b.drop_first())
    }
}

pub open spec fn seq_le(a: Seq<char>, b: Seq<char>) -> bool {
    seq_lt(a, b) || a == b
}

pub proof fn lemma_seq_lt_irreflexive(a: Seq<char>)
    ensures
        !seq_lt(a, a),
    decreases a.len(),
{
    if a.len() > 0 {
        lemma_seq_lt_irreflexive(a.drop_first());
    }
}

pub proof fn lemma_seq_lt_transitive(a: Seq<char>, b: Seq<char>, c: Seq<char>)
    requires
        seq_lt(a, b),
        seq_lt(b, c),
    ensures
        seq_lt(a, c),
    decreases a.len(),
{
    if a.len() > 0 && b.len() > 0 && c.len() > 0 {
        if a[0] == b[0] && b[0] == c[0] {
            lemma_seq_lt_transitive(a.drop_first(), b.drop_first(), c.drop_first());
        }
    }
}

pub proof fn lemma_seq_lt_total(a: Seq<char>, b: Seq<char>)
    ensures
        seq_lt(a, b) || seq_lt(b, a) || a == b,
    decreases a.len(),
{
    if a.len() > 0 && b.len() > 0 {
        if a[0] == b[0] {
            lemma_seq_lt_total(a.drop_first(), b.drop_first());
            if a.drop_first() == b.drop_first() {
                assert(a =~= seq![a[0]] + a.drop_first());
                assert(b =~= seq![b[0]] + b.drop_first());
            }
        }
    } else if a.len() == 0 && b.len() == 0 {
        assert(a =~= b);
    }
}

pub proof fn lemma_seq_lt_asymmetric(a: Seq<char>, b: Seq<char>)
    requires
        seq_lt(a, b),
    ensures
        !seq_lt(b, a),
        a != b,
{
    lemma_seq_lt_irreflexive(a);
    if seq_lt(b, a) {
        lemma_seq_lt_transitive(a, b, a);
    }
}

/// Strict lexicographic comparison of two strings.
pub fn text_less(a: &str, b: &str) -> (r: bool)
    ensures
        r == seq_lt(a@, b@),
{
    let x = chars_of(a);
    let y = chars_of(b);
    let mut i: usize = 0;
    assert(a@.skip(0) =~= a@);
    assert(b@.skip(0) =~= b@);
    while i < x.len() && i < y.len()
        invariant
            x@ == a@,
            y@ == b@,
            i <= x@.len(),
            i <= y@.len(),
            seq_lt(a@, b@) == seq_lt(a@.skip(i as int), b@.skip(i as int)),
        decreases x@.len() - i,
    {
        if x[i] != y[i] {
            let ghost p = a@.skip(i as int);
            let ghost q = b@.skip(i as int);
            assert(p[0] == x@[i as int]);
            assert(q[0] == y@[i as int]);
            return x[i] < y[i];
        }
        assert(a@.skip(i as int).drop_first() =~= a@.skip(i + 1));
        assert(b@.skip(i as int).drop_first() =~= b@.skip(i + 1));
        i = i + 1;
    }
    i < y.len()
}

// ---------------------------------------------------------------------------
// Trimming and path separators
// ---------------------------------------------------------------------------

/// Removes leading whitespace.
pub open spec fn trim_start_ws(s: Seq<char>) -> Seq<char>
    decreases s.len(),
{
    if s.len() > 0 && is_ws(s[0]) {
        trim_start_ws(s.drop_first())
    } else {
        s
    }
}

/// Removes trailing whitespace.
pub open spec fn trim_end_ws(s: Seq<char>) -> Seq<char>
    decreases s.len(),
{
    if s.len() > 0 && is_ws(s.last()) {
        trim_end_ws(s.drop_last())
    } else {
        s
    }
}

/// `str::trim`.
pub open spec fn trim_ws(s: Seq<char>) -> Seq<char> {
    trim_end_ws(trim_start_ws(s))
}

proof fn lemma_trim_start_skip(s: Seq<char>, i: int)
    requires
        0 <= i <= s.len(),
        forall|j: int| 0 <= j < i ==> is_ws(s[j]),
    ensures
        trim_start_ws(s) == trim_start_ws(s.skip(i)),
    decreases i,
{
    if i > 0 {
        assert(s.drop_first().skip(i - 1) =~= s.skip(i));
        lemma_trim_start_skip(s.drop_first(), i - 1);
    } else {
        assert(s.skip(0) =~= s);
    }
}

proof fn lemma_trim_end_take(s: Seq<char>, k: int)
    requires
        0 <= k <= s.len(),
        forall|j: int| k <= j < s.len() ==> is_ws(s[j]),
    ensures
        trim_end_ws(s) == trim_end_ws(s.take(k)),
    decreases s.len() - k,
{
    if k < s.len() {
        assert(s.drop_last().take(k) =~= s.take(k));
        lemma_trim_end_take(s.drop_last(), k);
    } else {
        assert(s.take(k) =~= s);
    }
}

/// `str::trim` on character vectors: the bounds of the kept part.
pub fn trim_bounds(v: &Vec<char>) -> (r: (usize, usize))
    ensures
        r.0 <= r.1 <= v@.len(),
        v@.subrange(r.0 as int, r.1 as int) == trim_ws(v@),
{
    let mut start: usize = 0;
    while start < v.len() && is_ws_char(v[start])
        invariant
            start <= v@.len(),
            forall|j: int| 0 <= j < start ==> is_ws(v@[j]),
        decreases v@.len() - start,
    {
        start = start + 1;
    }
    proof {
        lemma_trim_start_skip(v@, start as int);
    }
    let ghost t = v@.skip(start as int);
    assert(trim_start_ws(t) == t);
    let mut end: usize = v.len();
    while end > start && is_ws_char(v[end - 1])
        invariant
            start <= end <= v@.len(),
            forall|j: int| end <= j < v@.len() ==> is_ws(v@[j]),
        decreases end,
    {
        end = end - 1;
    }
    proof {
        assert forall|j: int| end - start <= j < t.len() implies is_ws(t[j]) by {
            assert(t[j] == v@[j + start]);
        }
        lemma_trim_end_take(t, end - start);
        assert(t.take(end - start) =~= v@.subrange(start as int, end as int));
        let u = t.take(end - start);
        if u.len() > 0 {
            assert(u.last() == v@[end - 1]);
        }
    }
    (start, end)
}

/// `str::trim_start`.
pub fn trim_start_text(s: &str) -> (r: String)
    ensures
        r@ == trim_start_ws(s@),
{
    let v = chars_of(s);
    let mut start: usize = 0;
    assert(v@.skip(0) =~= v@);
    while start < v.len() && is_ws_char(v[start])
        invariant
            v@ == s@,
            start <= v@.len(),
            trim_start_ws(s@) == trim_start_ws(v@.skip(start as int)),
        decreases v@.len() - start,
    {
        assert(v@.skip(start as int).drop_first() =~= v@.skip(start + 1));
        start = start + 1;
    }
    assert(v@.skip(start as int) =~= v@.subrange(start as int, v@.len() as int));
    string_from_chars(&v.as_slice()[start..v.len()])
}

/// `str::trim`.
pub fn trim_text(s: &str) -> (r: String)
    ensures
        r@ == trim_ws(s@),
{
    let v = chars_of(s);
    let (a, b) = trim_bounds(&v);
    string_from_chars(&v.as_slice()[a..b])
}

/// Replaces every backslash by a slash.
pub open spec fn slashes(s: Seq<char>) -> Seq<char> {
    s.map_values(|c: char| if c == '\\' { '/' } else { c })
}

pub fn normalize_slashes(s: &str) -> (r: String)
    ensures
        r@ == slashes(s@),
{
    let v = chars_of(s);
    let mut out: Vec<char> = Vec::new();
    let mut i: usize = 0;
    while i < v.len()
        invariant
            v@ == s@,
            i <= v@.len(),
            out@ == slashes(v@.take(i as int)),
        decreases v@.len() - i,
    {
        out.push(if v[i] == '\\' { '/' } else { v[i] });
        assert(slashes(v@.take(i + 1)) =~= slashes(v@.take(i as int)).push(
            if v@[i as int] == '\\' { '/' } else { v@[i as int] },
        ));
        i = i + 1;
    }
    assert(v@.take(v@.len() as int) =~= v@);
    string_from_chars(out.as_slice())
}

/// `str::trim_start_matches("./")`.
pub open spec fn strip_dot_slash(s: Seq<char>) -> Seq<char>
    decreases s.len(),
{
    if s.len() >= 2 && s[0] == '.' && s[1] == '/' {
        strip_dot_slash(s.skip(2))
    } else {
        s
    }
}

proof fn lemma_strip_dot_slash_skip(s: Seq<char>, i: int)
    requires
        0 <= i <= s.len(),
        i % 2 == 0,
        forall|j: int| 0 <= j < i ==> s[j] == (if j % 2 == 0 { '.' } else { '/' }),
    ensures
        strip_dot_slash(s) == strip_dot_slash(s.skip(i)),
    decreases i,
{
    if i > 0 {
        assert(s[0] == '.');
        assert(s[1] == '/');
        assert(s.skip(2).skip(i - 2) =~= s.skip(i));
        assert forall|j: int| 0 <= j < i - 2 implies s.skip(2)[j] == (if j % 2 == 0 {
            '.'
        } else {
            '/'
        }) by {
            assert(s.skip(2)[j] == s[j + 2]);
        }
        lemma_strip_dot_slash_skip(s.skip(2), i - 2);
    } else {
        assert(s.skip(0) =~= s);
    }
}

/// `str::trim_start_matches("./")` on a character vector: where the kept part starts.
pub fn strip_dot_slash_start(v: &Vec<char>) -> (r: usize)
    ensures
        r <= v@.len(),
        v@.skip(r as int) == strip_dot_slash(v@),
{
    let mut i: usize = 0;
    while i + 1 < v.len() && v[i] == '.' && v[i + 1] == '/'
        invariant
            i <= v@.len(),
            i % 2 == 0,
            forall|j: int| 0 <= j < i ==> v@[j] == (if j % 2 == 0 { '.' } else { '/' }),
        decreases v@.len() - i,
    {
        i = i + 2;
    }
    proof {
        lemma_strip_dot_slash_skip(v@, i as int);
        let t = v@.skip(i as int);
        if t.len() >= 2 {
            assert(t[0] == v@[i as int]);
            assert(t[1] == v@[i + 1]);
        }
    }
    i
}

// ---------------------------------------------------------------------------
// Identifier slugs
// ---------------------------------------------------------------------------

/// The maximal runs of ASCII letters and digits of `s`, lowercased and joined by `-`.
pub open spec fn slug(s: Seq<char>) -> Seq<char>
    decreases s.len(),
{
    if s.len() == 0 {
        seq![]
    } else {
        let prev = slug(s.drop_last());
        let c = s.last();
        if !is_alnum(c) {
            prev
        } else if prev.len() > 0 && !is_alnum(s[s.len() - 2]) {
            prev.push('-').push(lower(c))
        } else {
            prev.push(lower(c))
        }
    }
}

/// A stable identifier: `prefix` alone when `value` has no letters or digits,
/// else `prefix-slug(value)`.
pub open spec fn stable_id_spec(prefix: Seq<char>, value: Seq<char>) -> Seq<char> {
    if slug(value).len() == 0 {
        prefix
    } else {
        prefix + seq!['-'] + slug(value)
    }
}

/// The slug of a character vector.
pub fn slug_chars(v: &Vec<char>) -> (r: Vec<char>)
    ensures
        r@ == slug(v@),
{
    let mut out: Vec<char> = Vec::new();
    let mut prev_alnum = false;
    let mut i: usize = 0;
    while i < v.len()
        invariant
            i <= v@.len(),
            out@ == slug(v@.take(i as int)),
            prev_alnum == (i > 0 && is_alnum(v@[i - 1])),
        decreases v@.len() - i,
    {
        let c = v[i];
        let ghost pre = v@.take(i as int);
        assert(v@.take(i + 1).drop_last() =~= pre);
        if is_alnum_char(c) {
            if out.len() > 0 && !prev_alnum {
                out.push('-');
            }
            out.push(lower_char(c));
            prev_alnum = true;
        } else {
            prev_alnum = false;
        }
        i = i + 1;
    }
    assert(v@.take(v@.len() as int) =~= v@);
    out
}

/// The slug of a string slice.
pub fn slug_text(s: &str) -> (r: String)
    ensures
        r@ == slug(s@),
{
    let v = chars_of(s);
    let out = slug_chars(&v);
    string_from_chars(out.as_slice())
}

/// A stable identifier built from a prefix and a value.
pub fn stable_id(prefix: &str, value: &str) -> (r: String)
    ensures
        r@ == stable_id_spec(prefix@, value@),
{
    let suffix = slug_text(value);
    proof {
        reveal_strlit("-");
    }
    if suffix.as_str().unicode_len() == 0 {
        owned(prefix)
    } else {
        concat3(prefix, "-", suffix.as_str())
    }
}

// ---------------------------------------------------------------------------
// Decimal numerals
// ---------------------------------------------------------------------------

pub open spec fn digit(d: nat) -> char {
    if d == 0 {
        '0'
    } else if d == 1 {
        '1'
    } else if d == 2 {
        '2'
    } else if d == 3 {
        '3'
    } else if d == 4 {
        '4'
    } else if d == 5 {
        '5'
    } else if d == 6 {
        '6'
    } else if d == 7 {
        '7'
    } else if d == 8 {
        '8'
    } else {
        '9'
    }
}

/// The decimal numeral of `n` (no leading zeros).
pub open spec fn decimal(n: nat) -> Seq<char>
    decreases n,
{
    if n < 10 {
        seq![digit(n)]
    } else {
        decimal(n / 10).push(digit(n % 10))
    }
}

fn digit_char(d: usize) -> (c: char)
    requires
        d < 10,
    ensures
        c == digit(d as nat),
{
    if d == 0 {
        '0'
    } else if d == 1 {
        '1'
    } else if d == 2 {
        '2'
    } else if d == 3 {
        '3'
    } else if d == 4 {
        '4'
    } else if d == 5 {
        '5'
    } else if d == 6 {
        '6'
    } else if d == 7 {
        '7'
    } else if d == 8 {
        '8'
    } else {
        '9'
    }
}

fn decimal_chars(n: usize) -> (r: Vec<char>)
    ensures
        r@ == decimal(n as nat),
    decreases n,
{
    if n < 10 {
        let mut v: Vec<char> = Vec::new();
        v.push(digit_char(n));
        v
    } else {
        let mut v = decimal_chars(n / 10);
        v.push(digit_char(n % 10));
        v
    }
}

fn decimal_chars_wide(n: u128) -> (r: Vec<char>)
    ensures
        r@ == decimal(n as nat),
    decreases n,
{
    if n < 10 {
        let mut v: Vec<char> = Vec::new();
        v.push(digit_char((n % 10) as usize));
        v
    } else {
        let mut v = decimal_chars_wide(n / 10);
        v.push(digit_char((n % 10) as usize));
        v
    }
}

/// The decimal numeral of a 128-bit `n`.
pub fn decimal_text_wide(n: u128) -> (r: String)
    ensures
        r@ == decimal(n as nat),
{
    let v = decimal_chars_wide(n);
    string_from_chars(v.as_slice())
}

/// The decimal numeral of `n`.
pub fn decimal_text(n: usize) -> (r: String)
    ensures
        r@ == decimal(n as nat),
{
    let v = decimal_chars(n);
    string_from_chars(v.as_slice())
}

// ---------------------------------------------------------------------------
// Substrings, prefixes and suffixes
// ---------------------------------------------------------------------------

/// `needle` occurs in `hay` at position `i`.
pub open spec fn occurs_at(hay: Seq<char>, needle: Seq<char>, i: int) -> bool {
    0 <= i && i + needle.len() <= hay.len() && hay.subrange(i, i + needle.len()) == needle
}

/// `str::contains` with a string pattern.
pub open spec fn contains_seq(hay: Seq<char>, needle: Seq<char>) -> bool {
    exists|i: int| occurs_at(hay, needle, i)
}

fn occurs_at_exec(h: &Vec<char>, n: &Vec<char>, i: usize) -> (r: bool)
    requires
        i + n@.len() <= h@.len(),
    ensures
        r == occurs_at(h@, n@, i as int),
{
    let mut j: usize = 0;
    while j < n.len()
        invariant
            i + n.len() <= h.len(),
            j <= n@.len(),
            forall|k: int| 0 <= k < j ==> h@[i + k] == n@[k],
        decreases n@.len() - j,
    {
        if h[i + j] != n[j] {
            assert(h@.subrange(i as int, i + n@.len())[j as int] != n@[j as int]);
            return false;
        }
        j = j + 1;
    }
    assert(h@.subrange(i as int, i + n@.len()) =~= n@);
    true
}

/// `str::contains`.
pub fn contains_text(hay: &str, needle: &str) -> (r: bool)
    ensures
        r == contains_seq(hay@, needle@),
{
    let h = chars_of(hay);
    let n = chars_of(needle);
    if n.len() > h.len() {
        assert(forall|i: int| !occurs_at(hay@, needle@, i));
        return false;
    }
    if n.len() == 0 {
        assert(h@.subrange(0, 0) =~= n@);
        assert(occurs_at(hay@, needle@, 0));
        return true;
    }
    let mut i: usize = 0;
    let last = h.len() - n.len();
    while i <= last
        invariant
            h@ == hay@,
            n@ == needle@,
            0 < n@.len() <= h@.len(),
            last == h@.len() - n@.len(),
            last < h.len(),
            i <= last + 1,
            forall|k: int| 0 <= k < i ==> !occurs_at(hay@, needle@, k),
        decreases last + 1 - i,
    {
        if occurs_at_exec(&h, &n, i) {
            return true;
        }
        i = i + 1;
    }
    assert forall|k: int| !occurs_at(hay@, needle@, k) by {
        if occurs_at(hay@, needle@, k) {
            assert(k < i);
        }
    }
    false
}

/// `str::starts_with`.
pub fn starts_with_text(s: &str, prefix: &str) -> (r: bool)
    ensures
        r == prefix@.is_prefix_of(s@),
{
    let h = chars_of(s);
    let n = chars_of(prefix);
    if n.len() > h.len() {
        return false;
    }
    let r = occurs_at_exec(&h, &n, 0);
    proof {
        if r {
            assert(h@.subrange(0, n@.len() as int) == n@);
            assert forall|k: int| 0 <= k < n@.len() implies n@[k] == h@[k] by {
                assert(h@.subrange(0, n@.len() as int)[k] == h@[k]);
            }
        } else {
            if prefix@.is_prefix_of(s@) {
                assert(h@.subrange(0, n@.len() as int) =~= n@);
            }
        }
    }
    r
}

/// `str::ends_with`.
pub fn ends_with_text(s: &str, suffix: &str) -> (r: bool)
    ensures
        r == suffix@.is_suffix_of(s@),
{
    let h = chars_of(s);
    let n = chars_of(suffix);
    if n.len() > h.len() {
        return false;
    }
    let start = h.len() - n.len();
    let r = occurs_at_exec(&h, &n, start);
    proof {
        if r {
            assert forall|k: int| 0 <= k < n@.len() implies n@[k] == h@[h@.len() - n@.len()
                + k] by {
                assert(h@.subrange(start as int, start + n@.len())[k] == h@[start + k]);
            }
        } else {
            if suffix@.is_suffix_of(s@) {
                assert(h@.subrange(start as int, start + n@.len()) =~= n@);
            }
        }
    }
    r
}

/// ASCII lowercase copy of a string (`str::to_ascii_lowercase`).
pub fn lower_text(s: &str) -> (r: String)
    ensures
        r@ == lower_seq(s@),
{
    let v = chars_of(s);
    let mut out: Vec<char> = Vec::new();
    let mut i: usize = 0;
    while i < v.len()
        invariant
            v@ == s@,
            i <= v@.len(),
            out@ == lower_seq(v@.take(i as int)),
        decreases v@.len() - i,
    {
        out.push(lower_char(v[i]));
        assert(lower_seq(v@.take(i + 1)) =~= lower_seq(v@.take(i as int)).push(lower(v@[i as int])));
        i = i + 1;
    }
    assert(v@.take(v@.len() as int) =~= v@);
    string_from_chars(out.as_slice())
}

// ---------------------------------------------------------------------------
// Tokens
// ---------------------------------------------------------------------------

/// The maximal runs of ASCII letters and digits of `s`, lowercased, in order.
pub open spec fn token_list(s: Seq<char>) -> Seq<Seq<char>>
    decreases s.len(),
{
    if s.len() == 0 {
        seq![]
    } else {
        let prev = token_list(s.drop_last());
        let c = s.last();
        if !is_alnum(c) {
            prev
        } else if s.len() >= 2 && is_alnum(s[s.len() - 2]) && prev.len() > 0 {
            prev.update(prev.len() - 1, prev.last().push(lower(c)))
        } else {
            prev.push(seq![lower(c)])
        }
    }
}

/// The set of tokens of a text: what splitting at every character that is not an
/// ASCII letter or digit, dropping empty parts and lowercasing leaves.
pub open spec fn tokens(s: Seq<char>) -> Set<Seq<char>> {
    token_list(s).to_set()
}

pub proof fn lemma_push_to_set<A>(s: Seq<A>, x: A)
    ensures
        s.push(x).to_set() == s.to_set().insert(x),
{
    assert forall|y: A| s.push(x).to_set().contains(y) implies s.to_set().insert(x).contains(y) by {
        let i = choose|i: int| 0 <= i < s.push(x).len() && s.push(x)[i] == y;
        if i < s.len() {
            assert(s[i] == y);
        }
    }
    assert forall|y: A| s.to_set().insert(x).contains(y) implies s.push(x).to_set().contains(y) by {
        if y == x {
            assert(s.push(x)[s.len() as int] == x);
        } else {
            let i = choose|i: int| 0 <= i < s.len() && s[i] == y;
            assert(s.push(x)[i] == y);
        }
    }
    assert(s.push(x).to_set() =~= s.to_set().insert(x));
}

/// The tokens of a text, without repetition.
pub fn tokenize(s: &str) -> (r: Vec<String>)
    ensures
        r@.map_values(|t: String| t@).to_set() == tokens(s@),
        r@.map_values(|t: String| t@).no_duplicates(),
{
    let v = chars_of(s);
    let mut list: Vec<Vec<char>> = Vec::new();
    let mut i: usize = 0;
    while i < v.len()
        invariant
            v@ == s@,
            i <= v@.len(),
            list@.map_values(|t: Vec<char>| t@) == token_list(v@.take(i as int)),
        decreases v@.len() - i,
    {
        let c = v[i];
        let ghost pre = v@.take(i as int);
        let ghost old_list = list@.map_values(|t: Vec<char>| t@);
        assert(v@.take(i + 1).drop_last() =~= pre);
        assert(v@.take(i + 1).last() == c);
        if is_alnum_char(c) {
            if i > 0 && is_alnum_char(v[i - 1]) && list.len() > 0 {
                assert(v@.take(i + 1)[i - 1] == v@[i - 1]);
                let last_index = list.len() - 1;
                let mut last = list.pop().unwrap();
                last.push(lower_char(c));
                list.push(last);
                assert(list@.map_values(|t: Vec<char>| t@) =~= old_list.update(
                    old_list.len() - 1,
                    old_list.last().push(lower(c)),
                ));
            } else {
                let mut t: Vec<char> = Vec::new();
                t.push(lower_char(c));
                list.push(t);
                proof {
                    if i > 0 {
                        assert(v@.take(i + 1)[i - 1] == v@[i - 1]);
                    }
                }
                assert(list@.map_values(|t: Vec<char>| t@) =~= old_list.push(seq![lower(c)]));
            }
        }
        i = i + 1;
    }
    assert(v@.take(v@.len() as int) =~= v@);
    let ghost all = list@.map_values(|t: Vec<char>| t@);
    // Keep the first occurrence of every token.
    let mut out: Vec<String> = Vec::new();
    let mut k: usize = 0;
    while k < list.len()
        invariant
            k <= list@.len(),
            all == list@.map_values(|t: Vec<char>| t@),
            out@.map_values(|t: String| t@).to_set() == all.take(k as int).to_set(),
            out@.map_values(|t: String| t@).no_duplicates(),
        decreases list@.len() - k,
    {
        let candidate = string_from_chars(list[k].as_slice());
        let mut seen = false;
        let mut j: usize = 0;
        while j < out.len()
            invariant
                j <= out@.len(),
                seen == exists|m: int| 0 <= m < j && out[m]@ == candidate@,
            decreases out@.len() - j,
        {
            if text_eq(out[j].as_str(), candidate.as_str()) {
                seen = true;
            }
            j = j + 1;
        }
        let ghost before = out@.map_values(|t: String| t@);
        assert(all.take(k + 1) =~= all.take(k as int).push(all[k as int]));
        if !seen {
            out.push(candidate);
            assert(out@.map_values(|t: String| t@) =~= before.push(candidate@));
            proof {
                lemma_push_to_set(before, candidate@);
                lemma_push_to_set(all.take(k as int), all[k as int]);
                assert forall|m: int| 0 <= m < before.len() implies before[m] != candidate@ by {
                    assert(out@[m]@ == before[m]);
                }
            }
        } else {
            let ghost m = choose|m: int| 0 <= m < out@.len() && out[m]@ == candidate@;
            assert(before[m] == candidate@);
            proof {
                lemma_push_to_set(all.take(k as int), all[k as int]);
            }
            assert(before.to_set().contains(candidate@));
            assert(all.take(k + 1).to_set() =~= all.take(k as int).to_set());
        }
        k = k + 1;
    }
    assert(all.take(list@.len() as int) =~= all);
    out
}

/// `std::str::from_utf8`, with the result copied into a `String`: the text that the
/// bytes encode, when they are valid UTF-8.
#[verifier::external_body]
pub(crate) fn utf8_text(bytes: &[u8]) -> (r: Option<String>)
    ensures
        r is Some <==> valid_utf8(bytes@),
        r matches Some(s) ==> s@ == decode_utf8(bytes@),
{
    std::str::from_utf8(bytes).ok().map(|s| s.to_string())
}

// ---------------------------------------------------------------------------
// Lines
// ---------------------------------------------------------------------------

/// The pieces of `s` between newlines (`str::split('\n')`).
pub open spec fn newline_split(s: Seq<char>) -> Seq<Seq<char>>
    decreases s.len(),
{
    if s.len() == 0 {
        seq![seq![]]
    } else {
        let prev = newline_split(s.drop_last());
        if s.last() == '\n' {
            prev.push(seq![])
        } else {
            prev.update(prev.len() - 1, prev.last().push(s.last()))
        }
    }
}

pub proof fn lemma_newline_split_nonempty(s: Seq<char>)
    ensures
        newline_split(s).len() > 0,
    decreases s.len(),
{
    if s.len() > 0 {
        lemma_newline_split_nonempty(s.drop_last());
    }
}

/// A line without the carriage return that ends it.
pub open spec fn strip_cr(l: Seq<char>) -> Seq<char> {
    if l.len() > 0 && l.last() == '\r' {
        l.drop_last()
    } else {
        l
    }
}

/// `str::lines`: the newline-terminated lines without their `\r\n` or `\n`, then
/// the last line when it is not empty.
pub open spec fn lines_spec(s: Seq<char>) -> Seq<Seq<char>> {
    let parts = newline_split(s);
    parts.drop_last().map_values(|l: Seq<char>| strip_cr(l)) + if parts.last().len() > 0 {
        seq![parts.last()]
    } else {
        seq![]
    }
}

/// The lines of a text.
pub fn split_lines(s: &str) -> (r: Vec<String>)
    ensures
        r@.map_values(|t: String| t@) == lines_spec(s@),
{
    let v = chars_of(s);
    let mut done: Vec<String> = Vec::new();
    let mut cur: Vec<char> = Vec::new();
    let mut i: usize = 0;
    while i < v.len()
        invariant
            v@ == s@,
            i <= v@.len(),
            newline_split(v@.take(i as int)) == done@.map_values(|t: String| t@).push(cur@),
            forall|k: int| 0 <= k < done@.len() ==> (#[trigger] done@[k])@ == done@[k]@,
        decreases v@.len() - i,
    {
        let c = v[i];
        assert(v@.take(i + 1).drop_last() =~= v@.take(i as int));
        assert(v@.take(i + 1).last() == c);
        let ghost before = done@.map_values(|t: String| t@);
        if c == '\n' {
            let line = string_from_chars(cur.as_slice());
            done.push(line);
            cur = Vec::new();
            assert(done@.map_values(|t: String| t@) =~= before.push(line@));
            assert(newline_split(v@.take(i + 1)) =~= done@.map_values(|t: String| t@).push(cur@));
        } else {
            cur.push(c);
            assert(newline_split(v@.take(i + 1)) =~= before.push(cur@));
        }
        i = i + 1;
    }
    assert(v@.take(v@.len() as int) =~= v@);
    let ghost parts = newline_split(s@);
    let ghost pieces = done@.map_values(|t: String| t@);
    assert(parts.drop_last() =~= pieces);
    let mut out: Vec<String> = Vec::new();
    let mut k: usize = 0;
    while k < done.len()
        invariant
            k <= done@.len(),
            pieces == done@.map_values(|t: String| t@),
            out@.map_values(|t: String| t@) == pieces.take(k as int).map_values(|l: Seq<char>| strip_cr(l)),
        decreases done@.len() - k,
    {
        let line = chars_of(done[k].as_str());
        let n = line.len();
        let stripped = if n > 0 && line[n - 1] == '\r' {
            string_from_chars(&line.as_slice()[0..n - 1])
        } else {
            string_from_chars(line.as_slice())
        };
        proof {
            assert(line@ == pieces[k as int]);
            if n > 0 && line@[n - 1] == '\r' {
                assert(line@.subrange(0, n - 1) =~= line@.drop_last());
            }
        }
        let ghost before = out@.map_values(|t: String| t@);
        out.push(stripped);
        assert(pieces.take(k + 1).map_values(|l: Seq<char>| strip_cr(l)) =~= pieces.take(k as int).map_values(|l: Seq<char>| strip_cr(l)).push(strip_cr(pieces[k as int])));
        assert(out@.map_values(|t: String| t@) =~= before.push(stripped@));
        k = k + 1;
    }
    assert(pieces.take(pieces.len() as int) =~= pieces);
    let ghost before = out@.map_values(|t: String| t@);
    if cur.len() > 0 {
        let last = string_from_chars(cur.as_slice());
        out.push(last);
        assert(out@.map_values(|t: String| t@) =~= before.push(last@));
    }
    assert(out@.map_values(|t: String| t@) =~= lines_spec(s@));
    out
}

} // verus!
