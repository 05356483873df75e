use vstd::prelude::*;
use vstd::utf8::{encode_scalar, encode_utf8, has_width_1_encoding, has_width_2_encoding, has_width_3_encoding};

use crate::text::{chars_of, lines_spec, split_lines, string_from_chars};

verus! {

// ---------------------------------------------------------------------------
// UTF-8 lengths
// ---------------------------------------------------------------------------

/// The number of bytes of the UTF-8 encoding of a character.
pub open spec fn char_width(c: char) -> nat {
    if (c as u32) <= 0x7F {
        1
    } else if (c as u32) <= 0x7FF {
        2
    } else if (c as u32) <= 0xFFFF {
        3
    } else {
        4
    }
}

/// The number of bytes of the UTF-8 encoding of a text.
pub open spec fn utf8_len(s: Seq<char>) -> nat
    decreases s.len(),
{
    if s.len() == 0 {
        0
    } else {
        utf8_len(s.drop_last()) + char_width(s.last())
    }
}

pub proof fn lemma_utf8_len_add(a: Seq<char>, b: Seq<char>)
    ensures
        utf8_len(a + b) == utf8_len(a) + utf8_len(b),
    decreases b.len(),
{
    if b.len() > 0 {
        assert((a + b).drop_last() =~= a + b.drop_last());
        lemma_utf8_len_add(a, b.drop_last());
    } else {
        assert(a + b =~= a);
    }
}

pub proof fn lemma_utf8_len_prefix(s: Seq<char>, i: int, j: int)
    requires
        0 <= i <= j <= s.len(),
    ensures
        utf8_len(s.take(i)) <= utf8_len(s.take(j)),
{
    lemma_utf8_len_add(s.take(i), s.subrange(i, j));
    assert(s.take(i) + s.subrange(i, j) =~= s.take(j));
}

/// The encoding that `str::len` counts has the length `utf8_len` gives.
pub proof fn lemma_encode_len(s: Seq<char>)
    ensures
        encode_utf8(s).len() == utf8_len(s),
    decreases s.len(),
{
    if s.len() > 0 {
        lemma_encode_len(s.drop_first());
        let v = s[0] as u32;
        vstd::utf8::char_is_scalar(s[0]);
        assert(encode_scalar(v).len() == char_width(s[0]));
        lemma_utf8_len_add(seq![s[0]], s.drop_first());
        assert(seq![s[0]] + s.drop_first() =~= s);
        assert(seq![s[0]].drop_last() =~= Seq::<char>::empty());
        assert(utf8_len(Seq::<char>::empty()) == 0);
        assert(seq![s[0]].last() == s[0]);
        assert(utf8_len(seq![s[0]]) == utf8_len(seq![s[0]].drop_last()) + char_width(seq![s[0]].last()));
        assert(utf8_len(seq![s[0]]) == char_width(s[0]));
        assert(encode_utf8(s) == encode_scalar(v) + encode_utf8(s.drop_first()));
    }
}

fn char_width_exec(c: char) -> (r: usize)
    ensures
        r == char_width(c),
{
    let v: u32 = c as u32;
    if v <= 0x7F {
        1
    } else if v <= 0x7FF {
        2
    } else if v <= 0xFFFF {
        3
    } else {
        4
    }
}

/// The UTF-8 length of a character vector whose length fits in a `usize`.
pub fn utf8_len_exec(v: &Vec<char>) -> (r: usize)
    requires
        utf8_len(v@) <= usize::MAX,
    ensures
        r == utf8_len(v@),
{
    let mut n: usize = 0;
    let mut i: usize = 0;
    while i < v.len()
        invariant
            i <= v@.len(),
            utf8_len(v@) <= usize::MAX,
            n == utf8_len(v@.take(i as int)),
        decreases v@.len() - i,
    {
        proof {
            assert(v@.take(i + 1).drop_last() =~= v@.take(i as int));
            lemma_utf8_len_prefix(v@, i + 1, v@.len() as int);
            assert(v@.take(v@.len() as int) =~= v@);
        }
        n = n + char_width_exec(v[i]);
        i = i + 1;
    }
    assert(v@.take(v@.len() as int) =~= v@);
    n
}

/// The UTF-8 length of a character vector, or `usize::MAX` when it is larger.
pub fn utf8_len_capped(v: &Vec<char>) -> (r: usize)
    ensures
        r as nat == (if utf8_len(v@) <= usize::MAX { utf8_len(v@) } else { usize::MAX as nat }),
{
    let mut n: usize = 0;
    let mut i: usize = 0;
    while i < v.len()
        invariant
            i <= v@.len(),
            n as nat == (if utf8_len(v@.take(i as int)) <= usize::MAX { utf8_len(v@.take(i as int)) } else { usize::MAX as nat }),
        decreases v@.len() - i,
    {
        assert(v@.take(i + 1).drop_last() =~= v@.take(i as int));
        let w = char_width_exec(v[i]);
        if n > usize::MAX - w {
            n = usize::MAX;
        } else {
            n = n + w;
        }
        i = i + 1;
    }
    assert(v@.take(v@.len() as int) =~= v@);
    n
}

// ---------------------------------------------------------------------------
// Cutting to a byte budget
// ---------------------------------------------------------------------------

/// `t.take(k)` is the longest prefix of `t` whose encoding fits in `max` bytes.
pub open spec fn longest_fitting_prefix(t: Seq<char>, max: nat, k: int) -> bool {
    &&& 0 <= k <= t.len()
    &&& utf8_len(t.take(k)) <= max
    &&& (k == t.len() || utf8_len(t.take(k + 1)) > max)
}

/// Cuts a text at the last character boundary within `max` bytes.
pub fn truncate_to_bytes(t: &Vec<char>, max: usize) -> (r: Vec<char>)
    ensures
        exists|k: int| longest_fitting_prefix(t@, max as nat, k) && r@ == t@.take(k),
{
    let mut r: Vec<char> = Vec::new();
    let mut n: usize = 0;
    let mut i: usize = 0;
    while i < t.len()
        invariant
            i <= t@.len(),
            r@ == t@.take(i as int),
            n == utf8_len(t@.take(i as int)),
            n <= max,
        decreases t@.len() - i,
    {
        let w = char_width_exec(t[i]);
        assert(t@.take(i + 1).drop_last() =~= t@.take(i as int));
        if w > max - n {
            assert(longest_fitting_prefix(t@, max as nat, i as int));
            return r;
        }
        n = n + w;
        r.push(t[i]);
        assert(r@ =~= t@.take(i + 1));
        i = i + 1;
    }
    assert(t@.take(t@.len() as int) =~= t@);
    assert(longest_fitting_prefix(t@, max as nat, t@.len() as int));
    r
}

// ---------------------------------------------------------------------------
// Lines and their byte offsets
// ---------------------------------------------------------------------------

/// The number of lines of a text, at least one.
pub open spec fn line_count(s: Seq<char>) -> nat {
    if lines_spec(s).len() == 0 {
        1
    } else {
        lines_spec(s).len()
    }
}

/// Lines joined with `\n`.
pub open spec fn join_lines(ls: Seq<Seq<char>>) -> Seq<char>
    decreases ls.len(),
{
    if ls.len() == 0 {
        seq![]
    } else if ls.len() == 1 {
        ls[0]
    } else {
        join_lines(ls.drop_last()) + seq!['\n'] + ls.last()
    }
}

/// Lines `start..=end` (one-based) of a text, joined with `\n`.
pub open spec fn slice_lines(s: Seq<char>, start: int, end: int) -> Seq<char> {
    let ls = lines_spec(s);
    let a = if start - 1 < ls.len() { start - 1 } else { ls.len() as int };
    let b = if end < ls.len() { end } else { ls.len() as int };
    if a <= b {
        join_lines(ls.subrange(a, b))
    } else {
        seq![]
    }
}

/// The byte offsets just after each newline, after a leading zero.
pub open spec fn newline_offsets(s: Seq<char>) -> Seq<nat>
    decreases s.len(),
{
    if s.len() == 0 {
        seq![0]
    } else if s.last() == '\n' {
        newline_offsets(s.drop_last()).push(utf8_len(s))
    } else {
        newline_offsets(s.drop_last())
    }
}

/// The byte offsets at which lines start, ending with the length of the text.
pub open spec fn line_offsets(s: Seq<char>) -> Seq<nat> {
    let p = newline_offsets(s);
    if p.last() != utf8_len(s) {
        p.push(utf8_len(s))
    } else {
        p
    }
}

proof fn lemma_newline_offsets_nonempty(s: Seq<char>)
    ensures
        newline_offsets(s).len() > 0,
        forall|i: int| 0 <= i < newline_offsets(s).len() ==> #[trigger] newline_offsets(s)[i] <= utf8_len(s),
    decreases s.len(),
{
    if s.len() > 0 {
        lemma_newline_offsets_nonempty(s.drop_last());
    }
}

/// The byte offset where one-based line `start` begins.
pub open spec fn start_byte_of(s: Seq<char>, start: int) -> nat {
    if 0 <= start - 1 < line_offsets(s).len() {
        line_offsets(s)[start - 1]
    } else {
        0
    }
}

/// The byte offset where one-based line `end` ends (after its newline).
pub open spec fn end_byte_of(s: Seq<char>, end: int) -> nat {
    if 0 <= end < line_offsets(s).len() {
        line_offsets(s)[end]
    } else {
        utf8_len(s)
    }
}

fn line_offsets_exec(v: &Vec<char>) -> (r: Vec<usize>)
    requires
        utf8_len(v@) <= usize::MAX,
    ensures
        r@.len() == line_offsets(v@).len(),
        forall|i: int| 0 <= i < r@.len() ==> r@[i] as nat == #[trigger] line_offsets(v@)[i],
{
    let mut r: Vec<usize> = Vec::new();
    r.push(0);
    let mut n: usize = 0;
    let mut i: usize = 0;
    while i < v.len()
        invariant
            i <= v@.len(),
            utf8_len(v@) <= usize::MAX,
            n == utf8_len(v@.take(i as int)),
            r@.len() == newline_offsets(v@.take(i as int)).len(),
            forall|k: int| 0 <= k < r@.len() ==> r@[k] as nat == #[trigger] newline_offsets(v@.take(i as int))[k],
        decreases v@.len() - i,
    {
        proof {
            assert(v@.take(i + 1).drop_last() =~= v@.take(i as int));
            lemma_utf8_len_prefix(v@, i + 1, v@.len() as int);
            assert(v@.take(v@.len() as int) =~= v@);
        }
        n = n + char_width_exec(v[i]);
        if v[i] == '\n' {
            r.push(n);
        }
        i = i + 1;
    }
    assert(v@.take(v@.len() as int) =~= v@);
    proof {
        lemma_newline_offsets_nonempty(v@);
    }
    let last = r[r.len() - 1];
    if last != n {
        r.push(n);
    }
    r
}

fn join_window(lines: &Vec<String>, a: usize, b: usize) -> (r: String)
    requires
        a <= b <= lines@.len(),
    ensures
        r@ == join_lines(lines@.map_values(|t: String| t@).subrange(a as int, b as int)),
{
    let ghost ls = lines@.map_values(|t: String| t@);
    let mut out: Vec<char> = Vec::new();
    let mut i: usize = a;
    assert(ls.subrange(a as int, a as int) =~= Seq::<Seq<char>>::empty());
    while i < b
        invariant
            a <= i <= b <= lines@.len(),
            ls == lines@.map_values(|t: String| t@),
            out@ == join_lines(ls.subrange(a as int, i as int)),
        decreases b - i,
    {
        let ghost prev = ls.subrange(a as int, i as int);
        assert(ls.subrange(a as int, i + 1).drop_last() =~= prev);
        assert(ls.subrange(a as int, i + 1).last() == ls[i as int]);
        if i > a {
            out.push('\n');
        }
        let line = chars_of(lines[i].as_str());
        let mut k: usize = 0;
        let ghost base = out@;
        while k < line.len()
            invariant
                k <= line@.len(),
                out@ == base + line@.take(k as int),
            decreases line@.len() - k,
        {
            out.push(line[k]);
            assert(line@.take(k + 1) =~= line@.take(k as int).push(line@[k as int]));
            assert(out@ =~= base + line@.take(k + 1));
            k = k + 1;
        }
        assert(line@.take(line@.len() as int) =~= line@);
        proof {
            if i == a {
                assert(ls.subrange(a as int, i + 1).len() == 1);
                assert(out@ =~= ls[i as int]);
            } else {
                assert(out@ =~= join_lines(prev) + seq!['\n'] + ls[i as int]);
            }
        }
        i = i + 1;
    }
    string_from_chars(out.as_slice())
}

/// The text of lines `start..=end` (one-based) with the byte offsets where it
/// starts and ends in the file.
pub fn slice_text(contents: &str, start: usize, end: usize) -> (r: (String, usize, usize))
    requires
        1 <= start <= end,
        utf8_len(contents@) <= usize::MAX,
    ensures
        r.0@ == slice_lines(contents@, start as int, end as int),
        r.1 as nat == start_byte_of(contents@, start as int),
        r.2 as nat == end_byte_of(contents@, end as int),
{
    let v = chars_of(contents);
    let offsets = line_offsets_exec(&v);
    let start_byte = if start - 1 < offsets.len() {
        offsets[start - 1]
    } else {
        0
    };
    let end_byte = if end < offsets.len() {
        offsets[end]
    } else {
        utf8_len_exec(&v)
    };
    let lines = split_lines(contents);
    let n = lines.len();
    let a = if start - 1 < n { start - 1 } else { n };
    let b = if end < n { end } else { n };
    let text = if a <= b {
        join_window(&lines, a, b)
    } else {
        string_from_chars(&[])
    };
    proof {
        if !(a <= b) {
            reveal_strlit("");
        }
    }
    (text, start_byte, end_byte)
}

// ---------------------------------------------------------------------------
// Content hash
// ---------------------------------------------------------------------------

/// 64-bit FNV-1a of a byte sequence.
pub open spec fn fnv1a(bytes: Seq<u8>) -> u64
    decreases bytes.len(),
{
    if bytes.len() == 0 {
        0xcbf29ce484222325u64
    } else {
        (fnv1a(bytes.drop_last()) ^ (bytes.last() as u64)).wrapping_mul(0x100000001b3u64)
    }
}

pub open spec fn hex_char(d: nat) -> char {
    if d < 10 {
        ((d + 48) as u8) as char
    } else {
        ((d + 87) as u8) as char
    }
}

/// The last `k` hexadecimal digits of `n`, most significant first.
pub open spec fn hex_digits(n: nat, k: nat) -> Seq<char>
    decreases k,
{
    if k == 0 {
        seq![]
    } else {
        hex_digits(n / 16, (k - 1) as nat).push(hex_char(n % 16))
    }
}

fn hex_char_exec(d: u64) -> (r: char)
    requires
        d < 16,
    ensures
        r == hex_char(d as nat),
{
    if d < 10 {
        let b: u8 = (d as u8) + 48;
        b as char
    } else {
        let b: u8 = (d as u8) + 87;
        b as char
    }
}

fn hex_digits_exec(n: u64, k: usize) -> (r: Vec<char>)
    ensures
        r@ == hex_digits(n as nat, k as nat),
    decreases k,
{
    if k == 0 {
        Vec::new()
    } else {
        let mut v = hex_digits_exec(n / 16, k - 1);
        v.push(hex_char_exec(n % 16));
        v
    }
}

/// The FNV-1a hash of the UTF-8 bytes of a text, as sixteen lowercase hexadecimal
/// digits.
pub fn content_hash(value: &str) -> (r: String)
    ensures
        r@ == hex_digits(fnv1a(encode_utf8(value@)) as nat, 16),
{
    let bytes = value.as_bytes();
    let mut hash: u64 = 0xcbf29ce484222325;
    let mut i: usize = 0;
    while i < bytes.len()
        invariant
            i <= bytes@.len(),
            bytes@ == encode_utf8(value@),
            hash == fnv1a(bytes@.take(i as int)),
        decreases bytes@.len() - i,
    {
        assert(bytes@.take(i + 1).drop_last() =~= bytes@.take(i as int));
        hash = (hash ^ (bytes[i] as u64)).wrapping_mul(0x100000001b3);
        i = i + 1;
    }
    assert(bytes@.take(bytes@.len() as int) =~= bytes@);
    let digits = hex_digits_exec(hash, 16);
    string_from_chars(digits.as_slice())
}

} // verus!
