use vstd::prelude::*;

use crate::text::{
    chars_of, contains_seq, contains_text, ends_with_text, normalize_slashes, slashes,
    starts_with_text, string_from_chars, strip_dot_slash, strip_dot_slash_start, text_eq,
    trim_bounds, trim_ws,
};

verus! {

/// How a changed file path is normalized: trimmed, leading `./` removed, backslashes
/// turned into slashes.
pub open spec fn normalize_changed_spec(s: Seq<char>) -> Seq<char> {
    slashes(strip_dot_slash(trim_ws(s)))
}

pub fn normalize_changed_file(path: &str) -> (r: String)
    ensures
        r@ == normalize_changed_spec(path@),
{
    let v = chars_of(path);
    let (a, b) = trim_bounds(&v);
    let mut t: Vec<char> = Vec::new();
    let mut i = a;
    while i < b
        invariant
            a <= i <= b <= v@.len(),
            t@ == v@.subrange(a as int, i as int),
        decreases b - i,
    {
        t.push(v[i]);
        assert(v@.subrange(a as int, i + 1) =~= v@.subrange(a as int, i as int).push(v@[i as int]));
        i = i + 1;
    }
    let start = strip_dot_slash_start(&t);
    let stripped = string_from_chars(&t.as_slice()[start..t.len()]);
    assert(t@.skip(start as int) =~= t@.subrange(start as int, t@.len() as int));
    normalize_slashes(stripped.as_str())
}

/// A path that looks like a test path.
pub open spec fn is_test_path_spec(p: Seq<char>) -> bool {
    "tests/"@.is_prefix_of(p) || "test/"@.is_prefix_of(p) || "_test.go"@.is_suffix_of(p)
        || contains_seq(p, ".test."@) || contains_seq(p, ".spec."@)
}

pub fn is_test_path(path: &str) -> (r: bool)
    ensures
        r == is_test_path_spec(path@),
{
    starts_with_text(path, "tests/") || starts_with_text(path, "test/") || ends_with_text(
        path,
        "_test.go",
    ) || contains_text(path, ".test.") || contains_text(path, ".spec.")
}

/// A changed path matches a component file pattern: equal, under `dir/**`, or with the
/// extension named by `*.ext` or `**/*.ext`.
pub open spec fn pattern_matches_spec(path: Seq<char>, pattern: Seq<char>) -> bool {
    if pattern == path {
        true
    } else if "/**"@.is_suffix_of(pattern) {
        let prefix = pattern.take(pattern.len() - 3);
        path == prefix || (prefix + seq!['/']).is_prefix_of(path)
    } else if "*."@.is_prefix_of(pattern) {
        (seq!['.'] + pattern.skip(2)).is_suffix_of(path)
    } else if "**/*."@.is_prefix_of(pattern) {
        (seq!['.'] + pattern.skip(5)).is_suffix_of(path)
    } else {
        false
    }
}

pub fn path_matches_pattern(path: &str, pattern: &str) -> (r: bool)
    ensures
        r == pattern_matches_spec(path@, pattern@),
{
    proof {
        reveal_strlit("/**");
        reveal_strlit("*.");
        reveal_strlit("**/*.");
    }
    if text_eq(pattern, path) {
        return true;
    }
    let pv = chars_of(pattern);
    if ends_with_text(pattern, "/**") {
        let cut = pv.len() - 3;
        let mut prefix: Vec<char> = Vec::new();
        let mut i: usize = 0;
        while i < cut
            invariant
                cut <= pv@.len(),
                i <= cut,
                prefix@ == pv@.take(i as int),
            decreases cut - i,
        {
            prefix.push(pv[i]);
            assert(pv@.take(i + 1) =~= pv@.take(i as int).push(pv@[i as int]));
            i = i + 1;
        }
        let prefix_text = string_from_chars(prefix.as_slice());
        if text_eq(path, prefix_text.as_str()) {
            return true;
        }
        prefix.push('/');
        let with_slash = string_from_chars(prefix.as_slice());
        return starts_with_text(path, with_slash.as_str());
    }
    if starts_with_text(pattern, "*.") {
        let mut suffix: Vec<char> = Vec::new();
        suffix.push('.');
        let mut i: usize = 2;
        while i < pv.len()
            invariant
                2 <= i <= pv@.len(),
                suffix@ == seq!['.'] + pv@.subrange(2, i as int),
            decreases pv@.len() - i,
        {
            suffix.push(pv[i]);
            assert(seq!['.'] + pv@.subrange(2, i + 1) =~= (seq!['.'] + pv@.subrange(
                2,
                i as int,
            )).push(pv@[i as int]));
            i = i + 1;
        }
        assert(pv@.subrange(2, pv@.len() as int) =~= pv@.skip(2));
        let suffix_text = string_from_chars(suffix.as_slice());
        return ends_with_text(path, suffix_text.as_str());
    }
    if starts_with_text(pattern, "**/*.") {
        let mut suffix: Vec<char> = Vec::new();
        suffix.push('.');
        let mut i: usize = 5;
        while i < pv.len()
            invariant
                5 <= i <= pv@.len(),
                suffix@ == seq!['.'] + pv@.subrange(5, i as int),
            decreases pv@.len() - i,
        {
            suffix.push(pv[i]);
            assert(seq!['.'] + pv@.subrange(5, i + 1) =~= (seq!['.'] + pv@.subrange(
                5,
                i as int,
            )).push(pv@[i as int]));
            i = i + 1;
        }
        assert(pv@.subrange(5, pv@.len() as int) =~= pv@.skip(5));
        let suffix_text = string_from_chars(suffix.as_slice());
        return ends_with_text(path, suffix_text.as_str());
    }
    false
}

} // verus!
