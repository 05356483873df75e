use vstd::prelude::*;

use super::types::RepoCommandKind;
use crate::text::{
    chars_of, contains_seq, contains_text, is_ws, is_ws_char, lines_spec, lower_seq, lower_text,
    split_lines, string_from_chars, text_eq, trim_start_ws, trim_text, trim_ws, starts_with_text,
};
use crate::textset::{insert_sorted_unique, strictly_sorted, views};

verus! {

// ---------------------------------------------------------------------------
// Pieces of lines
// ---------------------------------------------------------------------------

/// The part of `s` before the first occurrence of `needle` (all of `s` when there is
/// none).
pub open spec fn cut_at(s: Seq<char>, needle: Seq<char>) -> Seq<char>
    decreases s.len(),
{
    if needle.len() > 0 && needle.is_prefix_of(s) {
        seq![]
    } else if s.len() == 0 {
        s
    } else {
        seq![s[0]] + cut_at(s.drop_first(), needle)
    }
}

/// `s` without the characters `c` at its start.
pub open spec fn trim_char_start(s: Seq<char>, c: char) -> Seq<char>
    decreases s.len(),
{
    if s.len() > 0 && s[0] == c {
        trim_char_start(s.drop_first(), c)
    } else {
        s
    }
}

/// `s` without the characters `c` at its end.
pub open spec fn trim_char_end(s: Seq<char>, c: char) -> Seq<char>
    decreases s.len(),
{
    if s.len() > 0 && s.last() == c {
        trim_char_end(s.drop_last(), c)
    } else {
        s
    }
}

/// `str::trim_matches(c)`.
pub open spec fn trim_char(s: Seq<char>, c: char) -> Seq<char> {
    trim_char_end(trim_char_start(s, c), c)
}

fn cut_at_exec(s: &str, needle: &str) -> (r: String)
    requires
        needle@.len() > 0,
    ensures
        r@ == cut_at(s@, needle@),
{
    let v = chars_of(s);
    let n = chars_of(needle);
    let mut i: usize = 0;
    assert(v@.skip(0) =~= v@);
    while i < v.len()
        invariant
            v@ == s@,
            n@ == needle@,
            n@.len() > 0,
            i <= v@.len(),
            cut_at(s@, needle@) == v@.take(i as int) + cut_at(v@.skip(i as int), needle@),
        decreases v@.len() - i,
    {
        let vl = v.len();
        let mut matches = n.len() <= vl - i;
        let mut j: usize = 0;
        while matches && j < n.len()
            invariant
                vl == v@.len(),
                i < v@.len(),
                v@ == s@,
                n@ == needle@,
                j <= n@.len(),
                matches ==> i + n@.len() <= v@.len(),
                matches ==> forall|k: int| 0 <= k < j ==> v@[i + k] == n@[k],
                !matches ==> (i + n@.len() > v@.len() || exists|k: int| 0 <= k < n@.len() && v@[i + k] != n@[k]),
            decreases n@.len() - j,
        {
            assert(i + j < v@.len());
            let idx: usize = i + j;
            if v[idx] != n[j] {
                matches = false;
            }
            j = j + 1;
        }
        let ghost rest = v@.skip(i as int);
        if matches {
            assert(n@ =~= rest.take(n@.len() as int));
            assert(needle@.is_prefix_of(rest));
            assert(v@.take(i as int) + seq![] =~= v@.take(i as int));
            return string_from_chars(&v.as_slice()[0..i]);
        }
        assert(!needle@.is_prefix_of(rest)) by {
            if needle@.is_prefix_of(rest) {
                if i + n@.len() <= v@.len() {
                    let k = choose|k: int| 0 <= k < n@.len() && v@[i + k] != n@[k];
                    assert(rest[k] == v@[i + k]);
                    assert(rest[k] == needle@[k]);
                }
            }
        }
        assert(rest.drop_first() =~= v@.skip(i + 1));
        assert(v@.take(i + 1) =~= v@.take(i as int) + seq![rest[0]]);
        i = i + 1;
    }
    assert(v@.skip(i as int) =~= Seq::<char>::empty());
    assert(v@.take(i as int) =~= v@);
    string_from_chars(v.as_slice())
}

fn trim_char_exec(s: &str, c: char) -> (r: String)
    ensures
        r@ == trim_char(s@, c),
{
    let v = chars_of(s);
    let mut a: usize = 0;
    assert(v@.skip(0) =~= v@);
    while a < v.len() && v[a] == c
        invariant
            v@ == s@,
            a <= v@.len(),
            trim_char_start(s@, c) == trim_char_start(v@.skip(a as int), c),
        decreases v@.len() - a,
    {
        assert(v@.skip(a as int).drop_first() =~= v@.skip(a + 1));
        a = a + 1;
    }
    let ghost t = v@.skip(a as int);
    assert(trim_char_start(s@, c) == t);
    let mut b: usize = v.len();
    assert(t.take(t.len() as int) =~= t);
    while b > a && v[b - 1] == c
        invariant
            v@ == s@,
            a <= b <= v@.len(),
            t == v@.skip(a as int),
            trim_char_end(t, c) == trim_char_end(t.take(b - a), c),
        decreases b,
    {
        assert(t.take(b - a).drop_last() =~= t.take(b - 1 - a));
        b = b - 1;
    }
    assert(t.take(b - a) =~= v@.subrange(a as int, b as int));
    string_from_chars(&v.as_slice()[a..b])
}

// ---------------------------------------------------------------------------
// go.mod and go.work
// ---------------------------------------------------------------------------

/// The module path declared by a `go.mod` line.
pub open spec fn module_decl(line: Seq<char>) -> Option<Seq<char>> {
    let t = trim_ws(line);
    if "module "@.is_prefix_of(t) && trim_ws(t.skip(7)).len() > 0 {
        Some(trim_ws(t.skip(7)))
    } else {
        None
    }
}

/// The first module declaration of a list of lines.
pub open spec fn first_module_decl(lines: Seq<Seq<char>>) -> Option<Seq<char>>
    decreases lines.len(),
{
    if lines.len() == 0 {
        None
    } else {
        match module_decl(lines[0]) {
            Some(n) => Some(n),
            None => first_module_decl(lines.drop_first()),
        }
    }
}

fn module_decl_exec(line: &str) -> (r: Option<String>)
    ensures
        match r {
            Some(n) => module_decl(line@) == Some(n@),
            None => module_decl(line@) is None,
        },
{
    let t = trim_text(line);
    proof {
        reveal_strlit("module ");
    }
    if !starts_with_text(t.as_str(), "module ") {
        return None;
    }
    let v = chars_of(t.as_str());
    let rest = string_from_chars(&v.as_slice()[7..v.len()]);
    assert(v@.subrange(7, v@.len() as int) =~= t@.skip(7));
    let name = trim_text(rest.as_str());
    if name.as_str().unicode_len() > 0 {
        Some(name)
    } else {
        None
    }
}

/// The module path of a `go.mod` text.
pub fn go_module_name(text: &str) -> (r: Option<String>)
    ensures
        match r {
            Some(n) => first_module_decl(lines_spec(text@)) == Some(n@),
            None => first_module_decl(lines_spec(text@)) is None,
        },
{
    let lines = split_lines(text);
    let ghost ls = lines@.map_values(|t: String| t@);
    let mut i: usize = 0;
    assert(ls.skip(0) =~= ls);
    while i < lines.len()
        invariant
            i <= lines@.len(),
            ls == lines@.map_values(|t: String| t@),
            ls == lines_spec(text@),
            first_module_decl(ls) == first_module_decl(ls.skip(i as int)),
        decreases lines@.len() - i,
    {
        assert(ls.skip(i as int)[0] == lines@[i as int]@);
        match module_decl_exec(lines[i].as_str()) {
            Some(n) => {
                return Some(n);
            },
            None => {},
        }
        assert(ls.skip(i as int).drop_first() =~= ls.skip(i + 1));
        i = i + 1;
    }
    None
}

/// A `go.work` member that inspection accepts: a plain relative path.
pub open spec fn simple_go_member(m: Seq<char>) -> bool {
    m.len() > 0 && !m.contains('"') && !m.contains(' ') && (m == "."@ || "./"@.is_prefix_of(m) || "../"@.is_prefix_of(m))
}

/// Reading `go.work` line by line: whether a `use (` block is open, and the members
/// found so far.
pub open spec fn go_work_state(lines: Seq<Seq<char>>) -> (bool, Set<Seq<char>>)
    decreases lines.len(),
{
    if lines.len() == 0 {
        (false, Set::empty())
    } else {
        let (in_block, members) = go_work_state(lines.drop_last());
        let t = trim_ws(cut_at(lines.last(), "//"@));
        if t.len() == 0 {
            (in_block, members)
        } else if t == "use ("@ {
            (true, members)
        } else if in_block && t == ")"@ {
            (false, members)
        } else if in_block {
            (true, if simple_go_member(t) { members.insert(t) } else { members })
        } else if "use "@.is_prefix_of(t) && simple_go_member(trim_ws(t.skip(4))) {
            (false, members.insert(trim_ws(t.skip(4))))
        } else {
            (false, members)
        }
    }
}

fn simple_go_member_exec(m: &str) -> (r: bool)
    ensures
        r == simple_go_member(m@),
{
    let v = chars_of(m);
    let mut i: usize = 0;
    let mut bad = false;
    while i < v.len()
        invariant
            v@ == m@,
            i <= v@.len(),
            bad == exists|k: int| 0 <= k < i && (v@[k] == '"' || v@[k] == ' '),
        decreases v@.len() - i,
    {
        if v[i] == '"' || v[i] == ' ' {
            bad = true;
        }
        i = i + 1;
    }
    proof {
        if !bad {
            assert(!m@.contains('"'));
            assert(!m@.contains(' '));
        } else {
            let k = choose|k: int| 0 <= k < v@.len() && (v@[k] == '"' || v@[k] == ' ');
            assert(m@[k] == '"' || m@[k] == ' ');
        }
    }
    v.len() > 0 && !bad && (text_eq(m, ".") || starts_with_text(m, "./") || starts_with_text(m, "../"))
}

/// The members named by a `go.work` text, without repetition, in order.
pub fn go_work_members(text: &str) -> (r: Vec<String>)
    ensures
        strictly_sorted(views(r@)),
        views(r@).to_set() == go_work_state(lines_spec(text@)).1,
{
    let lines = split_lines(text);
    let ghost ls = lines@.map_values(|t: String| t@);
    let mut members: Vec<String> = Vec::new();
    let mut in_block = false;
    let mut i: usize = 0;
    proof {
        reveal_strlit("use ");
    }
    assert(views(members@).to_set() =~= Set::<Seq<char>>::empty());
    while i < lines.len()
        invariant
            i <= lines@.len(),
            ls == lines@.map_values(|t: String| t@),
            ls == lines_spec(text@),
            strictly_sorted(views(members@)),
            (in_block, views(members@).to_set()) == go_work_state(ls.take(i as int)),
        decreases lines@.len() - i,
    {
        assert(ls.take(i + 1).drop_last() =~= ls.take(i as int));
        assert(ls.take(i + 1).last() == lines@[i as int]@);
        proof {
            reveal_strlit("//");
            reveal_strlit("use ");
        }
        let before = cut_at_exec(lines[i].as_str(), "//");
        let t = trim_text(before.as_str());
        if t.as_str().unicode_len() == 0 {
        } else if text_eq(t.as_str(), "use (") {
            in_block = true;
        } else if in_block && text_eq(t.as_str(), ")") {
            in_block = false;
        } else if in_block {
            if simple_go_member_exec(t.as_str()) {
                insert_sorted_unique(&mut members, t);
            }
        } else if starts_with_text(t.as_str(), "use ") {
            let v = chars_of(t.as_str());
            let rest = string_from_chars(&v.as_slice()[4..v.len()]);
            assert(v@.subrange(4, v@.len() as int) =~= t@.skip(4));
            let m = trim_text(rest.as_str());
            if simple_go_member_exec(m.as_str()) {
                insert_sorted_unique(&mut members, m);
            }
        }
        i = i + 1;
    }
    assert(ls.take(lines@.len() as int) =~= ls);
    members
}

// ---------------------------------------------------------------------------
// Makefile and justfile targets
// ---------------------------------------------------------------------------

/// The command kind of a conventional target name.
pub open spec fn command_kind_for_target(t: Seq<char>) -> Option<RepoCommandKind> {
    if t == "test"@ {
        Some(RepoCommandKind::Test)
    } else if t == "check"@ {
        Some(RepoCommandKind::Check)
    } else if t == "build"@ {
        Some(RepoCommandKind::Build)
    } else if t == "lint"@ {
        Some(RepoCommandKind::Lint)
    } else if t == "fmt"@ || t == "format"@ {
        Some(RepoCommandKind::Format)
    } else {
        None
    }
}

pub fn command_kind_for_target_exec(t: &str) -> (r: Option<RepoCommandKind>)
    ensures
        r == command_kind_for_target(t@),
{
    if text_eq(t, "test") {
        Some(RepoCommandKind::Test)
    } else if text_eq(t, "check") {
        Some(RepoCommandKind::Check)
    } else if text_eq(t, "build") {
        Some(RepoCommandKind::Build)
    } else if text_eq(t, "lint") {
        Some(RepoCommandKind::Lint)
    } else if text_eq(t, "fmt") || text_eq(t, "format") {
        Some(RepoCommandKind::Format)
    } else {
        None
    }
}

/// A target-like name that is not parsed conservatively: with whitespace, `%`, `$`
/// or `/`, and not starting with `.`.
pub open spec fn ambiguous_target(t: Seq<char>) -> bool {
    t.len() > 0 && t[0] != '.' && ((exists|k: int| 0 <= k < t.len() && is_ws(#[trigger] t[k])) || t.contains('%')
        || t.contains('$') || t.contains('/'))
}

/// The target named by a build-file line, if the line looks like a rule.
pub open spec fn rule_target(line: Seq<char>) -> Option<Seq<char>> {
    let t = trim_start_ws(line);
    if (line.len() > 0 && is_ws(line[0])) || t.len() == 0 || "#"@.is_prefix_of(t) || ".PHONY:"@.is_prefix_of(t)
        || contains_seq(t, ":="@) || contains_seq(t, "?="@) || contains_seq(t, "+="@) || !t.contains(':') {
        None
    } else {
        Some(trim_ws(cut_at(t, ":"@)))
    }
}

/// Reading a build file line by line: the conventional targets found and the number
/// of ambiguous target lines.
pub open spec fn targets_state(lines: Seq<Seq<char>>) -> (Set<Seq<char>>, nat)
    decreases lines.len(),
{
    if lines.len() == 0 {
        (Set::empty(), 0)
    } else {
        let (targets, ambiguous) = targets_state(lines.drop_last());
        match rule_target(lines.last()) {
            Some(t) => if command_kind_for_target(t) is Some {
                (targets.insert(t), ambiguous)
            } else if ambiguous_target(t) {
                (targets, ambiguous + 1)
            } else {
                (targets, ambiguous)
            },
            None => (targets, ambiguous),
        }
    }
}

fn ambiguous_target_exec(t: &str) -> (r: bool)
    ensures
        r == ambiguous_target(t@),
{
    let v = chars_of(t);
    if v.len() == 0 || v[0] == '.' {
        return false;
    }
    let mut i: usize = 0;
    let mut found = false;
    while i < v.len()
        invariant
            v@ == t@,
            i <= v@.len(),
            found == exists|k: int| 0 <= k < i && (is_ws(v@[k]) || v@[k] == '%' || v@[k] == '$' || v@[k] == '/'),
        decreases v@.len() - i,
    {
        if is_ws_char(v[i]) || v[i] == '%' || v[i] == '$' || v[i] == '/' {
            found = true;
        }
        i = i + 1;
    }
    proof {
        if found {
            let k = choose|k: int| 0 <= k < v@.len() && (is_ws(v@[k]) || v@[k] == '%' || v@[k] == '$' || v@[k] == '/');
            if v@[k] == '%' {
                assert(t@.contains('%'));
            } else if v@[k] == '$' {
                assert(t@.contains('$'));
            } else if v@[k] == '/' {
                assert(t@.contains('/'));
            }
        } else {
            if t@.contains('%') {
                let k = choose|k: int| 0 <= k < t@.len() && t@[k] == '%';
            }
            if t@.contains('$') {
                let k = choose|k: int| 0 <= k < t@.len() && t@[k] == '$';
            }
            if t@.contains('/') {
                let k = choose|k: int| 0 <= k < t@.len() && t@[k] == '/';
            }
        }
    }
    found
}

fn char_in(t: &str, c: char) -> (r: bool)
    ensures
        r == t@.contains(c),
{
    let v = chars_of(t);
    let mut i: usize = 0;
    while i < v.len()
        invariant
            v@ == t@,
            i <= v@.len(),
            forall|k: int| 0 <= k < i ==> v@[k] != c,
        decreases v@.len() - i,
    {
        if v[i] == c {
            assert(t@[i as int] == c);
            return true;
        }
        i = i + 1;
    }
    false
}

fn rule_target_exec(line: &str) -> (r: Option<String>)
    ensures
        match r {
            Some(t) => rule_target(line@) == Some(t@),
            None => rule_target(line@) is None,
        },
{
    let v = chars_of(line);
    if v.len() > 0 && is_ws_char(v[0]) {
        return None;
    }
    let t = crate::text::trim_start_text(line);
    if t.as_str().unicode_len() == 0 || starts_with_text(t.as_str(), "#") || starts_with_text(t.as_str(), ".PHONY:")
        || contains_text(t.as_str(), ":=") || contains_text(t.as_str(), "?=") || contains_text(t.as_str(), "+=")
        || !char_in(t.as_str(), ':') {
        return None;
    }
    proof {
        reveal_strlit(":");
    }
    let head = cut_at_exec(t.as_str(), ":");
    Some(trim_text(head.as_str()))
}

/// The conventional targets of a Makefile or justfile text, in order, and the number
/// of target-like lines that were left alone.
pub fn command_file_targets(text: &str) -> (r: (Vec<String>, usize))
    ensures
        strictly_sorted(views(r.0@)),
        views(r.0@).to_set() == targets_state(lines_spec(text@)).0,
        r.1 == targets_state(lines_spec(text@)).1,
{
    let lines = split_lines(text);
    let ghost ls = lines@.map_values(|t: String| t@);
    let mut targets: Vec<String> = Vec::new();
    let mut ambiguous: usize = 0;
    let mut i: usize = 0;
    assert(views(targets@).to_set() =~= Set::<Seq<char>>::empty());
    while i < lines.len()
        invariant
            i <= lines@.len(),
            ls == lines@.map_values(|t: String| t@),
            ls == lines_spec(text@),
            ambiguous <= i,
            strictly_sorted(views(targets@)),
            (views(targets@).to_set(), ambiguous as nat) == targets_state(ls.take(i as int)),
        decreases lines@.len() - i,
    {
        assert(ls.take(i + 1).drop_last() =~= ls.take(i as int));
        assert(ls.take(i + 1).last() == lines@[i as int]@);
        match rule_target_exec(lines[i].as_str()) {
            Some(t) => {
                if command_kind_for_target_exec(t.as_str()).is_some() {
                    insert_sorted_unique(&mut targets, t);
                } else if ambiguous_target_exec(t.as_str()) {
                    ambiguous = ambiguous + 1;
                }
            },
            None => {},
        }
        i = i + 1;
    }
    assert(ls.take(lines@.len() as int) =~= ls);
    (targets, ambiguous)
}

// ---------------------------------------------------------------------------
// pnpm-workspace.yaml
// ---------------------------------------------------------------------------

/// The member named by a `- item` line of a packages list.
pub open spec fn yaml_item(t: Seq<char>) -> Seq<char> {
    trim_char(trim_char(trim_ws(trim_char_start(t, '-')), '"'), '\'')
}

/// Reading `pnpm-workspace.yaml` line by line: whether the packages list is open,
/// whether it has ended, and the members found so far.
pub open spec fn yaml_state(lines: Seq<Seq<char>>) -> (bool, bool, Seq<Seq<char>>)
    decreases lines.len(),
{
    if lines.len() == 0 {
        (false, false, seq![])
    } else {
        let (in_packages, ended, members) = yaml_state(lines.drop_last());
        let line = lines.last();
        let t = trim_ws(line);
        if ended {
            (in_packages, ended, members)
        } else if t == "packages:"@ {
            (true, false, members)
        } else if in_packages && "-"@.is_prefix_of(t) {
            (true, false, if yaml_item(t).len() > 0 { members.push(yaml_item(t)) } else { members })
        } else if in_packages && t.len() > 0 && !" "@.is_prefix_of(line) {
            (true, true, members)
        } else {
            (in_packages, false, members)
        }
    }
}

/// The members listed under `packages:` in a `pnpm-workspace.yaml` text.
pub fn yaml_packages(text: &str) -> (r: Vec<String>)
    ensures
        views(r@) == yaml_state(lines_spec(text@)).2,
{
    let lines = split_lines(text);
    let ghost ls = lines@.map_values(|t: String| t@);
    let mut members: Vec<String> = Vec::new();
    let mut in_packages = false;
    let mut ended = false;
    let mut i: usize = 0;
    assert(views(members@) =~= seq![]);
    while i < lines.len()
        invariant
            i <= lines@.len(),
            ls == lines@.map_values(|t: String| t@),
            ls == lines_spec(text@),
            (in_packages, ended, views(members@)) == yaml_state(ls.take(i as int)),
        decreases lines@.len() - i,
    {
        assert(ls.take(i + 1).drop_last() =~= ls.take(i as int));
        assert(ls.take(i + 1).last() == lines@[i as int]@);
        if !ended {
            let line = lines[i].as_str();
            let t = trim_text(line);
            if text_eq(t.as_str(), "packages:") {
                in_packages = true;
            } else if in_packages && starts_with_text(t.as_str(), "-") {
                let a = trim_char_start_exec(t.as_str(), '-');
                let b = trim_text(a.as_str());
                let c = trim_char_exec(b.as_str(), '"');
                let d = trim_char_exec(c.as_str(), '\'');
                if d.as_str().unicode_len() > 0 {
                    let ghost before = views(members@);
                    members.push(d);
                    assert(views(members@) =~= before.push(d@));
                }
            } else if in_packages && t.as_str().unicode_len() > 0 && !starts_with_text(line, " ") {
                ended = true;
            }
        }
        i = i + 1;
    }
    assert(ls.take(lines@.len() as int) =~= ls);
    members
}

fn trim_char_start_exec(s: &str, c: char) -> (r: String)
    ensures
        r@ == trim_char_start(s@, c),
{
    let v = chars_of(s);
    let mut a: usize = 0;
    assert(v@.skip(0) =~= v@);
    while a < v.len() && v[a] == c
        invariant
            v@ == s@,
            a <= v@.len(),
            trim_char_start(s@, c) == trim_char_start(v@.skip(a as int), c),
        decreases v@.len() - a,
    {
        assert(v@.skip(a as int).drop_first() =~= v@.skip(a + 1));
        a = a + 1;
    }
    assert(v@.skip(a as int) =~= v@.subrange(a as int, v@.len() as int));
    string_from_chars(&v.as_slice()[a..v.len()])
}

// ---------------------------------------------------------------------------
// Python requirements
// ---------------------------------------------------------------------------

/// A dependency specification names the package: exactly, or followed by a version
/// or extras marker (ASCII case ignored).
pub open spec fn dependency_name_matches(dep: Seq<char>, pkg: Seq<char>) -> bool {
    let d = lower_seq(trim_ws(dep));
    d == pkg || (pkg.is_prefix_of(d) && d.len() > pkg.len() && {
        let c = d[pkg.len() as int];
        c == '=' || c == '<' || c == '>' || c == '~' || c == '[' || c == '!' || c == ' '
    })
}

pub fn dependency_name_matches_exec(dep: &str, pkg: &str) -> (r: bool)
    ensures
        r == dependency_name_matches(dep@, pkg@),
{
    let t = trim_text(dep);
    let d = lower_text(t.as_str());
    if text_eq(d.as_str(), pkg) {
        return true;
    }
    if !starts_with_text(d.as_str(), pkg) {
        return false;
    }
    let v = chars_of(d.as_str());
    let n = chars_of(pkg).len();
    if v.len() <= n {
        return false;
    }
    let c = v[n];
    c == '=' || c == '<' || c == '>' || c == '~' || c == '[' || c == '!' || c == ' '
}

/// Some line of a requirements text (before any `#` comment) names `pytest`.
pub open spec fn requirements_mention_pytest(text: Seq<char>) -> bool {
    exists|i: int| 0 <= i < lines_spec(text).len() && dependency_name_matches(cut_at(#[trigger] lines_spec(text)[i], "#"@), "pytest"@)
}

pub fn requirements_mention_pytest_exec(text: &str) -> (r: bool)
    ensures
        r == requirements_mention_pytest(text@),
{
    let lines = split_lines(text);
    let ghost ls = lines@.map_values(|t: String| t@);
    let mut i: usize = 0;
    while i < lines.len()
        invariant
            i <= lines@.len(),
            ls == lines@.map_values(|t: String| t@),
            ls == lines_spec(text@),
            forall|k: int| 0 <= k < i ==> !dependency_name_matches(cut_at(#[trigger] ls[k], "#"@), "pytest"@),
        decreases lines@.len() - i,
    {
        proof {
            reveal_strlit("#");
        }
        let part = cut_at_exec(lines[i].as_str(), "#");
        if dependency_name_matches_exec(part.as_str(), "pytest") {
            assert(ls[i as int] == lines@[i as int]@);
            return true;
        }
        assert(ls[i as int] == lines@[i as int]@);
        i = i + 1;
    }
    false
}

} // verus!
