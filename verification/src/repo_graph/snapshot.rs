use vstd::prelude::*;

use super::config::ConfigValue;
use super::types::DetectionCategory;
use crate::text::{
    chars_of, concat2, concat3, ends_with_text, normalize_slashes, slashes, starts_with_text, string_from_chars, strip_dot_slash, strip_dot_slash_start,
    text_eq,
};

verus! {

/// The text of a file, as read.
pub enum FileText {
    NotRead,
    Unreadable(String),
    Text(String),
}

/// A configuration file, as read and parsed: the read error, the parse error, or the
/// document.
pub enum ParsedDocument {
    NotParsed,
    Unreadable(String),
    Malformed(String),
    Parsed(ConfigValue),
}

/// One path of the repository (relative to its root, `/`-separated), with what was
/// read of it.
pub struct SnapshotEntry {
    pub path: String,
    pub is_dir: bool,
    pub text: FileText,
    pub document: ParsedDocument,
}

/// What inspecting a repository reads: its root as displayed, and its paths in
/// walk order (names sorted within each directory, generated and dependency
/// directories not entered).
pub struct RepoSnapshot {
    pub root: String,
    pub entries: Vec<SnapshotEntry>,
}

/// How a configuration file is parsed.
#[derive(Debug, Clone, Copy, PartialEq, Eq, Structural)]
pub enum DocumentFormat {
    Toml,
    Json,
}

/// The file name of a path: what follows its last `/`.
pub open spec fn file_name(p: Seq<char>) -> Seq<char>
    decreases p.len(),
{
    if p.len() == 0 {
        p
    } else if p.last() == '/' {
        seq![]
    } else {
        file_name(p.drop_last()).push(p.last())
    }
}

/// The configuration files that inspection parses: every `Cargo.toml`, and the
/// root `pyproject.toml` and `package.json`.
pub open spec fn document_format_spec(path: Seq<char>) -> Option<DocumentFormat> {
    if path == "Cargo.toml"@ || "/Cargo.toml"@.is_suffix_of(path) || path == "pyproject.toml"@ {
        Some(DocumentFormat::Toml)
    } else if path == "package.json"@ {
        Some(DocumentFormat::Json)
    } else {
        None
    }
}

/// The files whose text inspection reads line by line.
pub open spec fn wants_text_spec(path: Seq<char>) -> bool {
    path == "go.mod"@ || path == "go.work"@ || path == "Makefile"@ || path == "justfile"@ || path
        == "requirements.txt"@ || path == "pnpm-workspace.yaml"@
}

/// Which configuration format a path is parsed with, if any.
pub fn document_format(path: &str) -> (r: Option<DocumentFormat>)
    ensures
        r == document_format_spec(path@),
{
    if text_eq(path, "Cargo.toml") || ends_with_text(path, "/Cargo.toml") || text_eq(path, "pyproject.toml") {
        Some(DocumentFormat::Toml)
    } else if text_eq(path, "package.json") {
        Some(DocumentFormat::Json)
    } else {
        None
    }
}

/// Whether inspection reads the text of a path.
pub fn wants_text(path: &str) -> (r: bool)
    ensures
        r == wants_text_spec(path@),
{
    text_eq(path, "go.mod") || text_eq(path, "go.work") || text_eq(path, "Makefile") || text_eq(path, "justfile")
        || text_eq(path, "requirements.txt") || text_eq(path, "pnpm-workspace.yaml")
}

/// The key a path is looked up by: without leading `./`.
pub open spec fn path_key(p: Seq<char>) -> Seq<char> {
    strip_dot_slash(p)
}

fn path_key_exec(p: &str) -> (r: String)
    ensures
        r@ == path_key(p@),
{
    let v = chars_of(p);
    let start = strip_dot_slash_start(&v);
    assert(v@.skip(start as int) =~= v@.subrange(start as int, v@.len() as int));
    string_from_chars(&v.as_slice()[start..v.len()])
}

/// The index of the first entry with the path's key.
pub open spec fn entry_index(s: Seq<SnapshotEntry>, p: Seq<char>) -> Option<int>
    decreases s.len(),
{
    if s.len() == 0 {
        None
    } else {
        match entry_index(s.drop_last(), p) {
            Some(i) => Some(i),
            None => if s.last().path@ == path_key(p) {
                Some(s.len() - 1)
            } else {
                None
            },
        }
    }
}

proof fn lemma_entry_index_bounds(s: Seq<SnapshotEntry>, p: Seq<char>)
    ensures
        entry_index(s, p) matches Some(i) ==> 0 <= i < s.len() && s[i].path@ == path_key(p),
        entry_index(s, p) is None ==> forall|k: int| 0 <= k < s.len() ==> (#[trigger] s[k]).path@ != path_key(p),
    decreases s.len(),
{
    if s.len() > 0 {
        lemma_entry_index_bounds(s.drop_last(), p);
        if entry_index(s.drop_last(), p) is None {
            assert forall|k: int| 0 <= k < s.len() - 1 implies (#[trigger] s[k]).path@ != path_key(p) by {
                assert(s[k] == s.drop_last()[k]);
            }
        }
    }
}

/// The path exists in the repository.
pub open spec fn exists_spec(s: RepoSnapshot, p: Seq<char>) -> bool {
    entry_index(s.entries@, p) is Some
}

/// The path exists and is a directory.
pub open spec fn is_dir_spec(s: RepoSnapshot, p: Seq<char>) -> bool {
    match entry_index(s.entries@, p) {
        Some(i) => s.entries@[i].is_dir,
        None => false,
    }
}

pub fn find_entry(s: &RepoSnapshot, p: &str) -> (r: Option<usize>)
    ensures
        match r {
            Some(i) => entry_index(s.entries@, p@) == Some(i as int) && i < s.entries@.len(),
            None => entry_index(s.entries@, p@) is None,
        },
{
    let key = path_key_exec(p);
    let mut i: usize = 0;
    proof {
        lemma_entry_index_bounds(s.entries@, p@);
    }
    while i < s.entries.len()
        invariant
            i <= s.entries@.len(),
            key@ == path_key(p@),
            entry_index(s.entries@.take(i as int), p@) is None,
            entry_index(s.entries@, p@) matches Some(k) ==> 0 <= k < s.entries@.len() && s.entries@[k].path@ == path_key(p@),
            entry_index(s.entries@, p@) is None ==> forall|k: int| 0 <= k < s.entries@.len() ==> (#[trigger] s.entries@[k]).path@ != path_key(p@),
        decreases s.entries@.len() - i,
    {
        assert(s.entries@.take(i + 1).drop_last() =~= s.entries@.take(i as int));
        if text_eq(s.entries[i].path.as_str(), key.as_str()) {
            proof {
                lemma_entry_prefix(s.entries@, p@, i as int + 1);
            }
            return Some(i);
        }
        i = i + 1;
    }
    assert(s.entries@.take(s.entries@.len() as int) =~= s.entries@);
    None
}

proof fn lemma_entry_prefix(s: Seq<SnapshotEntry>, p: Seq<char>, n: int)
    requires
        0 < n <= s.len(),
        entry_index(s.take(n), p) is Some,
    ensures
        entry_index(s, p) == entry_index(s.take(n), p),
    decreases s.len() - n,
{
    if n < s.len() {
        assert(s.drop_last().take(n) =~= s.take(n));
        lemma_entry_prefix(s.drop_last(), p, n);
    } else {
        assert(s.take(n) =~= s);
    }
}

pub fn path_exists(s: &RepoSnapshot, p: &str) -> (r: bool)
    ensures
        r == exists_spec(*s, p@),
{
    find_entry(s, p).is_some()
}

pub fn path_is_dir(s: &RepoSnapshot, p: &str) -> (r: bool)
    ensures
        r == is_dir_spec(*s, p@),
{
    match find_entry(s, p) {
        Some(i) => s.entries[i].is_dir,
        None => false,
    }
}

/// The message of a failed read or parse of a configuration file.
pub open spec fn read_failure(path: Seq<char>, error: Seq<char>) -> Seq<char> {
    "Failed to read "@ + path + ": "@ + error
}

pub open spec fn parse_failure(path: Seq<char>, error: Seq<char>) -> Seq<char> {
    "Failed to parse "@ + path + ": "@ + error
}

/// A path of the repository as messages show it: joined to the root, with `/`
/// separators.
pub open spec fn shown_path(root: Seq<char>, p: Seq<char>) -> Seq<char> {
    slashes(
        if root.len() == 0 {
            p
        } else if root.last() == '/' {
            root + p
        } else {
            root + "/"@ + p
        },
    )
}

pub fn shown_path_exec(root: &str, p: &str) -> (r: String)
    ensures
        r@ == shown_path(root@, p@),
{
    let joined = if root.unicode_len() == 0 {
        concat2("", p)
    } else if ends_with_text(root, "/") {
        proof {
            reveal_strlit("/");
            assert(root@.subrange(root@.len() - 1, root@.len() as int) =~= "/"@);
            assert(root@[root@.len() - 1] == "/"@[0]);
        }
        concat2(root, p)
    } else {
        proof {
            reveal_strlit("/");
            if root@.last() == '/' {
                assert(root@.subrange(root@.len() - 1, root@.len() as int) =~= "/"@);
            }
        }
        concat3(root, "/", p)
    };
    proof {
        reveal_strlit("");
        assert(""@ + p@ =~= p@);
    }
    normalize_slashes(joined.as_str())
}

/// A configuration file as the detectors see it: the document, or the message of
/// the read or parse failure.
pub open spec fn document_spec(s: RepoSnapshot, p: Seq<char>) -> Result<ConfigValue, Seq<char>> {
    let shown = shown_path(s.root@, p);
    match entry_index(s.entries@, p) {
        Some(i) => match s.entries@[i].document {
            ParsedDocument::Parsed(v) => Ok(v),
            ParsedDocument::Malformed(e) => Err(parse_failure(shown, e@)),
            ParsedDocument::Unreadable(e) => Err(read_failure(shown, e@)),
            ParsedDocument::NotParsed => Err(read_failure(shown, "not read"@)),
        },
        None => Err(read_failure(shown, "not found"@)),
    }
}

/// Reads a configuration file of the snapshot.
pub fn read_document<'a>(s: &'a RepoSnapshot, p: &str) -> (r: Result<&'a ConfigValue, String>)
    ensures
        match r {
            Ok(v) => document_spec(*s, p@) == Ok::<ConfigValue, Seq<char>>(*v),
            Err(e) => document_spec(*s, p@) == Err::<ConfigValue, Seq<char>>(e@),
        },
{
    let shown = shown_path_exec(s.root.as_str(), p);
    let q = shown.as_str();
    match find_entry(s, p) {
        Some(i) => match &s.entries[i].document {
            ParsedDocument::Parsed(v) => Ok(v),
            ParsedDocument::Malformed(e) => {
                let head = concat3("Failed to parse ", q, ": ");
                Err(concat2(head.as_str(), e.as_str()))
            },
            ParsedDocument::Unreadable(e) => {
                let head = concat3("Failed to read ", q, ": ");
                Err(concat2(head.as_str(), e.as_str()))
            },
            ParsedDocument::NotParsed => {
                let head = concat3("Failed to read ", q, ": ");
                Err(concat2(head.as_str(), "not read"))
            },
        },
        None => {
            let head = concat3("Failed to read ", q, ": ");
            Err(concat2(head.as_str(), "not found"))
        },
    }
}

/// The text of a file of the snapshot, when it was read.
pub open spec fn text_spec(s: RepoSnapshot, p: Seq<char>) -> Option<Seq<char>> {
    match entry_index(s.entries@, p) {
        Some(i) => match s.entries@[i].text {
            FileText::Text(t) => Some(t@),
            _ => None,
        },
        None => None,
    }
}

pub fn read_text<'a>(s: &'a RepoSnapshot, p: &str) -> (r: Option<&'a String>)
    ensures
        match r {
            Some(t) => text_spec(*s, p@) == Some(t@),
            None => text_spec(*s, p@) is None,
        },
{
    match find_entry(s, p) {
        Some(i) => match &s.entries[i].text {
            FileText::Text(t) => Some(t),
            _ => None,
        },
        None => None,
    }
}

/// The category of a manifest that could not be used: unreadable when it could not
/// be read, malformed otherwise.
pub open spec fn manifest_warning_category_spec(message: Seq<char>) -> DetectionCategory {
    if "Failed to read"@.is_prefix_of(message) {
        DetectionCategory::UnreadableManifest
    } else {
        DetectionCategory::MalformedManifest
    }
}

pub fn manifest_warning_category(message: &str) -> (r: DetectionCategory)
    ensures
        r == manifest_warning_category_spec(message@),
{
    if starts_with_text(message, "Failed to read") {
        DetectionCategory::UnreadableManifest
    } else {
        DetectionCategory::MalformedManifest
    }
}

} // verus!
