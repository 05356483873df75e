pub mod builder;
pub mod syntax;

use vstd::prelude::*;

use crate::order::Ordered;
use crate::repo_graph::types::{
    evidence_id_set, ids_backed, ids_backed_exec, opt_backed, opt_backed_exec, DetectionSeverity,
    Evidence, RepoInfo,
};
use crate::text::{lemma_seq_lt_total, lemma_seq_lt_transitive, seq_le, seq_lt, text_eq, text_less};

verus! {

pub const SYMBOLS_CONTRACT_VERSION: &'static str = "0.1";

/// The top-level Rust declarations of a repository, each backed by evidence.
#[derive(Debug, Clone, PartialEq, Eq)]
pub struct SymbolGraph {
    pub contract_version: String,
    pub repo: RepoInfo,
    pub source_files: Vec<SourceFile>,
    pub symbols: Vec<SourceSymbol>,
    pub evidence: Vec<Evidence>,
    pub warnings: Vec<SymbolWarning>,
    pub limitations: Vec<String>,
}

#[derive(Debug, Clone, PartialEq, Eq)]
pub struct SourceFile {
    pub id: String,
    pub path: String,
    pub language: SourceLanguage,
    pub parse_status: ParseStatus,
    pub evidence_ids: Vec<String>,
}

#[derive(Debug, Clone, Copy, PartialEq, Eq, Structural)]
pub enum SourceLanguage {
    Rust,
}

/// How a source file fared: parsed without syntax errors, parsed with errors or not
/// parsed at all, or not readable.
#[derive(Debug, Clone, Copy, PartialEq, Eq, Structural)]
pub enum ParseStatus {
    Parsed,
    Error,
    Unreadable,
}

#[derive(Debug, Clone, PartialEq, Eq)]
pub struct SourceSymbol {
    pub id: String,
    pub kind: SymbolKind,
    pub name: String,
    pub path: String,
    pub range: SourceRange,
    pub evidence_ids: Vec<String>,
}

#[derive(Debug, Clone, Copy, PartialEq, Eq, Structural, PartialOrd, Ord)]
pub enum SymbolKind {
    Function,
    Struct,
    Enum,
    Trait,
    TypeAlias,
    Const,
    Static,
    Module,
    ImplBlock,
}

/// Byte offsets, and one-based lines with zero-based columns.
#[derive(Debug, Clone, Copy, PartialEq, Eq, Structural)]
pub struct SourceRange {
    pub start_byte: usize,
    pub end_byte: usize,
    pub start_line: usize,
    pub start_column: usize,
    pub end_line: usize,
    pub end_column: usize,
}

#[derive(Debug, Clone, PartialEq, Eq)]
pub struct SymbolWarning {
    pub id: String,
    pub severity: DetectionSeverity,
    pub category: SymbolWarningCategory,
    pub message: String,
    pub path: Option<String>,
    pub evidence_id: Option<String>,
}

#[derive(Debug, Clone, Copy, PartialEq, Eq, Structural)]
pub enum SymbolWarningCategory {
    IgnoredPath,
    ParseError,
    SymlinkIgnored,
    UnreadableSource,
}

pub open spec fn symbol_kind_name(k: SymbolKind) -> Seq<char> {
    match k {
        SymbolKind::Function => "function"@,
        SymbolKind::Struct => "struct"@,
        SymbolKind::Enum => "enum"@,
        SymbolKind::Trait => "trait"@,
        SymbolKind::TypeAlias => "type_alias"@,
        SymbolKind::Const => "const"@,
        SymbolKind::Static => "static"@,
        SymbolKind::Module => "module"@,
        SymbolKind::ImplBlock => "impl_block"@,
    }
}

impl SymbolKind {
    /// The snake-case name of the kind.
    pub fn as_str(&self) -> (r: &'static str)
        ensures
            r@ == symbol_kind_name(*self),
    {
        match self {
            SymbolKind::Function => "function",
            SymbolKind::Struct => "struct",
            SymbolKind::Enum => "enum",
            SymbolKind::Trait => "trait",
            SymbolKind::TypeAlias => "type_alias",
            SymbolKind::Const => "const",
            SymbolKind::Static => "static",
            SymbolKind::Module => "module",
            SymbolKind::ImplBlock => "impl_block",
        }
    }
}

/// The name of a warning category as the identifiers spell it.
pub open spec fn symbol_warning_category_name(c: SymbolWarningCategory) -> Seq<char> {
    match c {
        SymbolWarningCategory::IgnoredPath => "IgnoredPath"@,
        SymbolWarningCategory::ParseError => "ParseError"@,
        SymbolWarningCategory::SymlinkIgnored => "SymlinkIgnored"@,
        SymbolWarningCategory::UnreadableSource => "UnreadableSource"@,
    }
}

pub fn symbol_warning_category_label(c: SymbolWarningCategory) -> (r: &'static str)
    ensures
        r@ == symbol_warning_category_name(c),
{
    match c {
        SymbolWarningCategory::IgnoredPath => "IgnoredPath",
        SymbolWarningCategory::ParseError => "ParseError",
        SymbolWarningCategory::SymlinkIgnored => "SymlinkIgnored",
        SymbolWarningCategory::UnreadableSource => "UnreadableSource",
    }
}

/// The generated, dependency and cache directories that symbol discovery never
/// enters.
pub open spec fn ignored_dir_names() -> Seq<Seq<char>> {
    seq![".git"@, "target"@, "node_modules"@, "dist"@, "build"@, ".cache"@, ".venv"@, "__pycache__"@, "coverage"@]
}

/// The ignored directories that are reported when present: all but `.git`.
pub open spec fn reported_dir_names() -> Seq<Seq<char>> {
    ignored_dir_names().drop_first()
}

/// The directories that symbol discovery never enters, in order.
pub fn ignored_paths() -> (r: Vec<&'static str>)
    ensures
        r@.len() == ignored_dir_names().len(),
        forall|i: int| 0 <= i < r@.len() ==> #[trigger] r@[i]@ == ignored_dir_names()[i],
{
    proof {
        reveal_strlit(".git");
        reveal_strlit("target");
        reveal_strlit("node_modules");
        reveal_strlit("dist");
        reveal_strlit("build");
        reveal_strlit(".cache");
        reveal_strlit(".venv");
        reveal_strlit("__pycache__");
        reveal_strlit("coverage");
    }
    let r: Vec<&'static str> = vec![".git", "target", "node_modules", "dist", "build", ".cache", ".venv", "__pycache__", "coverage"];
    r
}

/// The ignored directories that are reported when present, in order.
pub fn reported_ignored_dirs() -> (r: Vec<&'static str>)
    ensures
        r@.len() == reported_dir_names().len(),
        forall|i: int| 0 <= i < r@.len() ==> #[trigger] r@[i]@ == reported_dir_names()[i],
{
    let mut all = ignored_paths();
    all.remove(0);
    all
}

/// Whether symbol discovery passes over a directory of this name.
pub fn is_ignored_dir_name(name: &str) -> (r: bool)
    ensures
        r == ignored_dir_names().contains(name@),
{
    let names = ignored_paths();
    let mut i: usize = 0;
    while i < names.len()
        invariant
            i <= names@.len(),
            names@.len() == ignored_dir_names().len(),
            forall|k: int| 0 <= k < names@.len() ==> #[trigger] names@[k]@ == ignored_dir_names()[k],
            forall|k: int| 0 <= k < i ==> ignored_dir_names()[k] != name@,
        decreases names@.len() - i,
    {
        if text_eq(names[i], name) {
            assert(names@[i as int]@ == ignored_dir_names()[i as int]);
            return true;
        }
        i = i + 1;
    }
    false
}

impl Ordered for SourceFile {
    open spec fn le(self, other: Self) -> bool {
        seq_le(self.id@, other.id@)
    }

    proof fn lemma_le_transitive(a: Self, b: Self, c: Self) {
        if seq_lt(a.id@, b.id@) && seq_lt(b.id@, c.id@) {
            lemma_seq_lt_transitive(a.id@, b.id@, c.id@);
        }
    }

    proof fn lemma_le_total(a: Self, b: Self) {
        lemma_seq_lt_total(a.id@, b.id@);
    }

    fn le_exec(&self, other: &Self) -> (r: bool) {
        text_less(self.id.as_str(), other.id.as_str()) || text_eq(self.id.as_str(), other.id.as_str())
    }
}

impl Ordered for SourceSymbol {
    open spec fn le(self, other: Self) -> bool {
        seq_le(self.id@, other.id@)
    }

    proof fn lemma_le_transitive(a: Self, b: Self, c: Self) {
        if seq_lt(a.id@, b.id@) && seq_lt(b.id@, c.id@) {
            lemma_seq_lt_transitive(a.id@, b.id@, c.id@);
        }
    }

    proof fn lemma_le_total(a: Self, b: Self) {
        lemma_seq_lt_total(a.id@, b.id@);
    }

    fn le_exec(&self, other: &Self) -> (r: bool) {
        text_less(self.id.as_str(), other.id.as_str()) || text_eq(self.id.as_str(), other.id.as_str())
    }
}

impl Ordered for SymbolWarning {
    open spec fn le(self, other: Self) -> bool {
        seq_le(self.id@, other.id@)
    }

    proof fn lemma_le_transitive(a: Self, b: Self, c: Self) {
        if seq_lt(a.id@, b.id@) && seq_lt(b.id@, c.id@) {
            lemma_seq_lt_transitive(a.id@, b.id@, c.id@);
        }
    }

    proof fn lemma_le_total(a: Self, b: Self) {
        lemma_seq_lt_total(a.id@, b.id@);
    }

    fn le_exec(&self, other: &Self) -> (r: bool) {
        text_less(self.id.as_str(), other.id.as_str()) || text_eq(self.id.as_str(), other.id.as_str())
    }
}

// ---------------------------------------------------------------------------
// Evidence validity
// ---------------------------------------------------------------------------

/// Every source file and symbol names at least one evidence item and only known
/// ones; every warning that names evidence names a known item.
pub open spec fn symbol_graph_valid(g: SymbolGraph) -> bool {
    let known = evidence_id_set(g.evidence@);
    &&& forall|i: int| 0 <= i < g.source_files@.len() ==> ids_backed((#[trigger] g.source_files@[i]).evidence_ids@, known)
    &&& forall|i: int| 0 <= i < g.symbols@.len() ==> ids_backed((#[trigger] g.symbols@[i]).evidence_ids@, known)
    &&& forall|i: int| 0 <= i < g.warnings@.len() ==> opt_backed((#[trigger] g.warnings@[i]).evidence_id, known)
}

/// Checks that every fact of the graph rests on evidence that the graph holds.
pub fn symbol_graph_evidence_valid(graph: &SymbolGraph) -> (r: bool)
    ensures
        r == symbol_graph_valid(*graph),
{
    let ghost known = evidence_id_set(graph.evidence@);
    let mut i: usize = 0;
    while i < graph.source_files.len()
        invariant
            i <= graph.source_files@.len(),
            known == evidence_id_set(graph.evidence@),
            forall|k: int| 0 <= k < i ==> ids_backed((#[trigger] graph.source_files@[k]).evidence_ids@, known),
        decreases graph.source_files@.len() - i,
    {
        if !ids_backed_exec(&graph.source_files[i].evidence_ids, &graph.evidence) {
            return false;
        }
        i = i + 1;
    }
    let mut i: usize = 0;
    while i < graph.symbols.len()
        invariant
            i <= graph.symbols@.len(),
            known == evidence_id_set(graph.evidence@),
            forall|k: int| 0 <= k < i ==> ids_backed((#[trigger] graph.symbols@[k]).evidence_ids@, known),
        decreases graph.symbols@.len() - i,
    {
        if !ids_backed_exec(&graph.symbols[i].evidence_ids, &graph.evidence) {
            return false;
        }
        i = i + 1;
    }
    let mut i: usize = 0;
    while i < graph.warnings.len()
        invariant
            i <= graph.warnings@.len(),
            known == evidence_id_set(graph.evidence@),
            forall|k: int| 0 <= k < i ==> opt_backed((#[trigger] graph.warnings@[k]).evidence_id, known),
        decreases graph.warnings@.len() - i,
    {
        if !opt_backed_exec(&graph.warnings[i].evidence_id, &graph.evidence) {
            return false;
        }
        i = i + 1;
    }
    true
}

} // verus!
