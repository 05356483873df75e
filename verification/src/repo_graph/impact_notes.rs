use vstd::prelude::*;

use super::impact_deps::depends_on;
use super::impact_roots::{component_matches_changed_file, component_matches_spec, is_broad_file};
use super::types::{
    DetectionCategory, DetectionIssue, DetectionSeverity, RelationshipKind, RepoInspection, opt_text,
};
use crate::order::Ordered;
use crate::text::{concat2, lemma_seq_lt_total, lemma_seq_lt_transitive, owned, seq_le, seq_lt, slug, slug_text, text_eq, text_less};

verus! {

/// What a detection issue says, as plain values.
pub open spec fn issue_view(w: DetectionIssue) -> (Seq<char>, DetectionSeverity, DetectionCategory, Seq<char>, Option<Seq<char>>, Option<Seq<char>>) {
    (w.id@, w.severity, w.category, w.message@, opt_text(w.path), opt_text(w.evidence_id))
}

pub open spec fn issue_views(s: Seq<DetectionIssue>) -> Seq<(Seq<char>, DetectionSeverity, DetectionCategory, Seq<char>, Option<Seq<char>>, Option<Seq<char>>)> {
    s.map_values(|w: DetectionIssue| issue_view(w))
}

/// Some issue of `ws` has identifier `id`.
pub open spec fn has_issue_id(ws: Seq<(Seq<char>, DetectionSeverity, DetectionCategory, Seq<char>, Option<Seq<char>>, Option<Seq<char>>)>, id: Seq<char>) -> bool {
    exists|i: int| 0 <= i < ws.len() && (#[trigger] ws[i]).0 == id
}

/// `w` appended, unless an issue with its identifier is already there.
pub open spec fn push_unique(
    ws: Seq<(Seq<char>, DetectionSeverity, DetectionCategory, Seq<char>, Option<Seq<char>>, Option<Seq<char>>)>,
    w: (Seq<char>, DetectionSeverity, DetectionCategory, Seq<char>, Option<Seq<char>>, Option<Seq<char>>),
) -> Seq<(Seq<char>, DetectionSeverity, DetectionCategory, Seq<char>, Option<Seq<char>>, Option<Seq<char>>)> {
    if has_issue_id(ws, w.0) {
        ws
    } else {
        ws.push(w)
    }
}

impl Ordered for DetectionIssue {
    open spec fn le(self, other: Self) -> bool {
        seq_le(self.id@, other.id@)
    }

    proof fn lemma_le_transitive(a: Self, b: Self, c: Self) {
        if seq_lt(a.id@, b.id@) && seq_lt(b.id@, c.id@) {
            lemma_seq_lt_transitive(a.id@, b.id@, c.id@);
        }
    }

    proof fn lemma_le_total(a: Self, b: Self) {
        lemma_seq_lt_total(a.id@, b.id@);
    }

    fn le_exec(&self, other: &Self) -> (r: bool) {
        text_less(self.id.as_str(), other.id.as_str()) || text_eq(self.id.as_str(), other.id.as_str())
    }
}

/// Adds a warning unless one with the same identifier is already there.
pub fn push_impact_warning(ws: &mut Vec<DetectionIssue>, w: DetectionIssue)
    ensures
        issue_views(final(ws)@) == push_unique(issue_views(old(ws)@), issue_view(w)),
{
    let ghost before = issue_views(ws@);
    let mut i: usize = 0;
    while i < ws.len()
        invariant
            i <= ws@.len(),
            before == issue_views(ws@),
            forall|j: int| 0 <= j < i ==> (#[trigger] ws@[j]).id@ != w.id@,
        decreases ws@.len() - i,
    {
        if text_eq(ws[i].id.as_str(), w.id.as_str()) {
            assert(before[i as int].0 == w.id@);
            return;
        }
        i = i + 1;
    }
    assert(!has_issue_id(before, w.id@)) by {
        if has_issue_id(before, w.id@) {
            let j = choose|j: int| 0 <= j < before.len() && (#[trigger] before[j]).0 == w.id@;
            assert(ws@[j].id@ == w.id@);
        }
    }
    ws.push(w);
    assert(issue_views(ws@) =~= before.push(issue_view(w)));
}

// ---------------------------------------------------------------------------
// The warnings of an impact analysis
// ---------------------------------------------------------------------------

pub open spec fn repo_graph_only_view() -> (Seq<char>, DetectionSeverity, DetectionCategory, Seq<char>, Option<Seq<char>>, Option<Seq<char>>) {
    (
        "impact-warning-repo-graph-only"@,
        DetectionSeverity::Info,
        DetectionCategory::RepoGraphOnly,
        "Symbol-level impact is not implemented; impact is based on repository structure and paths only."@,
        None,
        None,
    )
}

pub open spec fn unmapped_view(f: Seq<char>) -> (Seq<char>, DetectionSeverity, DetectionCategory, Seq<char>, Option<Seq<char>>, Option<Seq<char>>) {
    (
        "impact-warning-unmapped-"@ + slug(f),
        DetectionSeverity::Warning,
        DetectionCategory::UnmappedChange,
        "Changed file could not be mapped to a RepoGraph component."@,
        Some(f),
        None,
    )
}

pub open spec fn no_dependency_view() -> (Seq<char>, DetectionSeverity, DetectionCategory, Seq<char>, Option<Seq<char>>, Option<Seq<char>>) {
    (
        "impact-warning-no-dependency-edges"@,
        DetectionSeverity::Info,
        DetectionCategory::PartialSupport,
        "No depends_on relationships were available; transitive dependency impact was not computed."@,
        None,
        None,
    )
}

pub open spec fn no_test_view() -> (Seq<char>, DetectionSeverity, DetectionCategory, Seq<char>, Option<Seq<char>>, Option<Seq<char>>) {
    (
        "impact-warning-no-test-command"@,
        DetectionSeverity::Warning,
        DetectionCategory::MissingCommand,
        "Impacted components were found, but no test target was available."@,
        None,
        None,
    )
}

/// Some component of `g` is matched by the changed file `f`.
pub open spec fn matches_some_component(g: RepoInspection, f: Seq<char>) -> bool {
    exists|j: int| 0 <= j < g.components@.len() && component_matches_spec(#[trigger] g.components@[j], f)
}

/// A changed file that is neither repository-wide nor matched by any component.
pub open spec fn file_unmapped(g: RepoInspection, f: Seq<char>) -> bool {
    !is_broad_file(g, f) && !matches_some_component(g, f)
}

/// `ws` with a warning for each unmapped changed file, in the order of the files.
pub open spec fn unmapped_fold(
    g: RepoInspection,
    files: Seq<Seq<char>>,
    ws: Seq<(Seq<char>, DetectionSeverity, DetectionCategory, Seq<char>, Option<Seq<char>>, Option<Seq<char>>)>,
) -> Seq<(Seq<char>, DetectionSeverity, DetectionCategory, Seq<char>, Option<Seq<char>>, Option<Seq<char>>)>
    decreases files.len(),
{
    if files.len() == 0 {
        ws
    } else {
        let prev = unmapped_fold(g, files.drop_last(), ws);
        if file_unmapped(g, files.last()) {
            push_unique(prev, unmapped_view(files.last()))
        } else {
            prev
        }
    }
}

/// The repository graph has a `depends_on` relationship.
pub open spec fn has_dependency_edges(g: RepoInspection) -> bool {
    exists|r: int| #[trigger] depends_on(g, r)
}

/// The warnings of an impact report, before they are ordered by identifier.
pub open spec fn expected_warnings(g: RepoInspection, files: Seq<Seq<char>>, components_found: bool, tests_found: bool) -> Seq<(Seq<char>, DetectionSeverity, DetectionCategory, Seq<char>, Option<Seq<char>>, Option<Seq<char>>)> {
    let w1 = push_unique(issue_views(g.warnings@), repo_graph_only_view());
    let w2 = unmapped_fold(g, files, w1);
    let w3 = if has_dependency_edges(g) {
        w2
    } else {
        push_unique(w2, no_dependency_view())
    };
    if components_found && !tests_found {
        push_unique(w3, no_test_view())
    } else {
        w3
    }
}

pub fn repo_graph_only_warning() -> (w: DetectionIssue)
    ensures
        issue_view(w) == repo_graph_only_view(),
{
    DetectionIssue {
        id: owned("impact-warning-repo-graph-only"),
        severity: DetectionSeverity::Info,
        category: DetectionCategory::RepoGraphOnly,
        message: owned("Symbol-level impact is not implemented; impact is based on repository structure and paths only."),
        path: None,
        evidence_id: None,
    }
}

pub fn unmapped_warning(f: &String) -> (w: DetectionIssue)
    ensures
        issue_view(w) == unmapped_view(f@),
{
    let s = slug_text(f.as_str());
    DetectionIssue {
        id: concat2("impact-warning-unmapped-", s.as_str()),
        severity: DetectionSeverity::Warning,
        category: DetectionCategory::UnmappedChange,
        message: owned("Changed file could not be mapped to a RepoGraph component."),
        path: Some(f.clone()),
        evidence_id: None,
    }
}

pub fn no_dependency_warning() -> (w: DetectionIssue)
    ensures
        issue_view(w) == no_dependency_view(),
{
    DetectionIssue {
        id: owned("impact-warning-no-dependency-edges"),
        severity: DetectionSeverity::Info,
        category: DetectionCategory::PartialSupport,
        message: owned("No depends_on relationships were available; transitive dependency impact was not computed."),
        path: None,
        evidence_id: None,
    }
}

pub fn no_test_warning() -> (w: DetectionIssue)
    ensures
        issue_view(w) == no_test_view(),
{
    DetectionIssue {
        id: owned("impact-warning-no-test-command"),
        severity: DetectionSeverity::Warning,
        category: DetectionCategory::MissingCommand,
        message: owned("Impacted components were found, but no test target was available."),
        path: None,
        evidence_id: None,
    }
}

pub fn matches_some_component_exec(g: &RepoInspection, f: &String) -> (r: bool)
    ensures
        r == matches_some_component(*g, f@),
{
    let mut j: usize = 0;
    while j < g.components.len()
        invariant
            j <= g.components@.len(),
            forall|k: int| 0 <= k < j ==> !component_matches_spec(#[trigger] g.components@[k], f@),
        decreases g.components@.len() - j,
    {
        if component_matches_changed_file(&g.components[j], f) {
            return true;
        }
        j = j + 1;
    }
    false
}

pub fn has_dependency_edges_exec(g: &RepoInspection) -> (r: bool)
    ensures
        r == has_dependency_edges(*g),
{
    let mut i: usize = 0;
    while i < g.relationships.len()
        invariant
            i <= g.relationships@.len(),
            forall|k: int| 0 <= k < i ==> !(#[trigger] depends_on(*g, k)),
        decreases g.relationships@.len() - i,
    {
        if g.relationships[i].kind == RelationshipKind::DependsOn {
            assert(depends_on(*g, i as int));
            return true;
        }
        i = i + 1;
    }
    false
}

} // verus!
