use vstd::prelude::*;

use super::{CandidateFile, CandidateSymbol, RepoContextItem, RepoContextKind, RepoContextRole};
use crate::order::{key_le, key_le_exec, lemma_key_le_total, lemma_key_le_transitive, Ordered, SameItem};
use crate::repo_graph::impact::{analyze_impact, impact_result};
use crate::repo_graph::impact_deps::{depends_on, transitive_entry_ok};
use crate::repo_graph::impact_roots::{direct_entry_from, broad_entry_from, pair_before, root_entry_ok, single_ids};
use crate::repo_graph::types::{
    opt_text, Component, ImpactKind, ImpactReport, ImpactedComponent, RepoCommand, RepoCommandKind, RepoInspection,
    TestTarget, Workspace, copy_strings,
};
use crate::text::{chars_of, concat2, owned, starts_with_text, string_from_chars, strip_dot_slash, strip_dot_slash_start, text_eq};
use crate::textset::{insert_sorted_unique, is_id_set_of, strictly_sorted, views};

verus! {

pub open spec fn context_view(c: RepoContextItem) -> (Seq<char>, RepoContextKind, RepoContextRole, Seq<char>, Option<Seq<char>>, Seq<char>, Seq<Seq<char>>) {
    (c.id@, c.kind, c.role, c.label@, opt_text(c.path), c.reason@, views(c.evidence_ids@))
}

pub open spec fn context_kind_rank(k: RepoContextKind) -> u32 {
    match k {
        RepoContextKind::Component => 0,
        RepoContextKind::Command => 1,
        RepoContextKind::Workspace => 2,
        RepoContextKind::Test => 3,
    }
}

pub open spec fn context_role_rank(r: RepoContextRole) -> u32 {
    match r {
        RepoContextRole::AmbiguousContext => 0,
        RepoContextRole::ContainingComponent => 1,
        RepoContextRole::ContainingWorkspace => 2,
        RepoContextRole::DependencyContext => 3,
        RepoContextRole::ImpactContext => 4,
        RepoContextRole::TestCommandContext => 5,
        RepoContextRole::VerificationCommandContext => 6,
    }
}

/// Kind first, then role: one number that orders both.
pub open spec fn context_rank(c: RepoContextItem) -> u32 {
    (context_kind_rank(c.kind) * 8 + context_role_rank(c.role)) as u32
}

fn context_rank_exec(c: &RepoContextItem) -> (r: u32)
    ensures
        r == context_rank(*c),
{
    let k: u32 = match c.kind {
        RepoContextKind::Component => 0,
        RepoContextKind::Command => 1,
        RepoContextKind::Workspace => 2,
        RepoContextKind::Test => 3,
    };
    let r: u32 = match c.role {
        RepoContextRole::AmbiguousContext => 0,
        RepoContextRole::ContainingComponent => 1,
        RepoContextRole::ContainingWorkspace => 2,
        RepoContextRole::DependencyContext => 3,
        RepoContextRole::ImpactContext => 4,
        RepoContextRole::TestCommandContext => 5,
        RepoContextRole::VerificationCommandContext => 6,
    };
    k * 8 + r
}

impl Ordered for RepoContextItem {
    open spec fn le(self, other: Self) -> bool {
        key_le(context_rank(self), self.id@, seq![], context_rank(other), other.id@, seq![])
    }

    proof fn lemma_le_transitive(a: Self, b: Self, c: Self) {
        lemma_key_le_transitive(context_rank(a), a.id@, seq![], context_rank(b), b.id@, seq![], context_rank(c), c.id@, seq![]);
    }

    proof fn lemma_le_total(a: Self, b: Self) {
        lemma_key_le_total(context_rank(a), a.id@, seq![], context_rank(b), b.id@, seq![]);
    }

    fn le_exec(&self, other: &Self) -> (r: bool) {
        proof {
            reveal_strlit("");
        }
        key_le_exec(context_rank_exec(self), self.id.as_str(), "", context_rank_exec(other), other.id.as_str(), "")
    }
}

impl SameItem for RepoContextItem {
    open spec fn same(self, other: Self) -> bool {
        self.id@ == other.id@ && self.kind == other.kind && self.role == other.role
    }

    fn same_exec(&self, other: &Self) -> (r: bool) {
        text_eq(self.id.as_str(), other.id.as_str()) && self.kind == other.kind && self.role == other.role
    }
}

// ---------------------------------------------------------------------------
// Which repository facts a candidate path falls under
// ---------------------------------------------------------------------------

/// A component file pattern covers a candidate path: equal, or under `dir/**`.
pub open spec fn pattern_covers(pattern: Seq<char>, p: Seq<char>) -> bool {
    pattern == p || ("/**"@.is_suffix_of(pattern) && pattern.take(pattern.len() - 3).is_prefix_of(p))
}

/// A component covers a candidate path by a pattern, or by its directory unless that
/// is the repository root.
pub open spec fn component_covers(c: Component, p: Seq<char>) -> bool {
    (exists|k: int| 0 <= k < c.file_patterns@.len() && pattern_covers(#[trigger] c.file_patterns@[k]@, p))
        || (c.path@ != "."@ && c.path@.is_prefix_of(p))
}

/// A workspace member (without leading `./`) is a prefix of the candidate path.
pub open spec fn workspace_covers(w: Workspace, p: Seq<char>) -> bool {
    exists|k: int| 0 <= k < w.members@.len() && strip_dot_slash(#[trigger] w.members@[k]@).is_prefix_of(p)
}

pub open spec fn covers_some_path(c: Component, paths: Seq<Seq<char>>) -> bool {
    exists|k: int| 0 <= k < paths.len() && component_covers(c, #[trigger] paths[k])
}

pub open spec fn workspace_covers_some_path(w: Workspace, paths: Seq<Seq<char>>) -> bool {
    exists|k: int| 0 <= k < paths.len() && workspace_covers(w, #[trigger] paths[k])
}

pub open spec fn component_context_view(c: Component) -> (Seq<char>, RepoContextKind, RepoContextRole, Seq<char>, Option<Seq<char>>, Seq<char>, Seq<Seq<char>>) {
    (c.id@, RepoContextKind::Component, RepoContextRole::ContainingComponent, c.name@, Some(c.path@), "component_scope_matches_candidate_source_path"@, seq![c.evidence_id@])
}

pub open spec fn workspace_context_view(w: Workspace) -> (Seq<char>, RepoContextKind, RepoContextRole, Seq<char>, Option<Seq<char>>, Seq<char>, Seq<Seq<char>>) {
    (w.id@, RepoContextKind::Workspace, RepoContextRole::ContainingWorkspace, w.name@, None, "workspace_member_path_contains_candidate_source_path"@, seq![w.evidence_id@])
}

pub open spec fn command_context_view(c: RepoCommand) -> (Seq<char>, RepoContextKind, RepoContextRole, Seq<char>, Option<Seq<char>>, Seq<char>, Seq<Seq<char>>) {
    (
        c.id@,
        RepoContextKind::Command,
        if c.kind == RepoCommandKind::Test { RepoContextRole::TestCommandContext } else { RepoContextRole::VerificationCommandContext },
        c.command@,
        Some(c.scope@),
        "repo_command_context_for_candidate_source"@,
        seq![c.evidence_id@],
    )
}

pub open spec fn test_context_view(t: TestTarget) -> (Seq<char>, RepoContextKind, RepoContextRole, Seq<char>, Option<Seq<char>>, Seq<char>, Seq<Seq<char>>) {
    (t.id@, RepoContextKind::Test, RepoContextRole::TestCommandContext, t.command@, Some(t.scope@), "repo_test_context_for_candidate_source"@, seq![t.evidence_id@])
}

pub open spec fn impact_kind_name(k: ImpactKind) -> Seq<char> {
    match k {
        ImpactKind::Direct => "direct"@,
        ImpactKind::Transitive => "transitive"@,
        ImpactKind::Broad => "broad"@,
        ImpactKind::Uncertain => "uncertain"@,
    }
}

/// The evidence of an impacted component: that of a component of the graph, or that
/// of a component together with a dependency edge.
pub open spec fn impact_evidence_from_graph(g: RepoInspection, ids: Seq<Seq<char>>) -> bool {
    ||| exists|j: int| 0 <= j < g.components@.len() && ids == single_ids((#[trigger] g.components@[j]).evidence_id@)
    ||| exists|j: int, r: int|
        #![trigger g.components@[j], g.relationships@[r]]
        0 <= j < g.components@.len() && depends_on(g, r) && is_id_set_of(ids, seq![g.components@[j].evidence_id@, g.relationships@[r].evidence_id@])
}

/// A context item that records the impact of a change to the candidate paths.
pub open spec fn impact_context_ok(g: RepoInspection, c: RepoContextItem) -> bool {
    &&& c.kind == RepoContextKind::Component
    &&& c.role == RepoContextRole::ImpactContext
    &&& exists|j: int|
        0 <= j < g.components@.len() && c.id@ == "impact-context-"@ + (#[trigger] g.components@[j]).id@
            && c.label@ == g.components@[j].name@ && opt_text(c.path) == Some(g.components@[j].path@)
    &&& exists|k: ImpactKind| k != ImpactKind::Uncertain && c.reason@ == "repo_graph_impact_"@ + #[trigger] impact_kind_name(k)
    &&& impact_evidence_from_graph(g, views(c.evidence_ids@))
}

/// What one context item may be, for the candidate paths.
pub open spec fn context_item_ok(g: RepoInspection, paths: Seq<Seq<char>>, c: RepoContextItem) -> bool {
    let any = exists|j: int| 0 <= j < g.components@.len() && covers_some_path(#[trigger] g.components@[j], paths);
    ||| exists|j: int| 0 <= j < g.components@.len() && covers_some_path(#[trigger] g.components@[j], paths) && context_view(c) == component_context_view(g.components@[j])
    ||| exists|j: int| 0 <= j < g.workspaces@.len() && workspace_covers_some_path(#[trigger] g.workspaces@[j], paths) && context_view(c) == workspace_context_view(g.workspaces@[j])
    ||| any && exists|j: int| 0 <= j < g.commands@.len() && context_view(c) == command_context_view(#[trigger] g.commands@[j])
    ||| any && exists|j: int| 0 <= j < g.tests@.len() && context_view(c) == test_context_view(#[trigger] g.tests@[j])
    ||| impact_context_ok(g, c)
}

/// The candidate paths: the paths of the candidate files and symbols, without
/// repetition, in increasing order.
pub open spec fn candidate_paths_ok(paths: Seq<Seq<char>>, files: Seq<CandidateFile>, symbols: Seq<CandidateSymbol>) -> bool {
    &&& strictly_sorted(paths)
    &&& forall|t: Seq<char>| paths.contains(t) <==> ((exists|i: int| 0 <= i < files.len() && (#[trigger] files[i]).path@ == t)
        || (exists|i: int| 0 <= i < symbols.len() && (#[trigger] symbols[i]).path@ == t))
}

/// A context item that fits the candidate paths of the given candidates.
pub open spec fn context_item_fits(g: RepoInspection, files: Seq<CandidateFile>, symbols: Seq<CandidateSymbol>, c: RepoContextItem) -> bool {
    exists|paths: Seq<Seq<char>>| candidate_paths_ok(paths, files, symbols) && #[trigger] context_item_ok(g, paths, c)
}

fn strip_dot_slash_text(s: &str) -> (r: String)
    ensures
        r@ == strip_dot_slash(s@),
{
    let v = chars_of(s);
    let start = strip_dot_slash_start(&v);
    assert(v@.skip(start as int) =~= v@.subrange(start as int, v@.len() as int));
    string_from_chars(&v.as_slice()[start..v.len()])
}

fn pattern_covers_exec(pattern: &str, p: &str) -> (r: bool)
    ensures
        r == pattern_covers(pattern@, p@),
{
    if text_eq(pattern, p) {
        return true;
    }
    let v = chars_of(pattern);
    let n = v.len();
    proof {
        reveal_strlit("/**");
    }
    if n >= 3 && v[n - 3] == '/' && v[n - 2] == '*' && v[n - 1] == '*' {
        assert("/**"@ =~= v@.subrange(n - 3, n as int));
        let prefix = string_from_chars(&v.as_slice()[0..n - 3]);
        assert(v@.subrange(0, n - 3) =~= pattern@.take(n - 3));
        starts_with_text(p, prefix.as_str())
    } else {
        assert(!"/**"@.is_suffix_of(pattern@)) by {
            if "/**"@.is_suffix_of(pattern@) {
                assert(pattern@.subrange(n - 3, n as int) =~= "/**"@);
                assert(pattern@[n - 3] == "/**"@[0]);
                assert(pattern@[n - 2] == "/**"@[1]);
                assert(pattern@[n - 1] == "/**"@[2]);
            }
        }
        false
    }
}

fn component_covers_exec(c: &Component, p: &str) -> (r: bool)
    ensures
        r == component_covers(*c, p@),
{
    let mut k: usize = 0;
    while k < c.file_patterns.len()
        invariant
            k <= c.file_patterns@.len(),
            forall|i: int| 0 <= i < k ==> !pattern_covers(#[trigger] c.file_patterns@[i]@, p@),
        decreases c.file_patterns@.len() - k,
    {
        if pattern_covers_exec(c.file_patterns[k].as_str(), p) {
            return true;
        }
        k = k + 1;
    }
    !text_eq(c.path.as_str(), ".") && starts_with_text(p, c.path.as_str())
}

fn workspace_covers_exec(w: &Workspace, p: &str) -> (r: bool)
    ensures
        r == workspace_covers(*w, p@),
{
    let mut k: usize = 0;
    while k < w.members.len()
        invariant
            k <= w.members@.len(),
            forall|i: int| 0 <= i < k ==> !strip_dot_slash(#[trigger] w.members@[i]@).is_prefix_of(p@),
        decreases w.members@.len() - k,
    {
        let m = strip_dot_slash_text(w.members[k].as_str());
        if starts_with_text(p, m.as_str()) {
            return true;
        }
        k = k + 1;
    }
    false
}

fn covers_some_path_exec(c: &Component, paths: &Vec<String>) -> (r: bool)
    ensures
        r == covers_some_path(*c, views(paths@)),
{
    let mut k: usize = 0;
    while k < paths.len()
        invariant
            k <= paths@.len(),
            forall|i: int| 0 <= i < k ==> !component_covers(*c, #[trigger] views(paths@)[i]),
        decreases paths@.len() - k,
    {
        if component_covers_exec(c, paths[k].as_str()) {
            assert(views(paths@)[k as int] == paths@[k as int]@);
            return true;
        }
        k = k + 1;
    }
    false
}

fn workspace_covers_some_path_exec(w: &Workspace, paths: &Vec<String>) -> (r: bool)
    ensures
        r == workspace_covers_some_path(*w, views(paths@)),
{
    let mut k: usize = 0;
    while k < paths.len()
        invariant
            k <= paths@.len(),
            forall|i: int| 0 <= i < k ==> !workspace_covers(*w, #[trigger] views(paths@)[i]),
        decreases paths@.len() - k,
    {
        if workspace_covers_exec(w, paths[k].as_str()) {
            assert(views(paths@)[k as int] == paths@[k as int]@);
            return true;
        }
        k = k + 1;
    }
    false
}

fn single(id: &String) -> (r: Vec<String>)
    ensures
        views(r@) == seq![id@],
{
    let mut r: Vec<String> = Vec::new();
    r.push(id.clone());
    assert(views(r@) =~= seq![id@]);
    r
}

/// The paths of the candidate files and symbols, without repetition, in order.
pub fn candidate_paths(files: &Vec<CandidateFile>, symbols: &Vec<CandidateSymbol>) -> (r: Vec<String>)
    ensures
        candidate_paths_ok(views(r@), files@, symbols@),
{
    let mut r: Vec<String> = Vec::new();
    let mut i: usize = 0;
    while i < files.len()
        invariant
            i <= files@.len(),
            strictly_sorted(views(r@)),
            forall|t: Seq<char>| views(r@).to_set().contains(t) <==> exists|k: int| 0 <= k < i && (#[trigger] files@[k]).path@ == t,
        decreases files@.len() - i,
    {
        let ghost before = views(r@).to_set();
        insert_sorted_unique(&mut r, files[i].path.clone());
        assert forall|t: Seq<char>| views(r@).to_set().contains(t) <==> exists|k: int| 0 <= k < i + 1 && (#[trigger] files@[k]).path@ == t by {
            if t == files@[i as int].path@ {
                assert(views(r@).to_set().contains(t));
            }
            if views(r@).to_set().contains(t) && t != files@[i as int].path@ {
                assert(before.contains(t));
            }
        }
        i = i + 1;
    }
    let mut j: usize = 0;
    while j < symbols.len()
        invariant
            j <= symbols@.len(),
            strictly_sorted(views(r@)),
            forall|t: Seq<char>| views(r@).to_set().contains(t) <==> ((exists|k: int| 0 <= k < files@.len() && (#[trigger] files@[k]).path@ == t)
                || (exists|k: int| 0 <= k < j && (#[trigger] symbols@[k]).path@ == t)),
        decreases symbols@.len() - j,
    {
        let ghost before = views(r@).to_set();
        insert_sorted_unique(&mut r, symbols[j].path.clone());
        assert forall|t: Seq<char>| views(r@).to_set().contains(t) <==> ((exists|k: int| 0 <= k < files@.len() && (#[trigger] files@[k]).path@ == t)
                || (exists|k: int| 0 <= k < j + 1 && (#[trigger] symbols@[k]).path@ == t)) by {
            if t == symbols@[j as int].path@ {
                assert(views(r@).to_set().contains(t));
            }
            if views(r@).to_set().contains(t) && t != symbols@[j as int].path@ {
                assert(before.contains(t));
            }
        }
        j = j + 1;
    }
    assert forall|t: Seq<char>| views(r@).contains(t) <==> views(r@).to_set().contains(t) by {}
    r
}

fn impact_item(e: &ImpactedComponent) -> (c: RepoContextItem)
    ensures
        c.id@ == "impact-context-"@ + e.component_id@,
        c.kind == RepoContextKind::Component,
        c.role == RepoContextRole::ImpactContext,
        c.label == e.name,
        opt_text(c.path) == Some(e.path@),
        c.reason@ == "repo_graph_impact_"@ + impact_kind_name(e.impact_kind),
        c.evidence_ids@ == e.evidence_ids@,
{
    let kind_name = match e.impact_kind {
        ImpactKind::Direct => "direct",
        ImpactKind::Transitive => "transitive",
        ImpactKind::Broad => "broad",
        ImpactKind::Uncertain => "uncertain",
    };
    RepoContextItem {
        id: concat2("impact-context-", e.component_id.as_str()),
        kind: RepoContextKind::Component,
        role: RepoContextRole::ImpactContext,
        label: e.name.clone(),
        path: Some(e.path.clone()),
        reason: concat2("repo_graph_impact_", kind_name),
        evidence_ids: copy_strings(&e.evidence_ids),
    }
}

proof fn lemma_impact_entry(g: RepoInspection, fv: Seq<Seq<char>>, m: Seq<ImpactedComponent>, e: ImpactedComponent)
    requires
        root_entry_ok(g, fv, e, fv.len() as int, 0) || transitive_entry_ok(g, m, e),
    ensures
        e.impact_kind != ImpactKind::Uncertain,
        exists|j: int| 0 <= j < g.components@.len() && (#[trigger] g.components@[j]).id == e.component_id
            && g.components@[j].name == e.name && g.components@[j].path == e.path,
        impact_evidence_from_graph(g, views(e.evidence_ids@)),
{
    let n = fv.len() as int;
    if transitive_entry_ok(g, m, e) {
        let (j, r) = choose|j: int, r: int|
            #![trigger g.components@[j], g.relationships@[r]]
            0 <= j < g.components@.len() && depends_on(g, r) && g.components@[j].id == e.component_id
                && e.name == g.components@[j].name && e.kind == g.components@[j].kind && e.path
                == g.components@[j].path && g.relationships@[r].src_id@ == e.component_id@
                && is_id_set_of(
                views(e.evidence_ids@),
                seq![g.components@[j].evidence_id@, g.relationships@[r].evidence_id@],
            ) && exists|p: ImpactedComponent|
                crate::repo_graph::impact_map::has_entry(m, g.relationships@[r].dst_id@, p) && e.distance == Some(
                    crate::repo_graph::impact_deps::next_distance(crate::repo_graph::impact_deps::dist0(p)) as u32,
                );
        assert(g.components@[j].id == e.component_id);
    } else if exists|k: int, j: int|
        #![trigger g.components@[j], fv[k]]
        pair_before(k, j, n, 0) && direct_entry_from(g, fv, e, k, j) {
        let (k, j) = choose|k: int, j: int|
            #![trigger g.components@[j], fv[k]]
            pair_before(k, j, n, 0) && direct_entry_from(g, fv, e, k, j);
        assert(g.components@[j].id == e.component_id);
    } else {
        let (k, j) = choose|k: int, j: int|
            #![trigger g.components@[j], fv[k]]
            pair_before(k, j, n, 0) && broad_entry_from(g, fv, e, k, j);
        assert(g.components@[j].id == e.component_id);
    }
}

/// The views of a list of context items.
pub open spec fn context_views(s: Seq<RepoContextItem>) -> Seq<(Seq<char>, RepoContextKind, RepoContextRole, Seq<char>, Option<Seq<char>>, Seq<char>, Seq<Seq<char>>)> {
    s.map_values(|c: RepoContextItem| context_view(c))
}

/// The items of the components that cover a candidate path, in the order of the graph.
pub open spec fn covering_component_items(cs: Seq<Component>, paths: Seq<Seq<char>>) -> Seq<(Seq<char>, RepoContextKind, RepoContextRole, Seq<char>, Option<Seq<char>>, Seq<char>, Seq<Seq<char>>)>
    decreases cs.len(),
{
    if cs.len() == 0 {
        seq![]
    } else {
        let rest = covering_component_items(cs.drop_last(), paths);
        if covers_some_path(cs.last(), paths) {
            rest.push(component_context_view(cs.last()))
        } else {
            rest
        }
    }
}

/// The items of the workspaces that cover a candidate path, in the order of the graph.
pub open spec fn covering_workspace_items(ws: Seq<Workspace>, paths: Seq<Seq<char>>) -> Seq<(Seq<char>, RepoContextKind, RepoContextRole, Seq<char>, Option<Seq<char>>, Seq<char>, Seq<Seq<char>>)>
    decreases ws.len(),
{
    if ws.len() == 0 {
        seq![]
    } else {
        let rest = covering_workspace_items(ws.drop_last(), paths);
        if workspace_covers_some_path(ws.last(), paths) {
            rest.push(workspace_context_view(ws.last()))
        } else {
            rest
        }
    }
}

pub open spec fn command_items(cs: Seq<RepoCommand>) -> Seq<(Seq<char>, RepoContextKind, RepoContextRole, Seq<char>, Option<Seq<char>>, Seq<char>, Seq<Seq<char>>)> {
    cs.map_values(|c: RepoCommand| command_context_view(c))
}

pub open spec fn test_items(ts: Seq<TestTarget>) -> Seq<(Seq<char>, RepoContextKind, RepoContextRole, Seq<char>, Option<Seq<char>>, Seq<char>, Seq<Seq<char>>)> {
    ts.map_values(|t: TestTarget| test_context_view(t))
}

/// The context item that records one impacted component.
pub open spec fn impact_item_view(e: ImpactedComponent) -> (Seq<char>, RepoContextKind, RepoContextRole, Seq<char>, Option<Seq<char>>, Seq<char>, Seq<Seq<char>>) {
    (
        "impact-context-"@ + e.component_id@,
        RepoContextKind::Component,
        RepoContextRole::ImpactContext,
        e.name@,
        Some(e.path@),
        "repo_graph_impact_"@ + impact_kind_name(e.impact_kind),
        views(e.evidence_ids@),
    )
}

/// The items of the impacted components whose impact is not uncertain, in order.
pub open spec fn impact_items(es: Seq<ImpactedComponent>) -> Seq<(Seq<char>, RepoContextKind, RepoContextRole, Seq<char>, Option<Seq<char>>, Seq<char>, Seq<Seq<char>>)>
    decreases es.len(),
{
    if es.len() == 0 {
        seq![]
    } else {
        let rest = impact_items(es.drop_last());
        if es.last().impact_kind != ImpactKind::Uncertain {
            rest.push(impact_item_view(es.last()))
        } else {
            rest
        }
    }
}

/// Some component of the graph covers a candidate path.
pub open spec fn some_component_covers(g: RepoInspection, paths: Seq<Seq<char>>) -> bool {
    exists|k: int| 0 <= k < g.components@.len() && covers_some_path(#[trigger] g.components@[k], paths)
}

/// The repository context of candidate paths, given the components that the impact
/// analysis of those paths reported: the covering components, the covering
/// workspaces, all commands and tests when some component covers a path, and the
/// impacted components.
pub open spec fn repo_context_spec(g: RepoInspection, paths: Seq<Seq<char>>, impacted: Seq<ImpactedComponent>) -> Seq<(Seq<char>, RepoContextKind, RepoContextRole, Seq<char>, Option<Seq<char>>, Seq<char>, Seq<Seq<char>>)> {
    covering_component_items(g.components@, paths) + covering_workspace_items(g.workspaces@, paths) + (if some_component_covers(g, paths) {
        command_items(g.commands@) + test_items(g.tests@)
    } else {
        seq![]
    }) + impact_items(impacted)
}

/// The context items, in any order, are the repository context of the candidates'
/// paths: none when there is no path, else those of `repo_context_spec` for the
/// components that the impact analysis of the paths reports.
pub open spec fn repo_context_matches(g: RepoInspection, files: Seq<CandidateFile>, symbols: Seq<CandidateSymbol>, cs: Seq<RepoContextItem>) -> bool {
    exists|paths: Seq<String>|
        #[trigger] candidate_paths_ok(views(paths), files, symbols) && if paths.len() == 0 {
            cs.len() == 0
        } else {
            exists|rep: ImpactReport|
                #[trigger] impact_result(g, paths, rep) && context_views(cs).to_multiset() == repo_context_spec(
                    g,
                    views(paths),
                    rep.impacted_components@,
                ).to_multiset()
        }
}

/// Reordering the exact repository context keeps it the repository context.
pub proof fn lemma_context_reordered(g: RepoInspection, files: Seq<CandidateFile>, symbols: Seq<CandidateSymbol>, raw: Seq<RepoContextItem>, cs: Seq<RepoContextItem>)
    requires
        cs.to_multiset() == raw.to_multiset(),
        exists|paths: Seq<String>|
            #[trigger] candidate_paths_ok(views(paths), files, symbols) && if paths.len() == 0 {
                raw.len() == 0
            } else {
                exists|rep: ImpactReport|
                    #[trigger] impact_result(g, paths, rep) && context_views(raw) == repo_context_spec(g, views(paths), rep.impacted_components@)
            },
    ensures
        repo_context_matches(g, files, symbols, cs),
{
    let f = |c: RepoContextItem| context_view(c);
    crate::order::lemma_map_multiset(cs, raw, f);
    assert(context_views(cs) =~= cs.map_values(f));
    assert(context_views(raw) =~= raw.map_values(f));
    let paths = choose|paths: Seq<String>|
        #[trigger] candidate_paths_ok(views(paths), files, symbols) && if paths.len() == 0 {
            raw.len() == 0
        } else {
            exists|rep: ImpactReport|
                #[trigger] impact_result(g, paths, rep) && context_views(raw) == repo_context_spec(g, views(paths), rep.impacted_components@)
        };
    if paths.len() == 0 {
        vstd::seq_lib::to_multiset_len(cs);
        vstd::seq_lib::to_multiset_len(raw);
    } else {
        let rep = choose|rep: ImpactReport|
            #[trigger] impact_result(g, paths, rep) && context_views(raw) == repo_context_spec(g, views(paths), rep.impacted_components@);
        assert(impact_result(g, paths, rep));
    }
}

/// The repository context of the candidates: the components and workspaces whose
/// scope covers a candidate path, the commands and tests when some component does,
/// and the components that a change to the candidate paths would impact.
pub fn repo_context(g: &RepoInspection, files: &Vec<CandidateFile>, symbols: &Vec<CandidateSymbol>) -> (r: Vec<RepoContextItem>)
    ensures
        (files@.len() == 0 && symbols@.len() == 0) ==> r@.len() == 0,
        forall|i: int| 0 <= i < r@.len() ==> context_item_fits(*g, files@, symbols@, #[trigger] r@[i]),
        exists|paths: Seq<String>|
            #[trigger] candidate_paths_ok(views(paths), files@, symbols@) && if paths.len() == 0 {
                r@.len() == 0
            } else {
                exists|rep: ImpactReport|
                    #[trigger] impact_result(*g, paths, rep) && context_views(r@) == repo_context_spec(*g, views(paths), rep.impacted_components@)
            },
{
    let paths = candidate_paths(files, symbols);
    let ghost pv = views(paths@);
    proof {
        if files@.len() == 0 && symbols@.len() == 0 && pv.len() > 0 {
            assert(pv.contains(pv[0]));
        }
    }
    if paths.len() == 0 {
        proof {
            if files@.len() > 0 {
                assert(pv.contains(files@[0].path@));
            }
            if symbols@.len() > 0 {
                assert(pv.contains(symbols@[0].path@));
            }
        }
        assert(candidate_paths_ok(views(paths@), files@, symbols@));
        return Vec::new();
    }
    let mut out: Vec<RepoContextItem> = Vec::new();
    let mut any = false;
    let mut j: usize = 0;
    assert(g.components@.take(0) =~= Seq::<Component>::empty());
    while j < g.components.len()
        invariant
            j <= g.components@.len(),
            pv == views(paths@),
            candidate_paths_ok(pv, files@, symbols@),
            any == exists|k: int| 0 <= k < j && covers_some_path(#[trigger] g.components@[k], pv),
            forall|i: int| 0 <= i < out@.len() ==> #[trigger] context_item_ok(*g, pv, out@[i]),
            context_views(out@) == covering_component_items(g.components@.take(j as int), pv),
        decreases g.components@.len() - j,
    {
        let c = &g.components[j];
        let ghost before = context_views(out@);
        assert(g.components@.take(j + 1).drop_last() =~= g.components@.take(j as int));
        assert(g.components@.take(j + 1).last() == g.components@[j as int]);
        if covers_some_path_exec(c, &paths) {
            let item = RepoContextItem {
                id: c.id.clone(),
                kind: RepoContextKind::Component,
                role: RepoContextRole::ContainingComponent,
                label: c.name.clone(),
                path: Some(c.path.clone()),
                reason: owned("component_scope_matches_candidate_source_path"),
                evidence_ids: single(&c.evidence_id),
            };
            assert(context_view(item) == component_context_view(g.components@[j as int]));
            out.push(item);
            any = true;
            assert(context_views(out@) =~= before.push(context_view(item)));
            assert forall|i: int| 0 <= i < out@.len() implies #[trigger] context_item_ok(*g, pv, out@[i]) by {
                if i == out@.len() - 1 {
                    assert(out@[i] == item);
                }
            }
        }
        j = j + 1;
    }
    assert(g.components@.take(j as int) =~= g.components@);
    let ghost after_components = context_views(out@);
    let mut j: usize = 0;
    assert(g.workspaces@.take(0) =~= Seq::<Workspace>::empty());
    assert(after_components + covering_workspace_items(g.workspaces@.take(0), pv) =~= after_components);
    while j < g.workspaces.len()
        invariant
            j <= g.workspaces@.len(),
            pv == views(paths@),
            forall|i: int| 0 <= i < out@.len() ==> #[trigger] context_item_ok(*g, pv, out@[i]),
            context_views(out@) == after_components + covering_workspace_items(g.workspaces@.take(j as int), pv),
        decreases g.workspaces@.len() - j,
    {
        let w = &g.workspaces[j];
        let ghost before = context_views(out@);
        assert(g.workspaces@.take(j + 1).drop_last() =~= g.workspaces@.take(j as int));
        assert(g.workspaces@.take(j + 1).last() == g.workspaces@[j as int]);
        if workspace_covers_some_path_exec(w, &paths) {
            let item = RepoContextItem {
                id: w.id.clone(),
                kind: RepoContextKind::Workspace,
                role: RepoContextRole::ContainingWorkspace,
                label: w.name.clone(),
                path: None,
                reason: owned("workspace_member_path_contains_candidate_source_path"),
                evidence_ids: single(&w.evidence_id),
            };
            assert(context_view(item) == workspace_context_view(g.workspaces@[j as int]));
            out.push(item);
            assert(context_views(out@) =~= before.push(context_view(item)));
            assert(context_views(out@) =~= after_components + covering_workspace_items(g.workspaces@.take(j + 1), pv));
            assert forall|i: int| 0 <= i < out@.len() implies #[trigger] context_item_ok(*g, pv, out@[i]) by {
                if i == out@.len() - 1 {
                    assert(out@[i] == item);
                }
            }
        }
        j = j + 1;
    }
    assert(g.workspaces@.take(j as int) =~= g.workspaces@);
    let ghost after_workspaces = context_views(out@);
    if any {
        let mut j: usize = 0;
        assert(after_workspaces + command_items(g.commands@.take(0)) =~= after_workspaces);
        while j < g.commands.len()
            invariant
                j <= g.commands@.len(),
                pv == views(paths@),
                exists|k: int| 0 <= k < g.components@.len() && covers_some_path(#[trigger] g.components@[k], pv),
                forall|i: int| 0 <= i < out@.len() ==> #[trigger] context_item_ok(*g, pv, out@[i]),
                context_views(out@) == after_workspaces + command_items(g.commands@.take(j as int)),
            decreases g.commands@.len() - j,
        {
            let c = &g.commands[j];
            let ghost before = context_views(out@);
            let role = if c.kind == RepoCommandKind::Test {
                RepoContextRole::TestCommandContext
            } else {
                RepoContextRole::VerificationCommandContext
            };
            let item = RepoContextItem {
                id: c.id.clone(),
                kind: RepoContextKind::Command,
                role,
                label: c.command.clone(),
                path: Some(c.scope.clone()),
                reason: owned("repo_command_context_for_candidate_source"),
                evidence_ids: single(&c.evidence_id),
            };
            assert(context_view(item) == command_context_view(g.commands@[j as int]));
            out.push(item);
            assert(context_views(out@) =~= before.push(context_view(item)));
            assert(command_items(g.commands@.take(j + 1)) =~= command_items(g.commands@.take(j as int)).push(command_context_view(g.commands@[j as int])));
            assert(context_views(out@) =~= after_workspaces + command_items(g.commands@.take(j + 1)));
            assert forall|i: int| 0 <= i < out@.len() implies #[trigger] context_item_ok(*g, pv, out@[i]) by {
                if i == out@.len() - 1 {
                    assert(out@[i] == item);
                }
            }
            j = j + 1;
        }
        assert(g.commands@.take(j as int) =~= g.commands@);
        let ghost after_commands = context_views(out@);
        let mut j: usize = 0;
        assert(after_commands + test_items(g.tests@.take(0)) =~= after_commands);
        while j < g.tests.len()
            invariant
                j <= g.tests@.len(),
                pv == views(paths@),
                exists|k: int| 0 <= k < g.components@.len() && covers_some_path(#[trigger] g.components@[k], pv),
                forall|i: int| 0 <= i < out@.len() ==> #[trigger] context_item_ok(*g, pv, out@[i]),
                context_views(out@) == after_commands + test_items(g.tests@.take(j as int)),
            decreases g.tests@.len() - j,
        {
            let t = &g.tests[j];
            let ghost before = context_views(out@);
            let item = RepoContextItem {
                id: t.id.clone(),
                kind: RepoContextKind::Test,
                role: RepoContextRole::TestCommandContext,
                label: t.command.clone(),
                path: Some(t.scope.clone()),
                reason: owned("repo_test_context_for_candidate_source"),
                evidence_ids: single(&t.evidence_id),
            };
            assert(context_view(item) == test_context_view(g.tests@[j as int]));
            out.push(item);
            assert(context_views(out@) =~= before.push(context_view(item)));
            assert(test_items(g.tests@.take(j + 1)) =~= test_items(g.tests@.take(j as int)).push(test_context_view(g.tests@[j as int])));
            assert(context_views(out@) =~= after_commands + test_items(g.tests@.take(j + 1)));
            assert forall|i: int| 0 <= i < out@.len() implies #[trigger] context_item_ok(*g, pv, out@[i]) by {
                if i == out@.len() - 1 {
                    assert(out@[i] == item);
                }
            }
            j = j + 1;
        }
        assert(g.tests@.take(j as int) =~= g.tests@);
        assert(context_views(out@) =~= after_workspaces + (command_items(g.commands@) + test_items(g.tests@)));
    } else {
        assert(!some_component_covers(*g, pv));
        assert(context_views(out@) =~= after_workspaces + Seq::<(Seq<char>, RepoContextKind, RepoContextRole, Seq<char>, Option<Seq<char>>, Seq<char>, Seq<Seq<char>>)>::empty());
    }
    let ghost head = context_views(out@);
    assert(head == covering_component_items(g.components@, pv) + covering_workspace_items(g.workspaces@, pv) + (if some_component_covers(*g, pv) {
        command_items(g.commands@) + test_items(g.tests@)
    } else {
        seq![]
    }));
    let report = analyze_impact(g, copy_strings(&paths));
    let comps = &report.impacted_components;
    let ghost fv = views(report.changed_files@);
    let mut k: usize = 0;
    assert(comps@.take(0) =~= Seq::<ImpactedComponent>::empty());
    assert(head + impact_items(comps@.take(0)) =~= head);
    while k < comps.len()
        invariant
            k <= comps@.len(),
            pv == views(paths@),
            *comps == report.impacted_components,
            fv == views(report.changed_files@),
            forall|i: int| 0 <= i < comps@.len() ==> root_entry_ok(*g, fv, #[trigger] comps@[i], report.changed_files@.len() as int, 0)
                || transitive_entry_ok(*g, comps@, comps@[i]),
            forall|i: int| 0 <= i < out@.len() ==> #[trigger] context_item_ok(*g, pv, out@[i]),
            context_views(out@) == head + impact_items(comps@.take(k as int)),
        decreases comps@.len() - k,
    {
        let e = &comps[k];
        let ghost before = context_views(out@);
        assert(comps@.take(k + 1).drop_last() =~= comps@.take(k as int));
        assert(comps@.take(k + 1).last() == comps@[k as int]);
        proof {
            lemma_impact_entry(*g, fv, comps@, comps@[k as int]);
        }
        if e.impact_kind != ImpactKind::Uncertain {
            let item = impact_item(e);
            assert(views(item.evidence_ids@) == views(e.evidence_ids@));
            let ghost j = choose|j: int| 0 <= j < g.components@.len() && (#[trigger] g.components@[j]).id == e.component_id
                && g.components@[j].name == e.name && g.components@[j].path == e.path;
            assert(item.id@ == "impact-context-"@ + g.components@[j].id@);
            assert(item.reason@ == "repo_graph_impact_"@ + impact_kind_name(e.impact_kind));
            assert(impact_context_ok(*g, item));
            assert(context_view(item) == impact_item_view(*e));
            out.push(item);
            assert(context_views(out@) =~= before.push(context_view(item)));
            assert(context_views(out@) =~= head + impact_items(comps@.take(k + 1)));
            assert forall|i: int| 0 <= i < out@.len() implies #[trigger] context_item_ok(*g, pv, out@[i]) by {
                if i == out@.len() - 1 {
                    assert(out@[i] == item);
                }
            }
        }
        k = k + 1;
    }
    assert(comps@.take(k as int) =~= comps@);
    assert forall|i: int| 0 <= i < out@.len() implies context_item_fits(*g, files@, symbols@, #[trigger] out@[i]) by {
        assert(context_item_ok(*g, pv, out@[i]));
    }
    assert(context_views(out@) == repo_context_spec(*g, views(paths@), report.impacted_components@));
    assert(impact_result(*g, paths@, report));
    assert(candidate_paths_ok(views(paths@), files@, symbols@));
    out
}

} // verus!
