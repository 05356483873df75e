use vstd::prelude::*;

use super::impact_deps::{add_reverse_dependency_impacts, closed_under_dependents, dist0, distance_bounded, is_component_id, transitive_entry_ok};
use super::impact_map::{component_keys, has_entry, has_key};
use super::impact_notes::{
    expected_warnings, file_unmapped, has_dependency_edges, has_dependency_edges_exec, issue_views,
    matches_some_component_exec, no_dependency_warning, no_test_warning, push_impact_warning,
    repo_graph_only_warning, unmapped_fold, unmapped_warning, push_unique, repo_graph_only_view,
    no_dependency_view, no_test_view,
};
use super::impact_roots::{
    broad_pair, direct_before, direct_pair, is_broad_file, is_broad_repo_change, normalize_changed_files,
    normalized_views, root_entry_ok, root_impacts, roots_ok, single_ids, pair_before,
};
use super::recommend::{
    command_views, expected_commands, expected_tests, has_component, has_component_exec,
    recommend_commands, recommend_tests, test_views,
};
use super::types::{
    copy_evidence_list, copy_issue_list, ImpactConfidence, ImpactKind, ImpactReport, ImpactScope,
    ImpactStatus, ImpactedComponent, ImpactedWorkspace, RecommendedCommand, RecommendedTest,
    RelationshipKind, RepoInspection, Workspace, IMPACT_CONTRACT_VERSION,
};
use crate::order::{lemma_map_multiset, sort_items, sorted, Ordered};
use crate::text::{lemma_seq_lt_total, lemma_seq_lt_transitive, owned, seq_le, seq_lt, text_eq, text_less};
use crate::textset::{is_id_set_of, single_id_set, views};

verus! {

// ---------------------------------------------------------------------------
// Workspaces
// ---------------------------------------------------------------------------

/// What an impacted workspace says, as plain values.
pub open spec fn workspace_view(w: ImpactedWorkspace) -> (Seq<char>, Seq<char>, ImpactKind, Option<u32>, Seq<char>, Seq<Seq<char>>) {
    (w.workspace_id@, w.name@, w.impact_kind, w.distance, w.reason@, views(w.evidence_ids@))
}

pub open spec fn workspace_views(s: Seq<ImpactedWorkspace>) -> Seq<(Seq<char>, Seq<char>, ImpactKind, Option<u32>, Seq<char>, Seq<Seq<char>>)> {
    s.map_values(|w: ImpactedWorkspace| workspace_view(w))
}

/// A relationship of `g` puts an impacted component in workspace `w`.
pub open spec fn holds_impacted_component(g: RepoInspection, comps: Seq<ImpactedComponent>, w: Workspace) -> bool {
    exists|r: int|
        0 <= r < g.relationships@.len() && (#[trigger] g.relationships@[r]).kind == RelationshipKind::BelongsToWorkspace
            && g.relationships@[r].dst_id@ == w.id@ && has_component(comps, g.relationships@[r].src_id@)
}

/// Every workspace is impacted by a broad change; otherwise those that hold an
/// impacted component.
pub open spec fn workspace_selected(g: RepoInspection, comps: Seq<ImpactedComponent>, broad: bool, w: Workspace) -> bool {
    broad || holds_impacted_component(g, comps, w)
}

pub open spec fn expected_workspace(w: Workspace, broad: bool) -> (Seq<char>, Seq<char>, ImpactKind, Option<u32>, Seq<char>, Seq<Seq<char>>) {
    if broad {
        (w.id@, w.name@, ImpactKind::Broad, None, "manifest_or_build_file_changed"@, single_ids(w.evidence_id@))
    } else {
        (w.id@, w.name@, ImpactKind::Direct, Some(0u32), "component_belongs_to_workspace"@, single_ids(w.evidence_id@))
    }
}

pub open spec fn has_workspace_id(s: Seq<(Seq<char>, Seq<char>, ImpactKind, Option<u32>, Seq<char>, Seq<Seq<char>>)>, id: Seq<char>) -> bool {
    exists|i: int| 0 <= i < s.len() && (#[trigger] s[i]).0 == id
}

/// The impacted workspaces: the first selected workspace of each identifier.
pub open spec fn expected_workspaces(g: RepoInspection, ws: Seq<Workspace>, comps: Seq<ImpactedComponent>, broad: bool) -> Seq<(Seq<char>, Seq<char>, ImpactKind, Option<u32>, Seq<char>, Seq<Seq<char>>)>
    decreases ws.len(),
{
    if ws.len() == 0 {
        seq![]
    } else {
        let prev = expected_workspaces(g, ws.drop_last(), comps, broad);
        if workspace_selected(g, comps, broad, ws.last()) && !has_workspace_id(prev, ws.last().id@) {
            prev.push(expected_workspace(ws.last(), broad))
        } else {
            prev
        }
    }
}

impl Ordered for ImpactedWorkspace {
    open spec fn le(self, other: Self) -> bool {
        seq_le(self.workspace_id@, other.workspace_id@)
    }

    proof fn lemma_le_transitive(a: Self, b: Self, c: Self) {
        if seq_lt(a.workspace_id@, b.workspace_id@) && seq_lt(b.workspace_id@, c.workspace_id@) {
            lemma_seq_lt_transitive(a.workspace_id@, b.workspace_id@, c.workspace_id@);
        }
    }

    proof fn lemma_le_total(a: Self, b: Self) {
        lemma_seq_lt_total(a.workspace_id@, b.workspace_id@);
    }

    fn le_exec(&self, other: &Self) -> (r: bool) {
        text_less(self.workspace_id.as_str(), other.workspace_id.as_str()) || text_eq(
            self.workspace_id.as_str(),
            other.workspace_id.as_str(),
        )
    }
}

fn holds_impacted_component_exec(g: &RepoInspection, comps: &Vec<ImpactedComponent>, w: &Workspace) -> (r: bool)
    ensures
        r == holds_impacted_component(*g, comps@, *w),
{
    let mut i: usize = 0;
    while i < g.relationships.len()
        invariant
            i <= g.relationships@.len(),
            forall|k: int|
                0 <= k < i ==> !((#[trigger] g.relationships@[k]).kind == RelationshipKind::BelongsToWorkspace
                    && g.relationships@[k].dst_id@ == w.id@ && has_component(comps@, g.relationships@[k].src_id@)),
        decreases g.relationships@.len() - i,
    {
        let rel = &g.relationships[i];
        if rel.kind == RelationshipKind::BelongsToWorkspace && text_eq(rel.dst_id.as_str(), w.id.as_str())
            && has_component_exec(comps, rel.src_id.as_str()) {
            return true;
        }
        i = i + 1;
    }
    false
}

fn has_workspace_id_exec(v: &Vec<ImpactedWorkspace>, id: &String) -> (r: bool)
    ensures
        r == has_workspace_id(workspace_views(v@), id@),
{
    let mut i: usize = 0;
    while i < v.len()
        invariant
            i <= v@.len(),
            forall|k: int| 0 <= k < i ==> (#[trigger] v@[k]).workspace_id@ != id@,
        decreases v@.len() - i,
    {
        if text_eq(v[i].workspace_id.as_str(), id.as_str()) {
            assert(workspace_views(v@)[i as int].0 == id@);
            return true;
        }
        i = i + 1;
    }
    assert(!has_workspace_id(workspace_views(v@), id@)) by {
        if has_workspace_id(workspace_views(v@), id@) {
            let k = choose|k: int| 0 <= k < workspace_views(v@).len() && (#[trigger] workspace_views(v@)[k]).0 == id@;
            assert(v@[k].workspace_id@ == id@);
        }
    }
    false
}

/// The workspaces impacted by a broad change or holding an impacted component,
/// ordered by identifier.
pub fn impacted_workspaces(g: &RepoInspection, comps: &Vec<ImpactedComponent>, broad: bool) -> (r: Vec<ImpactedWorkspace>)
    ensures
        sorted(r@),
        workspace_views(r@).to_multiset() == expected_workspaces(*g, g.workspaces@, comps@, broad).to_multiset(),
{
    let mut pre: Vec<ImpactedWorkspace> = Vec::new();
    let mut i: usize = 0;
    while i < g.workspaces.len()
        invariant
            i <= g.workspaces@.len(),
            workspace_views(pre@) == expected_workspaces(*g, g.workspaces@.take(i as int), comps@, broad),
        decreases g.workspaces@.len() - i,
    {
        let w = &g.workspaces[i];
        let ghost before = pre@;
        assert(g.workspaces@.take(i + 1).drop_last() =~= g.workspaces@.take(i as int));
        assert(g.workspaces@.take(i + 1).last() == *w);
        if (broad || holds_impacted_component_exec(g, comps, w)) && !has_workspace_id_exec(&pre, &w.id) {
            let entry = if broad {
                ImpactedWorkspace {
                    workspace_id: w.id.clone(),
                    name: w.name.clone(),
                    impact_kind: ImpactKind::Broad,
                    distance: None,
                    reason: owned("manifest_or_build_file_changed"),
                    evidence_ids: single_id_set(&w.evidence_id),
                }
            } else {
                ImpactedWorkspace {
                    workspace_id: w.id.clone(),
                    name: w.name.clone(),
                    impact_kind: ImpactKind::Direct,
                    distance: Some(0),
                    reason: owned("component_belongs_to_workspace"),
                    evidence_ids: single_id_set(&w.evidence_id),
                }
            };
            pre.push(entry);
            assert(views(entry.evidence_ids@) == single_ids(w.evidence_id@));
            assert(workspace_views(pre@) =~= workspace_views(before).push(workspace_view(entry)));
        }
        i = i + 1;
    }
    assert(g.workspaces@.take(g.workspaces@.len() as int) =~= g.workspaces@);
    let r = sort_items(pre);
    proof {
        lemma_map_multiset(r@, pre@, |w: ImpactedWorkspace| workspace_view(w));
    }
    r
}

// ---------------------------------------------------------------------------
// Status, scope, confidence
// ---------------------------------------------------------------------------

/// One of the changed files is a manifest, lockfile, workspace or build file.
pub open spec fn broad_change(g: RepoInspection, files: Seq<Seq<char>>) -> bool {
    exists|k: int| 0 <= k < files.len() && is_broad_file(g, #[trigger] files[k])
}

/// Insufficient evidence when nothing at all was found.
pub open spec fn impact_status_spec(comps: nat, workspaces: nat, commands: nat, tests: nat) -> ImpactStatus {
    if comps == 0 && workspaces == 0 && commands == 0 && tests == 0 {
        ImpactStatus::InsufficientEvidence
    } else {
        ImpactStatus::Partial
    }
}

pub open spec fn any_transitive(comps: Seq<ImpactedComponent>) -> bool {
    exists|i: int| 0 <= i < comps.len() && (#[trigger] comps[i]).impact_kind == ImpactKind::Transitive
}

/// Broad after a broad change; unknown when nothing is impacted; mixed when some
/// component is impacted only through dependencies; targeted otherwise.
pub open spec fn impact_scope_spec(comps: Seq<ImpactedComponent>, broad: bool) -> ImpactScope {
    if broad {
        ImpactScope::Broad
    } else if comps.len() == 0 {
        ImpactScope::Unknown
    } else if any_transitive(comps) {
        ImpactScope::Mixed
    } else {
        ImpactScope::Targeted
    }
}

pub open spec fn any_high_command(cmds: Seq<RecommendedCommand>) -> bool {
    exists|i: int| 0 <= i < cmds.len() && (#[trigger] cmds[i]).confidence == ImpactConfidence::High
}

pub open spec fn any_high_test(tests: Seq<RecommendedTest>) -> bool {
    exists|i: int| 0 <= i < tests.len() && (#[trigger] tests[i]).confidence == ImpactConfidence::High
}

pub open spec fn any_direct_or_transitive(comps: Seq<ImpactedComponent>) -> bool {
    exists|i: int|
        0 <= i < comps.len() && ((#[trigger] comps[i]).impact_kind == ImpactKind::Direct || comps[i].impact_kind
            == ImpactKind::Transitive)
}

/// Insufficient without evidence; high with a scoped recommendation; medium when a
/// component is impacted directly or transitively; low otherwise.
pub open spec fn impact_confidence_spec(
    status: ImpactStatus,
    comps: Seq<ImpactedComponent>,
    cmds: Seq<RecommendedCommand>,
    tests: Seq<RecommendedTest>,
) -> ImpactConfidence {
    if status == ImpactStatus::InsufficientEvidence {
        ImpactConfidence::Insufficient
    } else if any_high_command(cmds) || any_high_test(tests) {
        ImpactConfidence::High
    } else if any_direct_or_transitive(comps) {
        ImpactConfidence::Medium
    } else {
        ImpactConfidence::Low
    }
}

/// The limitations stated by every impact report.
pub open spec fn impact_limitations(has_dependencies: bool) -> Seq<Seq<char>> {
    let base = seq![
        "RepoGraph-only impact analysis; no symbols, imports, definitions, references, or call graph are used."@,
        "Recommendations are conservative and based on path containment, manifests, command scopes, test scopes, and explicit RepoGraph dependency edges."@,
    ];
    if has_dependencies {
        base
    } else {
        base.push("No depends_on relationships were available; no transitive dependency closure was computed."@)
    }
}

fn any_transitive_exec(comps: &Vec<ImpactedComponent>) -> (r: bool)
    ensures
        r == any_transitive(comps@),
{
    let mut i: usize = 0;
    while i < comps.len()
        invariant
            i <= comps@.len(),
            forall|k: int| 0 <= k < i ==> (#[trigger] comps@[k]).impact_kind != ImpactKind::Transitive,
        decreases comps@.len() - i,
    {
        if comps[i].impact_kind == ImpactKind::Transitive {
            return true;
        }
        i = i + 1;
    }
    false
}

fn impact_scope(comps: &Vec<ImpactedComponent>, broad: bool) -> (r: ImpactScope)
    ensures
        r == impact_scope_spec(comps@, broad),
{
    if broad {
        ImpactScope::Broad
    } else if comps.len() == 0 {
        ImpactScope::Unknown
    } else if any_transitive_exec(comps) {
        ImpactScope::Mixed
    } else {
        ImpactScope::Targeted
    }
}

fn impact_confidence(
    status: ImpactStatus,
    comps: &Vec<ImpactedComponent>,
    cmds: &Vec<RecommendedCommand>,
    tests: &Vec<RecommendedTest>,
) -> (r: ImpactConfidence)
    ensures
        r == impact_confidence_spec(status, comps@, cmds@, tests@),
{
    if status == ImpactStatus::InsufficientEvidence {
        return ImpactConfidence::Insufficient;
    }
    let mut i: usize = 0;
    while i < cmds.len()
        invariant
            i <= cmds@.len(),
            status != ImpactStatus::InsufficientEvidence,
            forall|k: int| 0 <= k < i ==> (#[trigger] cmds@[k]).confidence != ImpactConfidence::High,
        decreases cmds@.len() - i,
    {
        if cmds[i].confidence == ImpactConfidence::High {
            assert(any_high_command(cmds@));
            return ImpactConfidence::High;
        }
        i = i + 1;
    }
    let mut i: usize = 0;
    while i < tests.len()
        invariant
            i <= tests@.len(),
            status != ImpactStatus::InsufficientEvidence,
            !any_high_command(cmds@),
            forall|k: int| 0 <= k < i ==> (#[trigger] tests@[k]).confidence != ImpactConfidence::High,
        decreases tests@.len() - i,
    {
        if tests[i].confidence == ImpactConfidence::High {
            assert(any_high_test(tests@));
            return ImpactConfidence::High;
        }
        i = i + 1;
    }
    let mut i: usize = 0;
    while i < comps.len()
        invariant
            i <= comps@.len(),
            status != ImpactStatus::InsufficientEvidence,
            !any_high_command(cmds@),
            !any_high_test(tests@),
            forall|k: int|
                0 <= k < i ==> (#[trigger] comps@[k]).impact_kind != ImpactKind::Direct && comps@[k].impact_kind
                    != ImpactKind::Transitive,
        decreases comps@.len() - i,
    {
        if comps[i].impact_kind == ImpactKind::Direct || comps[i].impact_kind == ImpactKind::Transitive {
            assert(any_direct_or_transitive(comps@));
            return ImpactConfidence::Medium;
        }
        i = i + 1;
    }
    ImpactConfidence::Low
}

fn limitations(has_dependencies: bool) -> (r: Vec<String>)
    ensures
        views(r@) == impact_limitations(has_dependencies),
{
    let mut r: Vec<String> = Vec::new();
    r.push(owned("RepoGraph-only impact analysis; no symbols, imports, definitions, references, or call graph are used."));
    r.push(owned("Recommendations are conservative and based on path containment, manifests, command scopes, test scopes, and explicit RepoGraph dependency edges."));
    if !has_dependencies {
        r.push(owned("No depends_on relationships were available; no transitive dependency closure was computed."));
    }
    assert(views(r@) =~= impact_limitations(has_dependencies));
    r
}

// ---------------------------------------------------------------------------
// The analysis
// ---------------------------------------------------------------------------

proof fn lemma_roots_are_components(g: RepoInspection, fv: Seq<Seq<char>>, m: Seq<ImpactedComponent>)
    requires
        roots_ok(g, fv, m, fv.len() as int, 0),
    ensures
        forall|i: int| 0 <= i < m.len() ==> is_component_id(g, (#[trigger] m[i]).component_id@),
{
    let n = fv.len() as int;
    assert forall|i: int| 0 <= i < m.len() implies is_component_id(g, (#[trigger] m[i]).component_id@) by {
        let e = m[i];
        assert(root_entry_ok(g, fv, e, n, 0));
        if exists|k: int, j: int|
            #![trigger g.components@[j], fv[k]]
            pair_before(k, j, n, 0) && super::impact_roots::direct_entry_from(g, fv, e, k, j) {
            let (k, j) = choose|k: int, j: int|
                #![trigger g.components@[j], fv[k]]
                pair_before(k, j, n, 0) && super::impact_roots::direct_entry_from(g, fv, e, k, j);
            assert(g.components@[j].id@ == e.component_id@);
        } else {
            let (k, j) = choose|k: int, j: int|
                #![trigger g.components@[j], fv[k]]
                pair_before(k, j, n, 0) && super::impact_roots::broad_entry_from(g, fv, e, k, j);
            assert(g.components@[j].id@ == e.component_id@);
        }
    }
}

proof fn lemma_roots_kept(
    g: RepoInspection,
    fv: Seq<Seq<char>>,
    m0: Seq<ImpactedComponent>,
    m1: Seq<ImpactedComponent>,
)
    requires
        roots_ok(g, fv, m0, fv.len() as int, 0),
        strictly_sorted_keys(m1),
        forall|k: Seq<char>, e: ImpactedComponent| has_entry(m0, k, e) ==> has_entry(m1, k, e),
        forall|i: int|
            0 <= i < m1.len() ==> has_key(m0, (#[trigger] m1[i]).component_id@) || transitive_entry_ok(g, m1, m1[i]),
    ensures
        forall|i: int|
            0 <= i < m1.len() ==> root_entry_ok(g, fv, #[trigger] m1[i], fv.len() as int, 0) || transitive_entry_ok(g, m1, m1[i]),
        forall|k: int, j: int|
            #![trigger g.components@[j], fv[k]]
            direct_pair(g, fv, k, j) ==> exists|e: ImpactedComponent|
                has_entry(m1, g.components@[j].id@, e) && e.impact_kind == ImpactKind::Direct,
        forall|k: int, j: int| #![trigger g.components@[j], fv[k]] broad_pair(g, fv, k, j) ==> has_key(m1, g.components@[j].id@),
        forall|k: int, j: int|
            #![trigger g.components@[j], fv[k]]
            broad_pair(g, fv, k, j) && !direct_before(g, fv, g.components@[j].id@, fv.len() as int, 0) ==> exists|e: ImpactedComponent|
                has_entry(m1, g.components@[j].id@, e) && e.impact_kind == ImpactKind::Broad && e.distance is None,
{
    let n = fv.len() as int;
    assert forall|k: int, j: int|
        #![trigger g.components@[j], fv[k]]
        broad_pair(g, fv, k, j) && !direct_before(g, fv, g.components@[j].id@, n, 0) implies exists|e: ImpactedComponent|
            has_entry(m1, g.components@[j].id@, e) && e.impact_kind == ImpactKind::Broad && e.distance is None by {
        assert(pair_before(k, j, n, 0));
        let x = choose|x: int| 0 <= x < m0.len() && m0[x].component_id@ == g.components@[j].id@;
        let e = m0[x];
        assert(has_entry(m0, g.components@[j].id@, e));
        assert(has_entry(m1, g.components@[j].id@, e));
        assert(root_entry_ok(g, fv, e, n, 0));
        if exists|k2: int, j2: int|
            #![trigger g.components@[j2], fv[k2]]
            pair_before(k2, j2, n, 0) && super::impact_roots::direct_entry_from(g, fv, e, k2, j2) {
            let (k2, j2) = choose|k2: int, j2: int|
                #![trigger g.components@[j2], fv[k2]]
                pair_before(k2, j2, n, 0) && super::impact_roots::direct_entry_from(g, fv, e, k2, j2);
            assert(g.components@[j2].id@ == e.component_id@);
            assert(direct_before(g, fv, g.components@[j].id@, n, 0));
        }
    }
    assert forall|i: int|
        0 <= i < m1.len() implies root_entry_ok(g, fv, #[trigger] m1[i], n, 0) || transitive_entry_ok(g, m1, m1[i]) by {
        if has_key(m0, m1[i].component_id@) && !transitive_entry_ok(g, m1, m1[i]) {
            let x = choose|x: int| 0 <= x < m0.len() && m0[x].component_id@ == m1[i].component_id@;
            assert(has_entry(m0, m1[i].component_id@, m0[x]));
            assert(has_entry(m1, m1[i].component_id@, m0[x]));
            assert(has_entry(m1, m1[i].component_id@, m1[i]));
            super::impact_roots::lemma_key_unique(m1, m1[i].component_id@, m0[x], m1[i]);
        }
    }
    assert forall|k: int, j: int|
        #![trigger g.components@[j], fv[k]]
        direct_pair(g, fv, k, j) implies exists|e: ImpactedComponent|
            has_entry(m1, g.components@[j].id@, e) && e.impact_kind == ImpactKind::Direct by {
        assert(pair_before(k, j, n, 0));
        let e = choose|e: ImpactedComponent| has_entry(m0, g.components@[j].id@, e) && e.impact_kind == ImpactKind::Direct;
        assert(has_entry(m1, g.components@[j].id@, e));
    }
    assert forall|k: int, j: int| #![trigger g.components@[j], fv[k]] broad_pair(g, fv, k, j) implies has_key(m1, g.components@[j].id@) by {
        assert(pair_before(k, j, n, 0));
        let x = choose|x: int| 0 <= x < m0.len() && m0[x].component_id@ == g.components@[j].id@;
        assert(has_entry(m0, g.components@[j].id@, m0[x]));
        assert(has_entry(m1, g.components@[j].id@, m0[x]));
    }
}

pub open spec fn strictly_sorted_keys(m: Seq<ImpactedComponent>) -> bool {
    crate::textset::strictly_sorted(component_keys(m))
}

/// What an impact report is for an inspection and the changed files: the changed
/// files normalized; the components matched by them and those that depend on them;
/// the workspaces, tests and commands selected for those; the warnings; and the
/// status, scope, confidence and limitations they give.
pub open spec fn impact_result(g: RepoInspection, changed: Seq<String>, r: ImpactReport) -> bool {
    let files = views(r.changed_files@);
    let comps = r.impacted_components@;
    let broad = broad_change(g, files);
    &&& r.contract_version@ == IMPACT_CONTRACT_VERSION@
    &&& is_id_set_of(files, normalized_views(changed))
    &&& strictly_sorted_keys(comps)
    &&& forall|i: int|
        0 <= i < comps.len() ==> root_entry_ok(g, files, #[trigger] comps[i], files.len() as int, 0)
            || transitive_entry_ok(g, comps, comps[i])
    &&& forall|k: int, j: int|
        #![trigger g.components@[j], files[k]]
        direct_pair(g, files, k, j) ==> exists|e: ImpactedComponent|
            has_entry(comps, g.components@[j].id@, e) && e.impact_kind == ImpactKind::Direct
    &&& forall|k: int, j: int|
        #![trigger g.components@[j], files[k]]
        broad_pair(g, files, k, j) ==> has_key(comps, g.components@[j].id@)
    &&& forall|k: int, j: int|
        #![trigger g.components@[j], files[k]]
        broad_pair(g, files, k, j) && !direct_before(g, files, g.components@[j].id@, files.len() as int, 0) ==> exists|e: ImpactedComponent|
            has_entry(comps, g.components@[j].id@, e) && e.impact_kind == ImpactKind::Broad && e.distance is None
    &&& closed_under_dependents(g, comps)
    &&& distance_bounded(g, comps)
    &&& sorted(r.impacted_workspaces@)
    &&& workspace_views(r.impacted_workspaces@).to_multiset() == expected_workspaces(g, g.workspaces@, comps, broad).to_multiset()
    &&& sorted(r.recommended_tests@)
    &&& test_views(r.recommended_tests@).to_multiset() == expected_tests(g.tests@, r.changed_files@, comps, broad).to_multiset()
    &&& sorted(r.recommended_commands@)
    &&& command_views(r.recommended_commands@).to_multiset()
        == expected_commands(g.commands@, comps, broad, r.recommended_tests@.len() > 0).to_multiset()
    &&& r.evidence@ == g.evidence@
    &&& sorted(r.warnings@)
    &&& issue_views(r.warnings@).to_multiset()
        == expected_warnings(g, files, comps.len() > 0, r.recommended_tests@.len() > 0).to_multiset()
    &&& r.status == impact_status_spec(comps.len(), r.impacted_workspaces@.len(), r.recommended_commands@.len(), r.recommended_tests@.len())
    &&& r.impact_scope == impact_scope_spec(comps, broad)
    &&& r.confidence == impact_confidence_spec(r.status, comps, r.recommended_commands@, r.recommended_tests@)
    &&& views(r.limitations@) == impact_limitations(has_dependency_edges(g))
}

/// Estimates what a change to the given files impacts in the repository: the
/// components matched by the changed paths (all of them after a change to a
/// manifest or build file), the components that depend on them, their workspaces,
/// and the commands and tests worth running, with warnings and limitations.
pub fn analyze_impact(repo_graph: &RepoInspection, changed_files: Vec<String>) -> (r: ImpactReport)
    ensures
        impact_result(*repo_graph, changed_files@, r),
{
    let g = repo_graph;
    let files = normalize_changed_files(&changed_files);
    let ghost fv = views(files@);
    let mut warnings = copy_issue_list(&g.warnings);
    push_impact_warning(&mut warnings, repo_graph_only_warning());
    let ghost w1 = issue_views(warnings@);
    let mut broad = false;
    let mut i: usize = 0;
    assert(fv.take(0) =~= Seq::<Seq<char>>::empty());
    while i < files.len()
        invariant
            i <= files@.len(),
            fv == views(files@),
            w1 == push_unique(issue_views(g.warnings@), repo_graph_only_view()),
            broad == broad_change(*g, fv.take(i as int)),
            issue_views(warnings@) == unmapped_fold(*g, fv.take(i as int), w1),
        decreases files@.len() - i,
    {
        let f = &files[i];
        let ghost pre = fv.take(i as int);
        assert(fv.take(i + 1).drop_last() =~= pre);
        assert(fv.take(i + 1).last() == f@);
        let b = is_broad_repo_change(g, f);
        if b {
            broad = true;
            assert(fv.take(i + 1)[i as int] == f@);
        } else {
            assert(broad_change(*g, fv.take(i + 1)) == broad_change(*g, pre)) by {
                if broad_change(*g, fv.take(i + 1)) {
                    let k = choose|k: int| 0 <= k < fv.take(i + 1).len() && is_broad_file(*g, #[trigger] fv.take(i + 1)[k]);
                    if k < i {
                        assert(pre[k] == fv.take(i + 1)[k]);
                    }
                }
                if broad_change(*g, pre) {
                    let k = choose|k: int| 0 <= k < pre.len() && is_broad_file(*g, #[trigger] pre[k]);
                    assert(pre[k] == fv.take(i + 1)[k]);
                }
            }
            if !matches_some_component_exec(g, f) {
                push_impact_warning(&mut warnings, unmapped_warning(f));
            }
        }
        proof {
            if b {
                assert(broad_change(*g, fv.take(i + 1)));
            }
        }
        i = i + 1;
    }
    assert(fv.take(files@.len() as int) =~= fv);
    let mut comps = root_impacts(g, &files);
    let ghost m0 = comps@;
    proof {
        lemma_roots_are_components(*g, fv, m0);
    }
    let has_dependencies = has_dependency_edges_exec(g);
    if has_dependencies {
        proof {
            assert forall|i: int| 0 <= i < comps@.len() implies dist0(#[trigger] comps@[i]) == 0 by {
                assert(root_entry_ok(*g, fv, comps@[i], fv.len() as int, 0));
            }
        }
        add_reverse_dependency_impacts(g, &mut comps);
    } else {
        push_impact_warning(&mut warnings, no_dependency_warning());
        assert(closed_under_dependents(*g, comps@));
        assert(distance_bounded(*g, comps@));
    }
    proof {
        lemma_roots_kept(*g, fv, m0, comps@);
    }
    let workspaces = impacted_workspaces(g, &comps, broad);
    let tests = recommend_tests(g, &files, &comps, broad);
    let commands = recommend_commands(g, &comps, tests.len() > 0, broad);
    if comps.len() > 0 && tests.len() == 0 {
        push_impact_warning(&mut warnings, no_test_warning());
    }
    let ghost unsorted = warnings@;
    let warnings = sort_items(warnings);
    proof {
        lemma_map_multiset(warnings@, unsorted, |w: super::types::DetectionIssue| super::impact_notes::issue_view(w));
    }
    let status = if comps.len() == 0 && workspaces.len() == 0 && commands.len() == 0 && tests.len() == 0 {
        ImpactStatus::InsufficientEvidence
    } else {
        ImpactStatus::Partial
    };
    let scope = impact_scope(&comps, broad);
    let confidence = impact_confidence(status, &comps, &commands, &tests);
    ImpactReport {
        contract_version: owned(IMPACT_CONTRACT_VERSION),
        status,
        impact_scope: scope,
        confidence,
        changed_files: files,
        impacted_components: comps,
        impacted_workspaces: workspaces,
        recommended_commands: commands,
        recommended_tests: tests,
        evidence: copy_evidence_list(&g.evidence),
        warnings,
        limitations: limitations(has_dependencies),
    }
}

} // verus!
