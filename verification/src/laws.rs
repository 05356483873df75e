use vstd::prelude::*;

use crate::evaluation::checks::{
    detection_category_name, issue_category_names, items_effect, max_effect, value_effect, EvalState, Tally,
    category_set_of, deterministic_effect, evidence_effect, impact_facts_backed, inspect_facts_backed, state_of,
};
use crate::evaluation::run::{impact_expect_effect, impact_fields, impact_values_effect, impacted_names, recommended_command_names, recommended_test_names, lists_effect, command_names, component_names, inspect_fields, test_names, warnings_effect, case_effect, case_result_ok, inspect_expect_effect, run_warnings, CaseOutput, CaseRun};
use crate::evaluation::render::{render_list, render_set};
use crate::evaluation::{confidence_name, scope_name, status_name, failure_text, FailureText, failure_views, EvalCase, EvalCaseResult, EvalCounters, EvalExpect};
use crate::kernel::{profile_name, profile_named, KernelProfile};
use crate::order::lemma_same_elements;
use crate::repo_graph::builder::{inspection_evidence_ok, known_id};
use crate::repo_graph::impact::{expected_workspaces, impact_result, workspace_views};
use crate::repo_graph::impact_deps::{depends_on, dist0, next_distance, transitive_entry_ok};
use crate::repo_graph::impact_map::has_entry;
use crate::repo_graph::impact_roots::{root_entry_ok, single_ids};
use crate::repo_graph::recommend::{command_views, expected_commands, expected_tests, test_views};
use crate::repo_graph::types::{
    Component, DetectionIssue, ImpactConfidence, ImpactStatus, RecommendedCommand, RecommendedTest, opt_text, evidence_id_set, ids_backed, ImpactKind, ImpactReport, ImpactScope, RepoCommandKind, ImpactedComponent, RepoCommand, RepoInspection, TestTarget, Workspace,
};
use crate::source_evidence::bundle::repo_evidence_ok;
use crate::textset::{lemma_strictly_sorted_unique, nonempty_texts, views};
use crate::repo_graph::inspect::{inspected_views, lemma_detected_views_unique};
use crate::repo_graph::impact_roots::{is_broad_file, normalized_views};
use crate::repo_graph::snapshot::RepoSnapshot;
use crate::symbol_graph::syntax::{item_symbol, SyntaxItem};
use crate::symbol_graph::SymbolKind;
use crate::text::trim_ws;
use vstd::utf8::decode_utf8;
use crate::repo_graph::manifest_text::command_kind_for_target;
use crate::lsp_bridge::builder::LspDiagnosticsBuilder;
use crate::lsp_bridge::session::{accepted_files, file_verdict, rejected_files, warned_for, LspFileProbe};
use crate::lsp_bridge::LspWarningCategory;
use crate::source_context::builder::{escapes_root, has_ignored_part};
use crate::text::{decimal, slashes};

verus! {

// ---------------------------------------------------------------------------
// Determinism
// ---------------------------------------------------------------------------

/// Inspecting the same snapshot twice gives the same components, commands and test
/// targets (each in the order of identifiers, so as multisets of their views).
pub proof fn inspection_is_deterministic(s: RepoSnapshot, g1: RepoInspection, g2: RepoInspection)
    requires
        inspected_views(s, g1),
        inspected_views(s, g2),
    ensures
        crate::repo_graph::builder::component_views(g1.components@).to_multiset()
            == crate::repo_graph::builder::component_views(g2.components@).to_multiset(),
        crate::repo_graph::builder::command_views(g1.commands@).to_multiset()
            == crate::repo_graph::builder::command_views(g2.commands@).to_multiset(),
        crate::repo_graph::builder::test_views(g1.tests@).to_multiset() == crate::repo_graph::builder::test_views(g2.tests@).to_multiset(),
{
    let (cv1, mv1, tv1) = choose|cv: Seq<(Seq<char>, Seq<char>, Seq<char>, Seq<char>, Seq<Seq<char>>)>, mv: Seq<(Seq<char>, crate::repo_graph::types::RepoCommandKind, Seq<char>, Seq<char>, Option<Seq<char>>, u32)>, tv: Seq<(Seq<char>, Seq<char>, Seq<char>, Seq<char>, Option<Seq<char>>, u32)>|
        #[trigger] crate::repo_graph::inspect::detected_views(s, cv, mv, tv)
            && crate::repo_graph::builder::component_views(g1.components@).to_multiset() == cv.to_multiset()
            && crate::repo_graph::builder::command_views(g1.commands@).to_multiset() == mv.to_multiset()
            && crate::repo_graph::builder::test_views(g1.tests@).to_multiset() == tv.to_multiset();
    let (cv2, mv2, tv2) = choose|cv: Seq<(Seq<char>, Seq<char>, Seq<char>, Seq<char>, Seq<Seq<char>>)>, mv: Seq<(Seq<char>, crate::repo_graph::types::RepoCommandKind, Seq<char>, Seq<char>, Option<Seq<char>>, u32)>, tv: Seq<(Seq<char>, Seq<char>, Seq<char>, Seq<char>, Option<Seq<char>>, u32)>|
        #[trigger] crate::repo_graph::inspect::detected_views(s, cv, mv, tv)
            && crate::repo_graph::builder::component_views(g2.components@).to_multiset() == cv.to_multiset()
            && crate::repo_graph::builder::command_views(g2.commands@).to_multiset() == mv.to_multiset()
            && crate::repo_graph::builder::test_views(g2.tests@).to_multiset() == tv.to_multiset();
    lemma_detected_views_unique(s, cv1, mv1, tv1, cv2, mv2, tv2);
}

/// Two changes whose paths normalize to the same set give impact reports with the
/// same changed files and the same limitations.
pub proof fn impact_changed_files_follow_normalized_set(g: RepoInspection, c1: Seq<String>, c2: Seq<String>, r1: ImpactReport, r2: ImpactReport)
    requires
        impact_result(g, c1, r1),
        impact_result(g, c2, r2),
        nonempty_texts(normalized_views(c1)) == nonempty_texts(normalized_views(c2)),
    ensures
        views(r1.changed_files@) == views(r2.changed_files@),
        views(r1.limitations@) == views(r2.limitations@),
{
    lemma_strictly_sorted_unique(views(r1.changed_files@), views(r2.changed_files@));
}

// ---------------------------------------------------------------------------
// Evidence
// ---------------------------------------------------------------------------

/// Every fact of an inspection whose facts rest on evidence also passes the
/// evaluator's evidence check.
pub proof fn inspection_passes_evidence_check(g: RepoInspection)
    requires
        inspection_evidence_ok(g),
    ensures
        inspect_facts_backed(g),
{
}

/// An inspection whose facts rest on evidence is one that source evidence bundles
/// may be built on: its components, workspaces, commands, tests and relationships
/// each name a non-empty evidence identifier the inspection holds.
pub proof fn inspection_backs_source_evidence(g: RepoInspection)
    requires
        inspection_evidence_ok(g),
    ensures
        repo_evidence_ok(g),
{
    let known = evidence_id_set(g.evidence@);
    assert forall|j: int| 0 <= j < g.components@.len() implies (#[trigger] g.components@[j]).evidence_id@.len() > 0 && known.contains(g.components@[j].evidence_id@) by {
        assert(known_id(known, g.components@[j].evidence_id));
    }
    assert forall|j: int| 0 <= j < g.workspaces@.len() implies (#[trigger] g.workspaces@[j]).evidence_id@.len() > 0 && known.contains(g.workspaces@[j].evidence_id@) by {
        assert(known_id(known, g.workspaces@[j].evidence_id));
    }
    assert forall|j: int| 0 <= j < g.commands@.len() implies (#[trigger] g.commands@[j]).evidence_id@.len() > 0 && known.contains(g.commands@[j].evidence_id@) by {
        assert(known_id(known, g.commands@[j].evidence_id));
    }
    assert forall|j: int| 0 <= j < g.tests@.len() implies (#[trigger] g.tests@[j]).evidence_id@.len() > 0 && known.contains(g.tests@[j].evidence_id@) by {
        assert(known_id(known, g.tests@[j].evidence_id));
    }
    assert forall|j: int| 0 <= j < g.relationships@.len() implies (#[trigger] g.relationships@[j]).evidence_id@.len() > 0 && known.contains(g.relationships@[j].evidence_id@) by {
        assert(known_id(known, g.relationships@[j].evidence_id));
    }
}

proof fn lemma_single_backed(ids: Seq<String>, x: Seq<char>, known: Set<Seq<char>>)
    requires
        views(ids) == single_ids(x),
        x.len() > 0,
        known.contains(x),
    ensures
        ids_backed(ids, known),
{
    assert(views(ids).len() == 1);
    assert(views(ids)[0] == ids[0]@);
}

proof fn lemma_workspace_sources(g: RepoInspection, ws: Seq<Workspace>, comps: Seq<ImpactedComponent>, broad: bool)
    ensures
        forall|i: int| 0 <= i < expected_workspaces(g, ws, comps, broad).len() ==> exists|j: int|
            0 <= j < ws.len() && (#[trigger] expected_workspaces(g, ws, comps, broad)[i]).5 == single_ids(ws[j].evidence_id@),
    decreases ws.len(),
{
    if ws.len() > 0 {
        lemma_workspace_sources(g, ws.drop_last(), comps, broad);
        let prev = expected_workspaces(g, ws.drop_last(), comps, broad);
        let cur = expected_workspaces(g, ws, comps, broad);
        assert forall|i: int| 0 <= i < cur.len() implies exists|j: int|
            0 <= j < ws.len() && (#[trigger] cur[i]).5 == single_ids(ws[j].evidence_id@) by {
            if i < prev.len() {
                assert(cur[i] == prev[i]);
                let j = choose|j: int| 0 <= j < ws.drop_last().len() && prev[i].5 == single_ids(ws.drop_last()[j].evidence_id@);
                assert(ws[j] == ws.drop_last()[j]);
            } else {
                assert(cur[i].5 == single_ids(ws[ws.len() - 1].evidence_id@));
            }
        }
    }
}

proof fn lemma_test_sources(tests: Seq<TestTarget>, files: Seq<String>, comps: Seq<ImpactedComponent>, broad: bool)
    ensures
        forall|i: int| 0 <= i < expected_tests(tests, files, comps, broad).len() ==> exists|j: int|
            0 <= j < tests.len() && (#[trigger] expected_tests(tests, files, comps, broad)[i]).6 == single_ids(tests[j].evidence_id@),
    decreases tests.len(),
{
    if tests.len() > 0 {
        lemma_test_sources(tests.drop_last(), files, comps, broad);
        let prev = expected_tests(tests.drop_last(), files, comps, broad);
        let cur = expected_tests(tests, files, comps, broad);
        assert forall|i: int| 0 <= i < cur.len() implies exists|j: int|
            0 <= j < tests.len() && (#[trigger] cur[i]).6 == single_ids(tests[j].evidence_id@) by {
            if i < prev.len() {
                assert(cur[i] == prev[i]);
                let j = choose|j: int| 0 <= j < tests.drop_last().len() && prev[i].6 == single_ids(tests.drop_last()[j].evidence_id@);
                assert(tests[j] == tests.drop_last()[j]);
            } else {
                assert(cur[i].6 == single_ids(tests[tests.len() - 1].evidence_id@));
            }
        }
    }
}

proof fn lemma_command_sources(cmds: Seq<RepoCommand>, comps: Seq<ImpactedComponent>, broad: bool, has_tests: bool)
    ensures
        forall|i: int| 0 <= i < expected_commands(cmds, comps, broad, has_tests).len() ==> exists|j: int|
            0 <= j < cmds.len() && (#[trigger] expected_commands(cmds, comps, broad, has_tests)[i]).7 == single_ids(cmds[j].evidence_id@),
    decreases cmds.len(),
{
    if cmds.len() > 0 {
        lemma_command_sources(cmds.drop_last(), comps, broad, has_tests);
        let prev = expected_commands(cmds.drop_last(), comps, broad, has_tests);
        let cur = expected_commands(cmds, comps, broad, has_tests);
        assert forall|i: int| 0 <= i < cur.len() implies exists|j: int|
            0 <= j < cmds.len() && (#[trigger] cur[i]).7 == single_ids(cmds[j].evidence_id@) by {
            if i < prev.len() {
                assert(cur[i] == prev[i]);
                let j = choose|j: int| 0 <= j < cmds.drop_last().len() && prev[i].7 == single_ids(cmds.drop_last()[j].evidence_id@);
                assert(cmds[j] == cmds.drop_last()[j]);
            } else {
                assert(cur[i].7 == single_ids(cmds[cmds.len() - 1].evidence_id@));
            }
        }
    }
}

proof fn lemma_components_backed(g: RepoInspection, r: ImpactReport)
    requires
        inspection_evidence_ok(g),
        r.evidence@ == g.evidence@,
        forall|i: int|
            0 <= i < r.impacted_components@.len() ==> root_entry_ok(g, views(r.changed_files@), #[trigger] r.impacted_components@[i], views(r.changed_files@).len() as int, 0)
                || transitive_entry_ok(g, r.impacted_components@, r.impacted_components@[i]),
    ensures
        forall|i: int| 0 <= i < r.impacted_components@.len() ==> ids_backed((#[trigger] r.impacted_components@[i]).evidence_ids@, evidence_id_set(r.evidence@)),
{
    let known = evidence_id_set(r.evidence@);
    let files = views(r.changed_files@);
    let comps = r.impacted_components@;
    assert forall|i: int| 0 <= i < comps.len() implies ids_backed((#[trigger] comps[i]).evidence_ids@, known) by {
        let e = comps[i];
        if root_entry_ok(g, files, e, files.len() as int, 0) {
            let (k, j) = choose|k: int, j: int|
                #![trigger g.components@[j], files[k]]
                (crate::repo_graph::impact_roots::pair_before(k, j, files.len() as int, 0)
                    && crate::repo_graph::impact_roots::direct_entry_from(g, files, e, k, j))
                || (crate::repo_graph::impact_roots::pair_before(k, j, files.len() as int, 0)
                    && crate::repo_graph::impact_roots::broad_entry_from(g, files, e, k, j));
            assert(known_id(known, g.components@[j].evidence_id));
            lemma_single_backed(e.evidence_ids@, g.components@[j].evidence_id@, known);
        } else {
            lemma_transitive_backed(g, comps, e, known);
        }
    }
}

proof fn lemma_transitive_backed(g: RepoInspection, comps: Seq<ImpactedComponent>, e: ImpactedComponent, known: Set<Seq<char>>)
    requires
        inspection_evidence_ok(g),
        known == evidence_id_set(g.evidence@),
        transitive_entry_ok(g, comps, e),
    ensures
        ids_backed(e.evidence_ids@, known),
{
    let (j, rr) = choose|j: int, rr: int|
        #![trigger g.components@[j], g.relationships@[rr]]
        0 <= j < g.components@.len() && crate::repo_graph::impact_deps::depends_on(g, rr) && g.components@[j].id == e.component_id
            && e.name == g.components@[j].name && e.kind == g.components@[j].kind && e.path
            == g.components@[j].path && g.relationships@[rr].src_id@ == e.component_id@
            && crate::textset::is_id_set_of(
            views(e.evidence_ids@),
            seq![g.components@[j].evidence_id@, g.relationships@[rr].evidence_id@],
        ) && exists|p: ImpactedComponent|
            crate::repo_graph::impact_map::has_entry(comps, g.relationships@[rr].dst_id@, p) && e.distance == Some(
                crate::repo_graph::impact_deps::next_distance(crate::repo_graph::impact_deps::dist0(p)) as u32,
            );
    let ce = g.components@[j].evidence_id@;
    let re = g.relationships@[rr].evidence_id@;
    assert(known_id(known, g.components@[j].evidence_id));
    assert(0 <= rr < g.relationships@.len());
    assert(known_id(known, g.relationships@[rr].evidence_id));
    let v = views(e.evidence_ids@);
    assert(nonempty_texts(seq![ce, re]).contains(ce)) by {
        assert(seq![ce, re][0] == ce);
    }
    assert(v.to_set().contains(ce));
    assert forall|t: int| 0 <= t < e.evidence_ids@.len() implies known.contains(#[trigger] e.evidence_ids@[t]@) by {
        assert(v[t] == e.evidence_ids@[t]@);
        assert(v.to_set().contains(v[t]));
        assert(seq![ce, re].to_set().contains(v[t]));
        let q = choose|q: int| 0 <= q < 2 && seq![ce, re][q] == v[t];
    }
}

proof fn lemma_workspaces_backed(g: RepoInspection, r: ImpactReport, broad: bool)
    requires
        inspection_evidence_ok(g),
        r.evidence@ == g.evidence@,
        workspace_views(r.impacted_workspaces@).to_multiset() == expected_workspaces(g, g.workspaces@, r.impacted_components@, broad).to_multiset(),
    ensures
        forall|i: int| 0 <= i < r.impacted_workspaces@.len() ==> ids_backed((#[trigger] r.impacted_workspaces@[i]).evidence_ids@, evidence_id_set(r.evidence@)),
{
    let known = evidence_id_set(r.evidence@);
    let comps = r.impacted_components@;
    lemma_workspace_sources(g, g.workspaces@, comps, broad);
    lemma_same_elements(workspace_views(r.impacted_workspaces@), expected_workspaces(g, g.workspaces@, comps, broad));
    assert forall|i: int| 0 <= i < r.impacted_workspaces@.len() implies ids_backed((#[trigger] r.impacted_workspaces@[i]).evidence_ids@, known) by {
        let wv = workspace_views(r.impacted_workspaces@)[i];
        assert(workspace_views(r.impacted_workspaces@).contains(wv));
        let ex = expected_workspaces(g, g.workspaces@, comps, broad);
        let k = choose|k: int| 0 <= k < ex.len() && ex[k] == wv;
        assert(ex[k] == wv);
        let j = choose|j: int| 0 <= j < g.workspaces@.len() && (#[trigger] ex[k]).5 == single_ids(g.workspaces@[j].evidence_id@);
        assert(known_id(known, g.workspaces@[j].evidence_id));
        lemma_single_backed(r.impacted_workspaces@[i].evidence_ids@, g.workspaces@[j].evidence_id@, known);
    }
}

proof fn lemma_tests_backed(g: RepoInspection, r: ImpactReport, broad: bool)
    requires
        inspection_evidence_ok(g),
        r.evidence@ == g.evidence@,
        test_views(r.recommended_tests@).to_multiset() == expected_tests(g.tests@, r.changed_files@, r.impacted_components@, broad).to_multiset(),
    ensures
        forall|i: int| 0 <= i < r.recommended_tests@.len() ==> ids_backed((#[trigger] r.recommended_tests@[i]).evidence_ids@, evidence_id_set(r.evidence@)),
{
    let known = evidence_id_set(r.evidence@);
    let comps = r.impacted_components@;
    lemma_test_sources(g.tests@, r.changed_files@, comps, broad);
    lemma_same_elements(test_views(r.recommended_tests@), expected_tests(g.tests@, r.changed_files@, comps, broad));
    assert forall|i: int| 0 <= i < r.recommended_tests@.len() implies ids_backed((#[trigger] r.recommended_tests@[i]).evidence_ids@, known) by {
        let tv = test_views(r.recommended_tests@)[i];
        assert(test_views(r.recommended_tests@).contains(tv));
        let ex = expected_tests(g.tests@, r.changed_files@, comps, broad);
        let k = choose|k: int| 0 <= k < ex.len() && ex[k] == tv;
        assert(ex[k] == tv);
        let j = choose|j: int| 0 <= j < g.tests@.len() && (#[trigger] ex[k]).6 == single_ids(g.tests@[j].evidence_id@);
        assert(known_id(known, g.tests@[j].evidence_id));
        lemma_single_backed(r.recommended_tests@[i].evidence_ids@, g.tests@[j].evidence_id@, known);
    }
}

proof fn lemma_commands_backed(g: RepoInspection, r: ImpactReport, broad: bool, has_tests: bool)
    requires
        inspection_evidence_ok(g),
        r.evidence@ == g.evidence@,
        command_views(r.recommended_commands@).to_multiset() == expected_commands(g.commands@, r.impacted_components@, broad, has_tests).to_multiset(),
    ensures
        forall|i: int| 0 <= i < r.recommended_commands@.len() ==> ids_backed((#[trigger] r.recommended_commands@[i]).evidence_ids@, evidence_id_set(r.evidence@)),
{
    let known = evidence_id_set(r.evidence@);
    let comps = r.impacted_components@;
    lemma_command_sources(g.commands@, comps, broad, has_tests);
    lemma_same_elements(command_views(r.recommended_commands@), expected_commands(g.commands@, comps, broad, has_tests));
    assert forall|i: int| 0 <= i < r.recommended_commands@.len() implies ids_backed((#[trigger] r.recommended_commands@[i]).evidence_ids@, known) by {
        let cv = command_views(r.recommended_commands@)[i];
        assert(command_views(r.recommended_commands@).contains(cv));
        let ex = expected_commands(g.commands@, comps, broad, has_tests);
        let k = choose|k: int| 0 <= k < ex.len() && ex[k] == cv;
        assert(ex[k] == cv);
        let j = choose|j: int| 0 <= j < g.commands@.len() && (#[trigger] ex[k]).7 == single_ids(g.commands@[j].evidence_id@);
        assert(known_id(known, g.commands@[j].evidence_id));
        lemma_single_backed(r.recommended_commands@[i].evidence_ids@, g.commands@[j].evidence_id@, known);
    }
}

/// Every impacted component and workspace and every recommended command and test of
/// an impact report rests on evidence that the report holds, when the inspection it
/// was computed from rests on evidence.
pub proof fn impact_facts_rest_on_evidence(g: RepoInspection, changed: Seq<String>, r: ImpactReport)
    requires
        inspection_evidence_ok(g),
        impact_result(g, changed, r),
    ensures
        impact_facts_backed(r),
{
    let broad = crate::repo_graph::impact::broad_change(g, views(r.changed_files@));
    lemma_components_backed(g, r);
    lemma_workspaces_backed(g, r, broad);
    lemma_tests_backed(g, r, broad);
    lemma_commands_backed(g, r, broad, r.recommended_tests@.len() > 0);
}

// ---------------------------------------------------------------------------
// Impact distances
// ---------------------------------------------------------------------------

/// A component impacted through dependencies is one step further away than some
/// impacted component it depends on, and no more than one step further away than
/// any of them: its distance is the shortest.
pub proof fn transitive_distance_is_shortest(g: RepoInspection, changed: Seq<String>, r: ImpactReport, e: ImpactedComponent)
    requires
        impact_result(g, changed, r),
        r.impacted_components@.contains(e),
        e.impact_kind == ImpactKind::Transitive,
    ensures
        exists|rel: int, p: ImpactedComponent|
            #![trigger g.relationships@[rel], has_entry(r.impacted_components@, g.relationships@[rel].dst_id@, p)]
            depends_on(g, rel) && g.relationships@[rel].src_id@ == e.component_id@ && has_entry(
                r.impacted_components@,
                g.relationships@[rel].dst_id@,
                p,
            ) && dist0(e) == next_distance(dist0(p)),
        forall|rel: int, p: ImpactedComponent|
            #![trigger g.relationships@[rel], has_entry(r.impacted_components@, g.relationships@[rel].dst_id@, p)]
            depends_on(g, rel) && g.relationships@[rel].src_id@ == e.component_id@ && has_entry(
                r.impacted_components@,
                g.relationships@[rel].dst_id@,
                p,
            ) ==> dist0(e) <= next_distance(dist0(p)),
{
    let comps = r.impacted_components@;
    let files = views(r.changed_files@);
    let i = choose|i: int| 0 <= i < comps.len() && comps[i] == e;
    assert(has_entry(comps, e.component_id@, e));
    if root_entry_ok(g, files, comps[i], files.len() as int, 0) {
        assert(false);
    }
    assert(transitive_entry_ok(g, comps, e));
    let (j, rel) = choose|j: int, rel: int|
        #![trigger g.components@[j], g.relationships@[rel]]
        0 <= j < g.components@.len() && depends_on(g, rel) && g.components@[j].id == e.component_id
            && e.name == g.components@[j].name && e.kind == g.components@[j].kind && e.path
            == g.components@[j].path && g.relationships@[rel].src_id@ == e.component_id@
            && crate::textset::is_id_set_of(
            views(e.evidence_ids@),
            seq![g.components@[j].evidence_id@, g.relationships@[rel].evidence_id@],
        ) && exists|p: ImpactedComponent|
            has_entry(comps, g.relationships@[rel].dst_id@, p) && e.distance == Some(next_distance(dist0(p)) as u32);
    let p = choose|p: ImpactedComponent| has_entry(comps, g.relationships@[rel].dst_id@, p) && e.distance == Some(next_distance(dist0(p)) as u32);
    assert(dist0(p) <= u32::MAX) by {
        let w = choose|w: int| 0 <= w < comps.len() && comps[w] == p && comps[w].component_id@ == g.relationships@[rel].dst_id@;
    }
    assert(dist0(e) == next_distance(dist0(p)));
}

// ---------------------------------------------------------------------------
// Profiles
// ---------------------------------------------------------------------------

/// Parsing the name of a profile gives that profile back.
pub proof fn profile_name_round_trip(p: KernelProfile)
    ensures
        profile_named(profile_name(p)) == Some(p),
{
    reveal_strlit("strict");
    reveal_strlit("standard");
    reveal_strlit("prototype");
    reveal_strlit("research");
    reveal_strlit("custom");
    assert("standard"@.len() != "strict"@.len());
    assert("prototype"@.len() != "strict"@.len() && "prototype"@.len() != "standard"@.len());
    assert("research"@.len() != "strict"@.len() && "research"@[0] != "standard"@[0] && "research"@.len() != "prototype"@.len());
    assert("custom"@[0] != "strict"@[0] && "custom"@.len() != "standard"@.len() && "custom"@.len() != "prototype"@.len());
    assert("custom"@.len() != "research"@.len());
}

// ---------------------------------------------------------------------------
// Evaluation
// ---------------------------------------------------------------------------

/// An expectation that asks for nothing.
pub open spec fn expects_nothing(e: EvalExpect) -> bool {
    &&& e.status is None
    &&& e.confidence is None
    &&& e.impact_scope is None
    &&& e.components_contains@.len() == 0
    &&& e.commands_contains@.len() == 0
    &&& e.tests_contains@.len() == 0
    &&& e.warnings_contains_categories@.len() == 0
    &&& e.warnings_not_contains_categories@.len() == 0
    &&& e.forbidden_components_contains@.len() == 0
    &&& e.forbidden_commands_contains@.len() == 0
    &&& e.forbidden_tests_contains@.len() == 0
    &&& e.max_impacted_components is None
}

/// An inspect case that expects nothing passes when its runs agreed and its
/// inspection rests on evidence.
pub proof fn plain_inspect_case_passes(
    case: EvalCase,
    graph: RepoInspection,
    before: EvalCounters,
    after: EvalCounters,
    r: EvalCaseResult,
)
    requires
        expects_nothing(case.expect),
        inspection_evidence_ok(graph),
        case_result_ok(before, after, case, CaseRun { output: CaseOutput::Inspect { graph }, deterministic: true }, r),
    ensures
        r.passed,
        r.failures@.len() == 0,
{
    let run = CaseRun { output: CaseOutput::Inspect { graph }, deterministic: true };
    let cats = choose|cats: Seq<Seq<char>>| #[trigger] category_set_of(cats, run_warnings(run))
        && state_of(after, r.failures@) == case_effect(state_of(before, Seq::empty()), case, run, cats);
    let n = case.name@;
    let e = case.expect;
    let s0 = state_of(before, Seq::empty());
    let s1 = deterministic_effect(s0, n, true);
    assert(s1.failures == s0.failures);
    let s2 = evidence_effect(s1, n, "inspect"@, inspect_facts_backed(graph));
    assert(inspect_facts_backed(graph));
    assert(s2.failures == s1.failures);
    assert(views(e.components_contains@) =~= Seq::<Seq<char>>::empty());
    assert(views(e.commands_contains@) =~= Seq::<Seq<char>>::empty());
    assert(views(e.tests_contains@) =~= Seq::<Seq<char>>::empty());
    assert(views(e.warnings_contains_categories@) =~= Seq::<Seq<char>>::empty());
    assert(views(e.warnings_not_contains_categories@) =~= Seq::<Seq<char>>::empty());
    assert(views(e.forbidden_components_contains@) =~= Seq::<Seq<char>>::empty());
    assert(views(e.forbidden_commands_contains@) =~= Seq::<Seq<char>>::empty());
    assert(views(e.forbidden_tests_contains@) =~= Seq::<Seq<char>>::empty());
    assert(inspect_expect_effect(s2, case, graph, cats).failures == s2.failures);
    assert(failure_views(r.failures@).len() == 0);
}

// ---------------------------------------------------------------------------
// What single operations are for
// ---------------------------------------------------------------------------

/// The scope of an impact report follows from what changed and how components were
/// impacted: broad when some changed file is a manifest or build file; otherwise
/// unknown when nothing is impacted, mixed when some component is impacted only
/// through a dependency, and targeted when every impacted component was matched
/// directly.
pub proof fn impact_scope_follows_impact_kinds(g: RepoInspection, changed: Seq<String>, r: ImpactReport)
    requires
        impact_result(g, changed, r),
    ensures
        ({
            let files = views(r.changed_files@);
            let comps = r.impacted_components@;
            let broad = exists|k: int| 0 <= k < files.len() && is_broad_file(g, #[trigger] files[k]);
            &&& broad ==> r.impact_scope == ImpactScope::Broad
            &&& !broad && comps.len() == 0 ==> r.impact_scope == ImpactScope::Unknown
            &&& !broad && (exists|i: int| 0 <= i < comps.len() && (#[trigger] comps[i]).impact_kind == ImpactKind::Transitive)
                ==> r.impact_scope == ImpactScope::Mixed
            &&& !broad && comps.len() > 0 && (forall|i: int| 0 <= i < comps.len() ==> (#[trigger] comps[i]).impact_kind != ImpactKind::Transitive)
                ==> r.impact_scope == ImpactScope::Targeted
        }),
{
}

/// The status and confidence of an impact report follow from what it found: it has
/// insufficient evidence, and insufficient confidence, exactly when it impacts no
/// component or workspace and recommends no command or test, and is partial
/// otherwise; a partial report is of high confidence when some recommended command
/// or test is, of medium confidence when some component was impacted directly or
/// through a dependency, and of low confidence otherwise.
pub proof fn impact_status_and_confidence_follow_findings(g: RepoInspection, changed: Seq<String>, r: ImpactReport)
    requires
        impact_result(g, changed, r),
    ensures
        ({
            let found = r.impacted_components@.len() > 0 || r.impacted_workspaces@.len() > 0 || r.recommended_commands@.len() > 0
                || r.recommended_tests@.len() > 0;
            let high = (exists|i: int| 0 <= i < r.recommended_commands@.len() && (#[trigger] r.recommended_commands@[i]).confidence == ImpactConfidence::High)
                || (exists|i: int| 0 <= i < r.recommended_tests@.len() && (#[trigger] r.recommended_tests@[i]).confidence == ImpactConfidence::High);
            let traced = exists|i: int|
                0 <= i < r.impacted_components@.len() && ((#[trigger] r.impacted_components@[i]).impact_kind == ImpactKind::Direct
                    || r.impacted_components@[i].impact_kind == ImpactKind::Transitive);
            &&& !found ==> r.status == ImpactStatus::InsufficientEvidence && r.confidence == ImpactConfidence::Insufficient
            &&& found ==> r.status == ImpactStatus::Partial
            &&& found && high ==> r.confidence == ImpactConfidence::High
            &&& found && !high && traced ==> r.confidence == ImpactConfidence::Medium
            &&& found && !high && !traced ==> r.confidence == ImpactConfidence::Low
        }),
{
}

/// A symbol's range spans its whole item: it starts and ends where the parsed item
/// starts and ends, with lines counted from one, so an item over several lines gives
/// a range over as many lines.
pub proof fn symbol_range_spans_its_item(item: SyntaxItem, bytes: Seq<u8>)
    ensures
        match item_symbol(item, bytes) {
            Some((_, _, range)) => {
                &&& range.start_byte == item.start_byte && range.end_byte == item.end_byte
                &&& range.start_line == item.start_row + 1 && range.start_column == item.start_column
                &&& range.end_line == item.end_row + 1 && range.end_column == item.end_column
                &&& range.end_line - range.start_line == item.end_row - item.start_row
            },
            None => true,
        },
{
}

/// The conventional names of build-file targets that stand for a kind of command.
pub open spec fn conventional_target_names(k: RepoCommandKind) -> Set<Seq<char>> {
    match k {
        RepoCommandKind::Test => set!["test"@],
        RepoCommandKind::Check => set!["check"@],
        RepoCommandKind::Build => set!["build"@],
        RepoCommandKind::Lint => set!["lint"@],
        RepoCommandKind::Format => set!["fmt"@, "format"@],
        RepoCommandKind::Typecheck => Set::empty(),
        RepoCommandKind::Other => Set::empty(),
    }
}

/// A build-file target gives a command of a kind exactly when its name is one of
/// that kind's conventional names; so two targets give the same kind only when they
/// are the same name or both name formatting.
pub proof fn target_kinds_follow_their_names(t: Seq<char>, u: Seq<char>, k: RepoCommandKind)
    ensures
        command_kind_for_target(t) == Some(k) <==> conventional_target_names(k).contains(t),
        command_kind_for_target(t) is Some && command_kind_for_target(t) == command_kind_for_target(u) ==> t == u
            || (conventional_target_names(RepoCommandKind::Format).contains(t)
            && conventional_target_names(RepoCommandKind::Format).contains(u)),
{
    reveal_strlit("test");
    reveal_strlit("check");
    reveal_strlit("build");
    reveal_strlit("lint");
    reveal_strlit("fmt");
    reveal_strlit("format");
    assert("test"@[0] == 't' && "check"@[0] == 'c' && "build"@[0] == 'b' && "lint"@[0] == 'l');
    assert("fmt"@[0] == 'f' && "format"@[0] == 'f' && "fmt"@.len() != "format"@.len());
    assert("test"@ != "check"@ && "test"@ != "build"@ && "test"@ != "lint"@ && "test"@ != "fmt"@ && "test"@ != "format"@);
    assert("check"@ != "build"@ && "check"@ != "lint"@ && "check"@ != "fmt"@ && "check"@ != "format"@);
    assert("build"@ != "lint"@ && "build"@ != "fmt"@ && "build"@ != "format"@);
    assert("lint"@ != "fmt"@ && "lint"@ != "format"@ && "fmt"@ != "format"@);
}

/// Checks only add failures.
proof fn lemma_items_effect_keeps(
    st: EvalState,
    name: Seq<char>,
    field: Seq<char>,
    items: Seq<Seq<char>>,
    pool: Seq<Seq<char>>,
    rendered: Seq<char>,
    want_present: bool,
    which: Tally,
    category: Seq<char>,
)
    ensures
        forall|ft: FailureText| #[trigger] st.failures.contains(ft) ==> items_effect(
            st,
            name,
            field,
            items,
            pool,
            rendered,
            want_present,
            which,
            category,
        ).failures.contains(ft),
    decreases items.len(),
{
    if items.len() > 0 {
        lemma_items_effect_keeps(st, name, field, items.drop_last(), pool, rendered, want_present, which, category);
        let s0 = items_effect(st, name, field, items.drop_last(), pool, rendered, want_present, which, category);
        let s1 = items_effect(st, name, field, items, pool, rendered, want_present, which, category);
        assert forall|ft: FailureText| #[trigger] st.failures.contains(ft) implies s1.failures.contains(ft) by {
            assert(s0.failures.contains(ft));
            let j = choose|j: int| 0 <= j < s0.failures.len() && s0.failures[j] == ft;
            assert(s1.failures[j] == ft);
        }
    }
}

/// A check of a listed item that is present where it should be absent, or absent
/// where it should be present, records a failure for it.
proof fn lemma_items_effect_flags(
    st: EvalState,
    name: Seq<char>,
    field: Seq<char>,
    items: Seq<Seq<char>>,
    pool: Seq<Seq<char>>,
    rendered: Seq<char>,
    want_present: bool,
    which: Tally,
    category: Seq<char>,
    x: Seq<char>,
)
    requires
        items.contains(x),
        pool.contains(x) != want_present,
    ensures
        items_effect(st, name, field, items, pool, rendered, want_present, which, category).failures.contains(
            failure_text(name, field, if want_present { x } else { "not "@ + x }, rendered, category),
        ),
    decreases items.len(),
{
    let s0 = items_effect(st, name, field, items.drop_last(), pool, rendered, want_present, which, category);
    let s1 = items_effect(st, name, field, items, pool, rendered, want_present, which, category);
    let ft = failure_text(name, field, if want_present { x } else { "not "@ + x }, rendered, category);
    if items.last() == x {
        assert(s1.failures == s0.failures.push(ft));
        assert(s1.failures[s1.failures.len() - 1] == ft);
    } else {
        let k = choose|k: int| 0 <= k < items.len() && items[k] == x;
        assert(items.drop_last()[k] == x);
        lemma_items_effect_flags(st, name, field, items.drop_last(), pool, rendered, want_present, which, category, x);
        let j = choose|j: int| 0 <= j < s0.failures.len() && s0.failures[j] == ft;
        assert(s1.failures[j] == ft);
    }
}

/// What the list checks of an expectation record: a false-narrow failure for each
/// required name missing from its list, a false-broad failure for each forbidden
/// name present in it.
proof fn lemma_lists_flag(
    st: EvalState,
    n: Seq<char>,
    e: EvalExpect,
    comps: Seq<Seq<char>>,
    cmds: Seq<Seq<char>>,
    tests: Seq<Seq<char>>,
    cats: Seq<Seq<char>>,
    fields: Seq<Seq<char>>,
)
    ensures
        ({
            let out = lists_effect(st, n, e, comps, cmds, tests, cats, fields).failures;
            &&& forall|x: Seq<char>| #[trigger] views(e.components_contains@).contains(x) && !comps.contains(x) ==> out.contains(
                failure_text(n, fields[0], x, render_list(comps), "false_narrow"@),
            )
            &&& forall|x: Seq<char>| #[trigger] views(e.commands_contains@).contains(x) && !cmds.contains(x) ==> out.contains(
                failure_text(n, fields[1], x, render_list(cmds), "false_narrow"@),
            )
            &&& forall|x: Seq<char>| #[trigger] views(e.tests_contains@).contains(x) && !tests.contains(x) ==> out.contains(
                failure_text(n, fields[2], x, render_list(tests), "false_narrow"@),
            )
            &&& forall|x: Seq<char>| #[trigger] views(e.forbidden_components_contains@).contains(x) && comps.contains(x) ==> out.contains(
                failure_text(n, fields[3], "not "@ + x, render_list(comps), "false_broad"@),
            )
            &&& forall|x: Seq<char>| #[trigger] views(e.forbidden_commands_contains@).contains(x) && cmds.contains(x) ==> out.contains(
                failure_text(n, fields[4], "not "@ + x, render_list(cmds), "false_broad"@),
            )
            &&& forall|x: Seq<char>| #[trigger] views(e.forbidden_tests_contains@).contains(x) && tests.contains(x) ==> out.contains(
                failure_text(n, fields[5], "not "@ + x, render_list(tests), "false_broad"@),
            )
            &&& forall|c: Seq<char>| #[trigger] views(e.warnings_contains_categories@).contains(c) && !cats.contains(c) ==> out.contains(
                failure_text(n, "warnings_contains_categories"@, c, render_set(cats), "missing_expected_warning"@),
            )
            &&& forall|c: Seq<char>| #[trigger] views(e.warnings_not_contains_categories@).contains(c) && cats.contains(c) ==> out.contains(
                failure_text(n, "warnings_not_contains_categories"@, "not "@ + c, render_set(cats), "unexpected_warning"@),
            )
        }),
{
    let nw = "false_narrow"@;
    let bw = "false_broad"@;
    let i1 = views(e.components_contains@);
    let i2 = views(e.commands_contains@);
    let i3 = views(e.tests_contains@);
    let i5 = views(e.forbidden_components_contains@);
    let i6 = views(e.forbidden_commands_contains@);
    let i7 = views(e.forbidden_tests_contains@);
    let s1 = items_effect(st, n, fields[0], i1, comps, render_list(comps), true, Tally::Narrow, nw);
    let s2 = items_effect(s1, n, fields[1], i2, cmds, render_list(cmds), true, Tally::Narrow, nw);
    let s3 = items_effect(s2, n, fields[2], i3, tests, render_list(tests), true, Tally::Narrow, nw);
    let w1 = items_effect(s3, n, "warnings_contains_categories"@, views(e.warnings_contains_categories@), cats, render_set(cats), true, Tally::MissingWarning, "missing_expected_warning"@);
    let s4 = warnings_effect(s3, n, e, cats);
    let s5 = items_effect(s4, n, fields[3], i5, comps, render_list(comps), false, Tally::Broad, bw);
    let s6 = items_effect(s5, n, fields[4], i6, cmds, render_list(cmds), false, Tally::Broad, bw);
    let s7 = items_effect(s6, n, fields[5], i7, tests, render_list(tests), false, Tally::Broad, bw);
    assert(s7 == lists_effect(st, n, e, comps, cmds, tests, cats, fields));
    lemma_items_effect_keeps(s1, n, fields[1], i2, cmds, render_list(cmds), true, Tally::Narrow, nw);
    lemma_items_effect_keeps(s2, n, fields[2], i3, tests, render_list(tests), true, Tally::Narrow, nw);
    lemma_items_effect_keeps(s3, n, "warnings_contains_categories"@, views(e.warnings_contains_categories@), cats, render_set(cats), true, Tally::MissingWarning, "missing_expected_warning"@);
    lemma_items_effect_keeps(w1, n, "warnings_not_contains_categories"@, views(e.warnings_not_contains_categories@), cats, render_set(cats), false, Tally::UnexpectedWarning, "unexpected_warning"@);
    lemma_items_effect_keeps(s4, n, fields[3], i5, comps, render_list(comps), false, Tally::Broad, bw);
    lemma_items_effect_keeps(s5, n, fields[4], i6, cmds, render_list(cmds), false, Tally::Broad, bw);
    lemma_items_effect_keeps(s6, n, fields[5], i7, tests, render_list(tests), false, Tally::Broad, bw);
    assert forall|x: Seq<char>| #[trigger] i1.contains(x) && !comps.contains(x) implies s7.failures.contains(
        failure_text(n, fields[0], x, render_list(comps), nw),
    ) by {
        lemma_items_effect_flags(st, n, fields[0], i1, comps, render_list(comps), true, Tally::Narrow, nw, x);
    }
    assert forall|x: Seq<char>| #[trigger] i2.contains(x) && !cmds.contains(x) implies s7.failures.contains(
        failure_text(n, fields[1], x, render_list(cmds), nw),
    ) by {
        lemma_items_effect_flags(s1, n, fields[1], i2, cmds, render_list(cmds), true, Tally::Narrow, nw, x);
    }
    assert forall|x: Seq<char>| #[trigger] i3.contains(x) && !tests.contains(x) implies s7.failures.contains(
        failure_text(n, fields[2], x, render_list(tests), nw),
    ) by {
        lemma_items_effect_flags(s2, n, fields[2], i3, tests, render_list(tests), true, Tally::Narrow, nw, x);
    }
    assert forall|x: Seq<char>| #[trigger] i5.contains(x) && comps.contains(x) implies s7.failures.contains(
        failure_text(n, fields[3], "not "@ + x, render_list(comps), bw),
    ) by {
        lemma_items_effect_flags(s4, n, fields[3], i5, comps, render_list(comps), false, Tally::Broad, bw, x);
    }
    assert forall|x: Seq<char>| #[trigger] i6.contains(x) && cmds.contains(x) implies s7.failures.contains(
        failure_text(n, fields[4], "not "@ + x, render_list(cmds), bw),
    ) by {
        lemma_items_effect_flags(s5, n, fields[4], i6, cmds, render_list(cmds), false, Tally::Broad, bw, x);
    }
    assert forall|x: Seq<char>| #[trigger] i7.contains(x) && tests.contains(x) implies s7.failures.contains(
        failure_text(n, fields[5], "not "@ + x, render_list(tests), bw),
    ) by {
        lemma_items_effect_flags(s6, n, fields[5], i7, tests, render_list(tests), false, Tally::Broad, bw, x);
    }
    assert forall|c: Seq<char>| #[trigger] views(e.warnings_contains_categories@).contains(c) && !cats.contains(c) implies s7.failures.contains(
        failure_text(n, "warnings_contains_categories"@, c, render_set(cats), "missing_expected_warning"@),
    ) by {
        lemma_items_effect_flags(s3, n, "warnings_contains_categories"@, views(e.warnings_contains_categories@), cats, render_set(cats), true, Tally::MissingWarning, "missing_expected_warning"@, c);
    }
    assert forall|c: Seq<char>| #[trigger] views(e.warnings_not_contains_categories@).contains(c) && cats.contains(c) implies s7.failures.contains(
        failure_text(n, "warnings_not_contains_categories"@, "not "@ + c, render_set(cats), "unexpected_warning"@),
    ) by {
        lemma_items_effect_flags(w1, n, "warnings_not_contains_categories"@, views(e.warnings_not_contains_categories@), cats, render_set(cats), false, Tally::UnexpectedWarning, "unexpected_warning"@, c);
    }
}

/// Some warning has the category name.
pub open spec fn warns_category(ws: Seq<DetectionIssue>, c: Seq<char>) -> bool {
    exists|k: int| 0 <= k < ws.len() && detection_category_name((#[trigger] ws[k]).category) == c
}

/// The case failed with a failure of the category for the field and value.
pub open spec fn failed_with(r: EvalCaseResult, category: Seq<char>, field: Seq<char>, value: Seq<char>) -> bool {
    &&& !r.passed
    &&& exists|i: int| 0 <= i < r.failures@.len() && (#[trigger] r.failures@[i])@.category == category && r.failures@[i]@.expected == field + ": "@ + value
}

proof fn lemma_cats_contain(cats: Seq<Seq<char>>, ws: Seq<DetectionIssue>, c: Seq<char>)
    requires
        category_set_of(cats, ws),
    ensures
        cats.contains(c) <==> warns_category(ws, c),
{
    let names = issue_category_names(ws);
    assert(cats.to_set().contains(c) <==> cats.contains(c));
    assert(names.to_set().contains(c) <==> names.contains(c));
    if names.contains(c) {
        let k = choose|k: int| 0 <= k < names.len() && names[k] == c;
        assert(detection_category_name(ws[k].category) == c);
    }
    if warns_category(ws, c) {
        let k = choose|k: int| 0 <= k < ws.len() && detection_category_name((#[trigger] ws[k]).category) == c;
        assert(names[k] == c);
    }
}

/// The warning expectations of a case are enforced: an expected category that no
/// warning has, or an excluded category that some warning has, fails the case.
proof fn lemma_warning_expectations(
    r: EvalCaseResult,
    n: Seq<char>,
    e: EvalExpect,
    cats: Seq<Seq<char>>,
    ws: Seq<DetectionIssue>,
    out: Seq<FailureText>,
)
    requires
        category_set_of(cats, ws),
        r.passed == (r.failures@.len() == 0),
        failure_views(r.failures@) == out,
        forall|c: Seq<char>| #[trigger] views(e.warnings_contains_categories@).contains(c) && !cats.contains(c) ==> out.contains(
            failure_text(n, "warnings_contains_categories"@, c, render_set(cats), "missing_expected_warning"@),
        ),
        forall|c: Seq<char>| #[trigger] views(e.warnings_not_contains_categories@).contains(c) && cats.contains(c) ==> out.contains(
            failure_text(n, "warnings_not_contains_categories"@, "not "@ + c, render_set(cats), "unexpected_warning"@),
        ),
    ensures
        forall|c: Seq<char>| #[trigger] views(e.warnings_contains_categories@).contains(c) && !warns_category(ws, c)
            ==> failed_with(r, "missing_expected_warning"@, "warnings_contains_categories"@, c),
        forall|c: Seq<char>| #[trigger] views(e.warnings_not_contains_categories@).contains(c) && warns_category(ws, c)
            ==> failed_with(r, "unexpected_warning"@, "warnings_not_contains_categories"@, "not "@ + c),
{
    assert forall|c: Seq<char>| #[trigger] views(e.warnings_contains_categories@).contains(c) && !warns_category(ws, c)
        implies failed_with(r, "missing_expected_warning"@, "warnings_contains_categories"@, c) by {
        lemma_cats_contain(cats, ws, c);
        let ft = failure_text(n, "warnings_contains_categories"@, c, render_set(cats), "missing_expected_warning"@);
        lemma_failed_case(r, ft);
        let i = choose|i: int| 0 <= i < r.failures@.len() && (#[trigger] r.failures@[i])@ == ft;
        assert(r.failures@[i]@.category == "missing_expected_warning"@);
    }
    assert forall|c: Seq<char>| #[trigger] views(e.warnings_not_contains_categories@).contains(c) && warns_category(ws, c)
        implies failed_with(r, "unexpected_warning"@, "warnings_not_contains_categories"@, "not "@ + c) by {
        lemma_cats_contain(cats, ws, c);
        let ft = failure_text(n, "warnings_not_contains_categories"@, "not "@ + c, render_set(cats), "unexpected_warning"@);
        lemma_failed_case(r, ft);
        let i = choose|i: int| 0 <= i < r.failures@.len() && (#[trigger] r.failures@[i])@ == ft;
        assert(r.failures@[i]@.category == "unexpected_warning"@);
    }
}

/// A case whose result holds the failure did not pass.
proof fn lemma_failed_case(r: EvalCaseResult, ft: FailureText)
    requires
        r.passed == (r.failures@.len() == 0),
        failure_views(r.failures@).contains(ft),
    ensures
        !r.passed,
        exists|i: int| 0 <= i < r.failures@.len() && (#[trigger] r.failures@[i])@ == ft,
{
    let j = choose|j: int| 0 <= j < failure_views(r.failures@).len() && failure_views(r.failures@)[j] == ft;
    assert(r.failures@[j]@ == failure_views(r.failures@)[j]);
}

/// An inspect case that forbids a component name the inspection reports fails, with
/// a false-broad failure for that name.
pub proof fn forbidden_component_fails_inspect_case(
    before: EvalCounters,
    after: EvalCounters,
    case: EvalCase,
    run: CaseRun,
    r: EvalCaseResult,
    graph: RepoInspection,
    x: Seq<char>,
)
    requires
        case_result_ok(before, after, case, run, r),
        run.output == (CaseOutput::Inspect { graph }),
        graph.components@.map_values(|c: Component| c.name@).contains(x),
        views(case.expect.forbidden_components_contains@).contains(x),
    ensures
        !r.passed,
        exists|i: int|
            0 <= i < r.failures@.len() && (#[trigger] r.failures@[i])@.category == "false_broad"@
                && r.failures@[i]@.expected == "forbidden_components_contains"@ + ": "@ + "not "@ + x,
{
    inspect_list_expectations_are_enforced(before, after, case, run, r, graph);
    let ft = failure_text(case.name@, "forbidden_components_contains"@, "not "@ + x, render_list(component_names(graph)), "false_broad"@);
    assert(component_names(graph) =~= graph.components@.map_values(|c: Component| c.name@));
    let i = choose|i: int| 0 <= i < r.failures@.len() && (#[trigger] r.failures@[i])@ == ft;
    assert(ft.expected =~= "forbidden_components_contains"@ + ": "@ + "not "@ + x);
    assert(r.failures@[i]@.category == "false_broad"@);
}

/// An inspect case fails on every name it requires that the inspection lacks (a
/// false-narrow failure) and on every name it forbids that the inspection reports (a
/// false-broad failure): component names, command lines and test command lines, each
/// against its own list.
pub proof fn inspect_list_expectations_are_enforced(
    before: EvalCounters,
    after: EvalCounters,
    case: EvalCase,
    run: CaseRun,
    r: EvalCaseResult,
    graph: RepoInspection,
)
    requires
        case_result_ok(before, after, case, run, r),
        run.output == (CaseOutput::Inspect { graph }),
    ensures
        ({
            let e = case.expect;
            let comps = graph.components@.map_values(|c: Component| c.name@);
            let cmds = graph.commands@.map_values(|c: RepoCommand| c.command@);
            let tests = graph.tests@.map_values(|t: TestTarget| t.command@);
            let failed = |field: Seq<char>, value: Seq<char>, pool: Seq<Seq<char>>, category: Seq<char>|
                !r.passed && exists|i: int|
                    0 <= i < r.failures@.len() && (#[trigger] r.failures@[i])@ == failure_text(case.name@, field, value, render_list(pool), category);
            &&& forall|x: Seq<char>| #[trigger] views(e.components_contains@).contains(x) && !comps.contains(x)
                ==> failed("components_contains"@, x, comps, "false_narrow"@)
            &&& forall|x: Seq<char>| #[trigger] views(e.commands_contains@).contains(x) && !cmds.contains(x)
                ==> failed("commands_contains"@, x, cmds, "false_narrow"@)
            &&& forall|x: Seq<char>| #[trigger] views(e.tests_contains@).contains(x) && !tests.contains(x)
                ==> failed("tests_contains"@, x, tests, "false_narrow"@)
            &&& forall|x: Seq<char>| #[trigger] views(e.forbidden_components_contains@).contains(x) && comps.contains(x)
                ==> failed("forbidden_components_contains"@, "not "@ + x, comps, "false_broad"@)
            &&& forall|x: Seq<char>| #[trigger] views(e.forbidden_commands_contains@).contains(x) && cmds.contains(x)
                ==> failed("forbidden_commands_contains"@, "not "@ + x, cmds, "false_broad"@)
            &&& forall|x: Seq<char>| #[trigger] views(e.forbidden_tests_contains@).contains(x) && tests.contains(x)
                ==> failed("forbidden_tests_contains"@, "not "@ + x, tests, "false_broad"@)
            &&& forall|c: Seq<char>| #[trigger] views(e.warnings_contains_categories@).contains(c) && !warns_category(graph.warnings@, c)
                ==> failed_with(r, "missing_expected_warning"@, "warnings_contains_categories"@, c)
            &&& forall|c: Seq<char>| #[trigger] views(e.warnings_not_contains_categories@).contains(c) && warns_category(graph.warnings@, c)
                ==> failed_with(r, "unexpected_warning"@, "warnings_not_contains_categories"@, "not "@ + c)
        }),
{
    let cats = choose|cats: Seq<Seq<char>>| #[trigger] category_set_of(cats, run_warnings(run))
        && state_of(after, r.failures@) == case_effect(state_of(before, Seq::empty()), case, run, cats);
    let n = case.name@;
    let s1 = deterministic_effect(state_of(before, Seq::empty()), n, run.deterministic);
    let s2 = evidence_effect(s1, n, "inspect"@, inspect_facts_backed(graph));
    assert(run_warnings(run) == graph.warnings@);
    let comps = component_names(graph);
    let cmds = command_names(graph);
    let tests = test_names(graph);
    assert(comps =~= graph.components@.map_values(|c: Component| c.name@));
    assert(cmds =~= graph.commands@.map_values(|c: RepoCommand| c.command@));
    assert(tests =~= graph.tests@.map_values(|t: TestTarget| t.command@));
    lemma_lists_flag(s2, n, case.expect, comps, cmds, tests, cats, inspect_fields());
    let out = inspect_expect_effect(s2, case, graph, cats).failures;
    assert(failure_views(r.failures@) == out);
    lemma_warning_expectations(r, n, case.expect, cats, graph.warnings@, out);
    assert forall|ft: FailureText| #[trigger] out.contains(ft) implies !r.passed && exists|i: int|
        0 <= i < r.failures@.len() && (#[trigger] r.failures@[i])@ == ft by {
        lemma_failed_case(r, ft);
    }
}

/// An impact case fails when the report's status, confidence or scope is not the one
/// it expects (a mismatch), when it impacts more components than it allows (a false
/// broad failure), and on every required name the report lacks or forbidden name it
/// holds: impacted component names, recommended command lines and recommended test
/// command lines, each against its own list.
#[verifier::rlimit(60)]
#[verifier::spinoff_prover]
pub proof fn impact_expectations_are_enforced(
    before: EvalCounters,
    after: EvalCounters,
    case: EvalCase,
    run: CaseRun,
    r: EvalCaseResult,
    report: ImpactReport,
)
    requires
        case_result_ok(before, after, case, run, r),
        run.output == (CaseOutput::Impact { report }),
    ensures
        ({
            let e = case.expect;
            let comps = report.impacted_components@.map_values(|c: ImpactedComponent| c.name@);
            let cmds = report.recommended_commands@.map_values(|c: RecommendedCommand| c.command@);
            let tests = report.recommended_tests@.map_values(|t: RecommendedTest| t.command@);
            let failed = |field: Seq<char>, value: Seq<char>, pool: Seq<Seq<char>>, category: Seq<char>|
                !r.passed && exists|i: int|
                    0 <= i < r.failures@.len() && (#[trigger] r.failures@[i])@ == failure_text(case.name@, field, value, render_list(pool), category);
            let flagged = |category: Seq<char>| !r.passed && exists|i: int| 0 <= i < r.failures@.len() && (#[trigger] r.failures@[i])@.category == category;
            &&& (e.status matches Some(x) && x != report.status) ==> flagged("mismatch"@)
            &&& (e.confidence matches Some(x) && x != report.confidence) ==> flagged("mismatch"@)
            &&& (e.impact_scope matches Some(x) && x != report.impact_scope) ==> flagged("mismatch"@)
            &&& (e.max_impacted_components matches Some(m) && report.impacted_components@.len() > m) ==> flagged("false_broad"@)
            &&& forall|x: Seq<char>| #[trigger] views(e.components_contains@).contains(x) && !comps.contains(x)
                ==> failed("impacted_components_contains"@, x, comps, "false_narrow"@)
            &&& forall|x: Seq<char>| #[trigger] views(e.commands_contains@).contains(x) && !cmds.contains(x)
                ==> failed("recommended_commands_contains"@, x, cmds, "false_narrow"@)
            &&& forall|x: Seq<char>| #[trigger] views(e.tests_contains@).contains(x) && !tests.contains(x)
                ==> failed("recommended_tests_contains"@, x, tests, "false_narrow"@)
            &&& forall|x: Seq<char>| #[trigger] views(e.forbidden_components_contains@).contains(x) && comps.contains(x)
                ==> failed("forbidden_impacted_components_contains"@, "not "@ + x, comps, "false_broad"@)
            &&& forall|x: Seq<char>| #[trigger] views(e.forbidden_commands_contains@).contains(x) && cmds.contains(x)
                ==> failed("forbidden_recommended_commands_contains"@, "not "@ + x, cmds, "false_broad"@)
            &&& forall|x: Seq<char>| #[trigger] views(e.forbidden_tests_contains@).contains(x) && tests.contains(x)
                ==> failed("forbidden_recommended_tests_contains"@, "not "@ + x, tests, "false_broad"@)
            &&& forall|c: Seq<char>| #[trigger] views(e.warnings_contains_categories@).contains(c) && !warns_category(report.warnings@, c)
                ==> failed_with(r, "missing_expected_warning"@, "warnings_contains_categories"@, c)
            &&& forall|c: Seq<char>| #[trigger] views(e.warnings_not_contains_categories@).contains(c) && warns_category(report.warnings@, c)
                ==> failed_with(r, "unexpected_warning"@, "warnings_not_contains_categories"@, "not "@ + c)
        }),
{
    let cats = choose|cats: Seq<Seq<char>>| #[trigger] category_set_of(cats, run_warnings(run))
        && state_of(after, r.failures@) == case_effect(state_of(before, Seq::empty()), case, run, cats);
    let n = case.name@;
    let e = case.expect;
    let s1 = deterministic_effect(state_of(before, Seq::empty()), n, run.deterministic);
    let s2 = evidence_effect(s1, n, "impact"@, impact_facts_backed(report));
    let comps = impacted_names(report);
    let cmds = recommended_command_names(report);
    let tests = recommended_test_names(report);
    assert(comps =~= report.impacted_components@.map_values(|c: ImpactedComponent| c.name@));
    assert(cmds =~= report.recommended_commands@.map_values(|c: RecommendedCommand| c.command@));
    assert(tests =~= report.recommended_tests@.map_values(|t: RecommendedTest| t.command@));
    let v0 = s2;
    let v1 = match e.status {
        Some(x) => value_effect(v0, n, "status"@, status_name(x), status_name(report.status), report.status == x),
        None => v0,
    };
    let v2 = match e.confidence {
        Some(x) => value_effect(v1, n, "confidence"@, confidence_name(x), confidence_name(report.confidence), report.confidence == x),
        None => v1,
    };
    let v3 = impact_values_effect(s2, n, e, report);
    let l = lists_effect(v3, n, e, comps, cmds, tests, cats, impact_fields());
    let out = impact_expect_effect(s2, case, report, cats).failures;
    lemma_lists_flag(v3, n, e, comps, cmds, tests, cats, impact_fields());
    // Value checks only add failures, and so do the list checks and the bound.
    assert forall|ft: FailureText| #[trigger] l.failures.contains(ft) implies out.contains(ft) by {
        let j = choose|j: int| 0 <= j < l.failures.len() && l.failures[j] == ft;
        match e.max_impacted_components {
            Some(m) => {
                assert(out == max_effect(l, n, m, report.impacted_components@.len()).failures);
                assert(out[j] == ft);
            },
            None => {},
        }
    }
    assert forall|ft: FailureText| #[trigger] v3.failures.contains(ft) implies l.failures.contains(ft) by {
        let j = choose|j: int| 0 <= j < v3.failures.len() && v3.failures[j] == ft;
        lemma_lists_keep(v3, n, e, comps, cmds, tests, cats, impact_fields(), ft);
    }
    assert(failure_views(r.failures@) == out);
    assert forall|ft: FailureText| #[trigger] out.contains(ft) implies !r.passed && exists|i: int|
        0 <= i < r.failures@.len() && (#[trigger] r.failures@[i])@ == ft by {
        lemma_failed_case(r, ft);
    }
    assert(run_warnings(run) == report.warnings@);
    lemma_warning_expectations(r, n, e, cats, report.warnings@, out);
    if let Some(x) = e.status {
        if x != report.status {
            let ft = failure_text(n, "status"@, status_name(x), status_name(report.status), "mismatch"@);
            assert(v1.failures.last() == ft);
            assert(v1.failures.contains(ft));
            assert(v2.failures.contains(ft)) by {
                if let Some(y) = e.confidence {
                    if report.confidence != y {
                        assert(v2.failures[v1.failures.len() - 1] == ft);
                    }
                }
            }
            assert(v3.failures.contains(ft)) by {
                let j = choose|j: int| 0 <= j < v2.failures.len() && v2.failures[j] == ft;
                if let Some(y) = e.impact_scope {
                    assert(v3.failures[j] == ft);
                }
            }
            let i = choose|i: int| 0 <= i < r.failures@.len() && (#[trigger] r.failures@[i])@ == ft;
        }
    }
    if let Some(x) = e.confidence {
        if x != report.confidence {
            let ft = failure_text(n, "confidence"@, confidence_name(x), confidence_name(report.confidence), "mismatch"@);
            assert(v2.failures.last() == ft);
            assert(v2.failures.contains(ft));
            assert(v3.failures.contains(ft)) by {
                let j = choose|j: int| 0 <= j < v2.failures.len() && v2.failures[j] == ft;
                if let Some(y) = e.impact_scope {
                    assert(v3.failures[j] == ft);
                }
            }
            let i = choose|i: int| 0 <= i < r.failures@.len() && (#[trigger] r.failures@[i])@ == ft;
        }
    }
    if let Some(x) = e.impact_scope {
        if x != report.impact_scope {
            let ft = failure_text(n, "impact_scope"@, scope_name(x), scope_name(report.impact_scope), "mismatch"@);
            assert(v3.failures.last() == ft);
            assert(v3.failures.contains(ft));
            let i = choose|i: int| 0 <= i < r.failures@.len() && (#[trigger] r.failures@[i])@ == ft;
        }
    }
    if let Some(m) = e.max_impacted_components {
        if report.impacted_components@.len() > m {
            let ft = failure_text(n, "max_impacted_components"@, "at most "@ + decimal(m as nat), decimal(report.impacted_components@.len()), "false_broad"@);
            assert(out.last() == ft);
            assert(out.contains(ft));
            let i = choose|i: int| 0 <= i < r.failures@.len() && (#[trigger] r.failures@[i])@ == ft;
        }
    }
}

/// The list checks only add failures.
proof fn lemma_lists_keep(
    st: EvalState,
    n: Seq<char>,
    e: EvalExpect,
    comps: Seq<Seq<char>>,
    cmds: Seq<Seq<char>>,
    tests: Seq<Seq<char>>,
    cats: Seq<Seq<char>>,
    fields: Seq<Seq<char>>,
    ft: FailureText,
)
    requires
        st.failures.contains(ft),
    ensures
        lists_effect(st, n, e, comps, cmds, tests, cats, fields).failures.contains(ft),
{
    let nw = "false_narrow"@;
    let bw = "false_broad"@;
    let s1 = items_effect(st, n, fields[0], views(e.components_contains@), comps, render_list(comps), true, Tally::Narrow, nw);
    let s2 = items_effect(s1, n, fields[1], views(e.commands_contains@), cmds, render_list(cmds), true, Tally::Narrow, nw);
    let s3 = items_effect(s2, n, fields[2], views(e.tests_contains@), tests, render_list(tests), true, Tally::Narrow, nw);
    let w1 = items_effect(s3, n, "warnings_contains_categories"@, views(e.warnings_contains_categories@), cats, render_set(cats), true, Tally::MissingWarning, "missing_expected_warning"@);
    let s4 = warnings_effect(s3, n, e, cats);
    let s5 = items_effect(s4, n, fields[3], views(e.forbidden_components_contains@), comps, render_list(comps), false, Tally::Broad, bw);
    let s6 = items_effect(s5, n, fields[4], views(e.forbidden_commands_contains@), cmds, render_list(cmds), false, Tally::Broad, bw);
    lemma_items_effect_keeps(st, n, fields[0], views(e.components_contains@), comps, render_list(comps), true, Tally::Narrow, nw);
    lemma_items_effect_keeps(s1, n, fields[1], views(e.commands_contains@), cmds, render_list(cmds), true, Tally::Narrow, nw);
    lemma_items_effect_keeps(s2, n, fields[2], views(e.tests_contains@), tests, render_list(tests), true, Tally::Narrow, nw);
    lemma_items_effect_keeps(s3, n, "warnings_contains_categories"@, views(e.warnings_contains_categories@), cats, render_set(cats), true, Tally::MissingWarning, "missing_expected_warning"@);
    lemma_items_effect_keeps(w1, n, "warnings_not_contains_categories"@, views(e.warnings_not_contains_categories@), cats, render_set(cats), false, Tally::UnexpectedWarning, "unexpected_warning"@);
    lemma_items_effect_keeps(s4, n, fields[3], views(e.forbidden_components_contains@), comps, render_list(comps), false, Tally::Broad, bw);
    lemma_items_effect_keeps(s5, n, fields[4], views(e.forbidden_commands_contains@), cmds, render_list(cmds), false, Tally::Broad, bw);
    lemma_items_effect_keeps(s6, n, fields[5], views(e.forbidden_tests_contains@), tests, render_list(tests), false, Tally::Broad, bw);
}

proof fn lemma_accepted_are_rust_files(files: Seq<Seq<char>>, probes: Seq<LspFileProbe>)
    ensures
        forall|x: Seq<char>| #[trigger] accepted_files(files, probes).contains(x) ==> exists|j: int|
            0 <= j < files.len() && slashes(#[trigger] files[j]) == x && probes[j] == (LspFileProbe::Resolved { rust: true })
                && !escapes_root(files[j]) && !has_ignored_part(files[j]),
    decreases files.len(),
{
    if files.len() > 0 {
        let d = files.drop_last();
        lemma_accepted_are_rust_files(d, probes);
        assert forall|x: Seq<char>| #[trigger] accepted_files(files, probes).contains(x) implies exists|j: int|
            0 <= j < files.len() && slashes(#[trigger] files[j]) == x && probes[j] == (LspFileProbe::Resolved { rust: true })
                && !escapes_root(files[j]) && !has_ignored_part(files[j]) by {
            let prev = accepted_files(d, probes);
            if prev.contains(x) {
                let j = choose|j: int|
                    0 <= j < d.len() && slashes(#[trigger] d[j]) == x && probes[j] == (LspFileProbe::Resolved { rust: true })
                        && !escapes_root(d[j]) && !has_ignored_part(d[j]);
                assert(files[j] == d[j]);
            } else {
                let j = files.len() - 1;
                assert(files[j] == files.last());
            }
        }
    }
}

proof fn lemma_rejected_holds(files: Seq<Seq<char>>, probes: Seq<LspFileProbe>, i: int)
    requires
        0 <= i < files.len(),
        file_verdict(files[i], probes[i]) is Some,
    ensures
        rejected_files(files, probes).contains((files[i], file_verdict(files[i], probes[i])->0)),
    decreases files.len(),
{
    let prev = rejected_files(files.drop_last(), probes);
    let now = rejected_files(files, probes);
    if i == files.len() - 1 {
        assert(now[now.len() - 1] == (files[i], file_verdict(files[i], probes[i])->0));
    } else {
        assert(files.drop_last()[i] == files[i]);
        lemma_rejected_holds(files.drop_last(), probes, i);
        let k = choose|k: int| 0 <= k < prev.len() && prev[k] == (files[i], file_verdict(files[i], probes[i])->0);
        assert(now[k] == prev[k]);
    }
}

/// Checking requested files never sends a symbolic link to the server: every file
/// kept is a Rust file inside the workspace that some request named, and each
/// requested symbolic link (inside the root and outside ignored directories) is
/// skipped with a warning that diagnostics do not follow symbolic links.
pub proof fn symlinks_are_never_sent_to_the_server(
    files: Seq<String>,
    probes: Seq<LspFileProbe>,
    r: Seq<String>,
    b0: LspDiagnosticsBuilder,
    b1: LspDiagnosticsBuilder,
)
    requires
        probes.len() == files.len(),
        views(r).to_multiset() == accepted_files(views(files), probes).to_multiset(),
        warned_for(b0, b1, rejected_files(views(files), probes)),
    ensures
        forall|k: int| 0 <= k < r.len() ==> exists|j: int|
            0 <= j < files.len() && (#[trigger] r[k])@ == slashes(files[j]@) && probes[j] == (LspFileProbe::Resolved { rust: true }),
        forall|i: int|
            0 <= i < files.len() && probes[i] is Symlink && !escapes_root(files[i]@) && !has_ignored_part(files[i]@) ==> exists|k: int|
                b0.warnings@.len() <= k < b1.warnings@.len() && (#[trigger] b1.warnings@[k]).category == LspWarningCategory::SymlinkIgnored
                    && opt_text(b1.warnings@[k].path) == Some(files[i]@),
{
    let fv = views(files);
    lemma_accepted_are_rust_files(fv, probes);
    lemma_same_elements(views(r), accepted_files(fv, probes));
    assert forall|k: int| 0 <= k < r.len() implies exists|j: int|
        0 <= j < files.len() && (#[trigger] r[k])@ == slashes(files[j]@) && probes[j] == (LspFileProbe::Resolved { rust: true }) by {
        assert(views(r)[k] == r[k]@);
        assert(views(r).contains(r[k]@));
        let j = choose|j: int|
            0 <= j < fv.len() && slashes(#[trigger] fv[j]) == r[k]@ && probes[j] == (LspFileProbe::Resolved { rust: true })
                && !escapes_root(fv[j]) && !has_ignored_part(fv[j]);
        assert(fv[j] == files[j]@);
    }
    assert forall|i: int|
        0 <= i < files.len() && probes[i] is Symlink && !escapes_root(files[i]@) && !has_ignored_part(files[i]@) implies exists|k: int|
            b0.warnings@.len() <= k < b1.warnings@.len() && (#[trigger] b1.warnings@[k]).category == LspWarningCategory::SymlinkIgnored
                && opt_text(b1.warnings@[k].path) == Some(files[i]@) by {
        assert(fv[i] == files[i]@);
        assert(file_verdict(fv[i], probes[i]) == Some(LspWarningCategory::SymlinkIgnored));
        lemma_rejected_holds(fv, probes, i);
        let rej = rejected_files(fv, probes);
        let m = choose|m: int| 0 <= m < rej.len() && rej[m] == (fv[i], LspWarningCategory::SymlinkIgnored);
        let n = b0.warnings@.len();
        assert(b1.warnings@[n + m].category == rej[m].1);
    }
}

/// Checking the requested files added a warning of the category about the file.
pub open spec fn warned_about(b0: LspDiagnosticsBuilder, b1: LspDiagnosticsBuilder, f: Seq<char>, c: LspWarningCategory) -> bool {
    exists|k: int|
        b0.warnings@.len() <= k < b1.warnings@.len() && (#[trigger] b1.warnings@[k]).category == c && opt_text(b1.warnings@[k].path)
            == Some(f)
}

/// Checking requested files warns about each one it skips, by what was wrong with it:
/// a path leaving the root or a file resolving outside it, a path through an ignored
/// directory, a missing or unresolvable file, a symbolic link, or a file that is not
/// Rust source.
pub proof fn skipped_requests_are_warned_by_cause(
    files: Seq<String>,
    probes: Seq<LspFileProbe>,
    r: Seq<String>,
    b0: LspDiagnosticsBuilder,
    b1: LspDiagnosticsBuilder,
    i: int,
)
    requires
        probes.len() == files.len(),
        views(r).to_multiset() == accepted_files(views(files), probes).to_multiset(),
        warned_for(b0, b1, rejected_files(views(files), probes)),
        0 <= i < files.len(),
    ensures
        ({
            let f = files[i]@;
            let p = probes[i];
            &&& escapes_root(f) ==> warned_about(b0, b1, f, LspWarningCategory::PathOutsideRepo)
            &&& !escapes_root(f) && has_ignored_part(f) ==> warned_about(b0, b1, f, LspWarningCategory::IgnoredPath)
            &&& !escapes_root(f) && !has_ignored_part(f) ==> {
                &&& (p is Missing || p is Unresolved) ==> warned_about(b0, b1, f, LspWarningCategory::MissingFile)
                &&& p is Symlink ==> warned_about(b0, b1, f, LspWarningCategory::SymlinkIgnored)
                &&& p is Outside ==> warned_about(b0, b1, f, LspWarningCategory::PathOutsideRepo)
                &&& p == (LspFileProbe::Resolved { rust: false }) ==> warned_about(b0, b1, f, LspWarningCategory::UnsupportedLanguage)
            }
        }),
{
    let fv = views(files);
    assert(fv[i] == files[i]@);
    if file_verdict(fv[i], probes[i]) is Some {
        lemma_rejected_holds(fv, probes, i);
        let c = file_verdict(fv[i], probes[i])->0;
        let rej = rejected_files(fv, probes);
        let m = choose|m: int| 0 <= m < rej.len() && rej[m] == (fv[i], c);
        let n = b0.warnings@.len();
        assert(b1.warnings@[n + m].category == rej[m].1);
        assert(opt_text(b1.warnings@[n + m].path) == Some(rej[m].0));
        assert(warned_about(b0, b1, files[i]@, c));
    }
}


/// The grammar node of the Rust grammar that declares a kind of symbol.
pub open spec fn declaring_node_kind(k: SymbolKind) -> Seq<char> {
    match k {
        SymbolKind::Function => "function_item"@,
        SymbolKind::Struct => "struct_item"@,
        SymbolKind::Enum => "enum_item"@,
        SymbolKind::Trait => "trait_item"@,
        SymbolKind::TypeAlias => "type_item"@,
        SymbolKind::Const => "const_item"@,
        SymbolKind::Static => "static_item"@,
        SymbolKind::Module => "mod_item"@,
        SymbolKind::ImplBlock => "impl_item"@,
    }
}

/// A symbol's kind is that of the grammar node that declares it; an `impl` block is
/// named by the one-based line and the column where it starts, any other declaration
/// by the text of its `name` field.
pub proof fn symbol_kind_follows_its_node(item: SyntaxItem, bytes: Seq<u8>)
    ensures
        match item_symbol(item, bytes) {
            Some((k, n, _)) => {
                &&& item.kind@ == declaring_node_kind(k)
                &&& k == SymbolKind::ImplBlock ==> (n == "impl@"@ + decimal((item.start_row + 1) as nat) + ":"@ + decimal(item.start_column as nat))
                &&& k != SymbolKind::ImplBlock ==> match item.name_span {
                    Some((a, b)) => n == trim_ws(decode_utf8(bytes.subrange(a as int, b as int))),
                    None => false,
                }
            },
            None => true,
        },
{
}

} // verus!
