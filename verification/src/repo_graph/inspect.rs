use vstd::prelude::*;

use super::builder::{
    ids_prefixed, command_view, command_views, component_view, component_views, facts_of, inspection_evidence_ok, lemma_same_facts_transfer, same_facts,
    test_view, test_views, RepoGraphBuilder,
};
use super::detect_generic::{command_file_effect, command_targets_of, detect_generic, generic_recorded, target_commands, target_tests};
use super::detect_go::{detect_go, go_commands, go_components, go_recorded, go_tests};
use super::detect_node::{detect_node, node_commands, node_components, node_recorded, node_tests};
use super::detect_python::{detect_python, python_commands, python_components, python_recorded, python_tests};
use super::detect_rust::{
    cargo_relations_ok, lemma_cargo_relations_kept, lemma_cargo_relations_same, cargo_command_views, cargo_doc, cargo_manifest_components, cargo_test_views, cargo_workspace_members, detect_rust, rust_recorded,
};
use super::snapshot::{exists_spec, path_exists, RepoSnapshot};
use super::types::{
    opt_text, Component, DetectionCategory, DetectionIssue, DetectionSeverity, RepoCommand, RepoCommandKind, RepoInspection, TestTarget,
    INSPECT_CONTRACT_VERSION,
};
use crate::order::{lemma_map_multiset, sorted};
use crate::text::slashes;
use crate::textset::{lemma_strictly_sorted_unique, strictly_sorted};

verus! {

/// The generated, dependency and cache directories that inspection reports as
/// ignored when they are present, in the order they are reported.
pub open spec fn reported_ignored_names() -> Seq<Seq<char>> {
    seq!["node_modules"@, "target"@, "dist"@, "build"@, ".cache"@, ".venv"@, "__pycache__"@, "coverage"@]
}

/// The directories of `reported_ignored_names`, in order.
pub fn reported_ignored_paths() -> (r: Vec<&'static str>)
    ensures
        r@.len() == reported_ignored_names().len(),
        forall|i: int| 0 <= i < r@.len() ==> #[trigger] r@[i]@ == reported_ignored_names()[i],
        forall|i: int| 0 <= i < r@.len() ==> slashes(#[trigger] reported_ignored_names()[i]) == reported_ignored_names()[i],
{
    proof {
        reveal_strlit("node_modules");
        reveal_strlit("target");
        reveal_strlit("dist");
        reveal_strlit("build");
        reveal_strlit(".cache");
        reveal_strlit(".venv");
        reveal_strlit("__pycache__");
        reveal_strlit("coverage");
        assert forall|i: int| 0 <= i < reported_ignored_names().len() implies
            slashes(#[trigger] reported_ignored_names()[i]) == reported_ignored_names()[i] by {
            assert(slashes(reported_ignored_names()[i]) =~= reported_ignored_names()[i]);
        }
    }
    let r: Vec<&'static str> = vec!["node_modules", "target", "dist", "build", ".cache", ".venv", "__pycache__", "coverage"];
    r
}

/// Some warning has the category, the message and the path.
pub open spec fn issue_warned(ws: Seq<DetectionIssue>, c: DetectionCategory, message: Seq<char>, path: Option<Seq<char>>) -> bool {
    exists|j: int| 0 <= j < ws.len() && (#[trigger] ws[j]).category == c && ws[j].message@ == message && opt_text(ws[j].path) == path
}

proof fn lemma_warned_push(ws: Seq<DetectionIssue>, w: DetectionIssue, c: DetectionCategory, message: Seq<char>, path: Option<Seq<char>>)
    requires
        issue_warned(ws, c, message, path),
    ensures
        issue_warned(ws.push(w), c, message, path),
{
    let j = choose|j: int| 0 <= j < ws.len() && (#[trigger] ws[j]).category == c && ws[j].message@ == message && opt_text(ws[j].path) == path;
    assert(ws.push(w)[j] == ws[j]);
}

proof fn lemma_warned_same_elements(a: Seq<DetectionIssue>, b: Seq<DetectionIssue>, c: DetectionCategory, message: Seq<char>, path: Option<Seq<char>>)
    requires
        issue_warned(a, c, message, path),
        a.to_multiset() == b.to_multiset(),
    ensures
        issue_warned(b, c, message, path),
{
    broadcast use vstd::seq_lib::group_to_multiset_ensures;

    let j = choose|j: int| 0 <= j < a.len() && (#[trigger] a[j]).category == c && a[j].message@ == message && opt_text(a[j].path) == path;
    a.to_multiset_ensures();
    b.to_multiset_ensures();
    assert(a.contains(a[j]));
    assert(a.to_multiset().count(a[j]) > 0);
    assert(b.contains(a[j]));
    let k = choose|k: int| 0 <= k < b.len() && b[k] == a[j];
    assert(b[k].category == c);
}

/// The message of the warning for a present ignored directory.
pub open spec fn ignored_dir_message() -> Seq<char> {
    "Generated, dependency, or cache directory was ignored by RepoGraph inspection."@
}

/// Every detector's facts about the snapshot hold of the builder.
pub open spec fn detected_facts(s: RepoSnapshot, b: RepoGraphBuilder) -> bool {
    &&& rust_recorded(s, b)
    &&& node_recorded(s, b)
    &&& python_recorded(s, b)
    &&& go_recorded(s, b)
    &&& generic_recorded(s, b)
}

proof fn lemma_detected_facts_transfer(s: RepoSnapshot, a: RepoGraphBuilder, b: RepoGraphBuilder)
    requires
        same_facts(a, b),
        detected_facts(s, a),
    ensures
        detected_facts(s, b),
{
    lemma_same_facts_transfer(a, b);
}

/// The components that Rust detection gives on an empty list, the workspace members
/// taken in increasing order.
pub open spec fn rust_components_from(s: RepoSnapshot, cs: Seq<(Seq<char>, Seq<char>, Seq<char>, Seq<char>, Seq<Seq<char>>)>) -> bool {
    match cargo_doc(s) {
        Some(m) => exists|ms: Seq<Seq<char>>|
            #[trigger] cargo_manifest_components(s, m, ms, seq![]) == cs && strictly_sorted(ms) && ms.to_set() == cargo_workspace_members(m),
        None => cs == Seq::<(Seq<char>, Seq<char>, Seq<char>, Seq<char>, Seq<Seq<char>>)>::empty(),
    }
}

pub open spec fn rust_command_list(s: RepoSnapshot) -> Seq<(Seq<char>, RepoCommandKind, Seq<char>, Seq<char>, Option<Seq<char>>, u32)> {
    if cargo_doc(s) is Some {
        cargo_command_views(seq![])
    } else {
        seq![]
    }
}

pub open spec fn rust_test_list(s: RepoSnapshot) -> Seq<(Seq<char>, Seq<char>, Seq<char>, Seq<char>, Option<Seq<char>>, u32)> {
    if cargo_doc(s) is Some {
        cargo_test_views(seq![])
    } else {
        seq![]
    }
}

/// The components, commands and test targets that the detectors give, in the order
/// they run (Rust, Node, Python, Go, then Makefile and justfile).
pub open spec fn detected_views(s: RepoSnapshot, cv: Seq<(Seq<char>, Seq<char>, Seq<char>, Seq<char>, Seq<Seq<char>>)>, mv: Seq<(Seq<char>, RepoCommandKind, Seq<char>, Seq<char>, Option<Seq<char>>, u32)>, tv: Seq<(Seq<char>, Seq<char>, Seq<char>, Seq<char>, Option<Seq<char>>, u32)>) -> bool {
    exists|rc: Seq<(Seq<char>, Seq<char>, Seq<char>, Seq<char>, Seq<Seq<char>>)>, mc: Seq<(Seq<char>, Seq<char>, Seq<char>, Seq<char>, Seq<Seq<char>>)>, mm: Seq<(Seq<char>, RepoCommandKind, Seq<char>, Seq<char>, Option<Seq<char>>, u32)>, mt: Seq<(Seq<char>, Seq<char>, Seq<char>, Seq<char>, Option<Seq<char>>, u32)>|
        #![trigger rust_components_from(s, rc), command_file_effect(s, "Makefile"@, "make"@, "component-make-project"@, "make-project"@, "generic_make_project"@, go_components(s, python_components(s, node_components(s, rc))), go_commands(s, python_commands(s, node_commands(s, rust_command_list(s)))), go_tests(s, python_tests(s, node_tests(s, rust_test_list(s)))), mc, mm, mt)]
        rust_components_from(s, rc) && command_file_effect(
            s,
            "Makefile"@,
            "make"@,
            "component-make-project"@,
            "make-project"@,
            "generic_make_project"@,
            go_components(s, python_components(s, node_components(s, rc))),
            go_commands(s, python_commands(s, node_commands(s, rust_command_list(s)))),
            go_tests(s, python_tests(s, node_tests(s, rust_test_list(s)))),
            mc,
            mm,
            mt,
        ) && command_file_effect(
            s,
            "justfile"@,
            "just"@,
            "component-just-project"@,
            "just-project"@,
            "generic_just_project"@,
            mc,
            mm,
            mt,
            cv,
            mv,
            tv,
        )
}

/// The components, commands and test targets of an inspection are those that the
/// detectors give, in some order.
pub open spec fn inspected_views(s: RepoSnapshot, g: RepoInspection) -> bool {
    exists|cv: Seq<(Seq<char>, Seq<char>, Seq<char>, Seq<char>, Seq<Seq<char>>)>, mv: Seq<(Seq<char>, RepoCommandKind, Seq<char>, Seq<char>, Option<Seq<char>>, u32)>, tv: Seq<(Seq<char>, Seq<char>, Seq<char>, Seq<char>, Option<Seq<char>>, u32)>|
        #[trigger] detected_views(s, cv, mv, tv) && component_views(g.components@).to_multiset() == cv.to_multiset()
            && command_views(g.commands@).to_multiset() == mv.to_multiset() && test_views(g.tests@).to_multiset() == tv.to_multiset()
}

proof fn lemma_command_file_effect_unique(
    s: RepoSnapshot,
    file_name: Seq<char>,
    tool: Seq<char>,
    component_id: Seq<char>,
    component_name: Seq<char>,
    component_kind: Seq<char>,
    c0: Seq<(Seq<char>, Seq<char>, Seq<char>, Seq<char>, Seq<Seq<char>>)>,
    m0: Seq<(Seq<char>, RepoCommandKind, Seq<char>, Seq<char>, Option<Seq<char>>, u32)>,
    t0: Seq<(Seq<char>, Seq<char>, Seq<char>, Seq<char>, Option<Seq<char>>, u32)>,
    c1: Seq<(Seq<char>, Seq<char>, Seq<char>, Seq<char>, Seq<Seq<char>>)>,
    m1: Seq<(Seq<char>, RepoCommandKind, Seq<char>, Seq<char>, Option<Seq<char>>, u32)>,
    t1: Seq<(Seq<char>, Seq<char>, Seq<char>, Seq<char>, Option<Seq<char>>, u32)>,
    c2: Seq<(Seq<char>, Seq<char>, Seq<char>, Seq<char>, Seq<Seq<char>>)>,
    m2: Seq<(Seq<char>, RepoCommandKind, Seq<char>, Seq<char>, Option<Seq<char>>, u32)>,
    t2: Seq<(Seq<char>, Seq<char>, Seq<char>, Seq<char>, Option<Seq<char>>, u32)>,
)
    requires
        command_file_effect(s, file_name, tool, component_id, component_name, component_kind, c0, m0, t0, c1, m1, t1),
        command_file_effect(s, file_name, tool, component_id, component_name, component_kind, c0, m0, t0, c2, m2, t2),
    ensures
        c1 == c2 && m1 == m2 && t1 == t2,
{
    if exists_spec(s, file_name) {
        let ts1 = choose|ts: Seq<Seq<char>>|
            #![trigger target_commands(tool, component_id, ts, m0)]
            strictly_sorted(ts) && ts.to_set() == command_targets_of(s, file_name).0 && m1 == target_commands(tool, component_id, ts, m0)
                && t1 == target_tests(tool, component_id, ts, t0);
        let ts2 = choose|ts: Seq<Seq<char>>|
            #![trigger target_commands(tool, component_id, ts, m0)]
            strictly_sorted(ts) && ts.to_set() == command_targets_of(s, file_name).0 && m2 == target_commands(tool, component_id, ts, m0)
                && t2 == target_tests(tool, component_id, ts, t0);
        lemma_strictly_sorted_unique(ts1, ts2);
    }
}

/// The detectors give one list of components, commands and test targets.
pub proof fn lemma_detected_views_unique(
    s: RepoSnapshot,
    cv1: Seq<(Seq<char>, Seq<char>, Seq<char>, Seq<char>, Seq<Seq<char>>)>,
    mv1: Seq<(Seq<char>, RepoCommandKind, Seq<char>, Seq<char>, Option<Seq<char>>, u32)>,
    tv1: Seq<(Seq<char>, Seq<char>, Seq<char>, Seq<char>, Option<Seq<char>>, u32)>,
    cv2: Seq<(Seq<char>, Seq<char>, Seq<char>, Seq<char>, Seq<Seq<char>>)>,
    mv2: Seq<(Seq<char>, RepoCommandKind, Seq<char>, Seq<char>, Option<Seq<char>>, u32)>,
    tv2: Seq<(Seq<char>, Seq<char>, Seq<char>, Seq<char>, Option<Seq<char>>, u32)>,
)
    requires
        detected_views(s, cv1, mv1, tv1),
        detected_views(s, cv2, mv2, tv2),
    ensures
        cv1 == cv2 && mv1 == mv2 && tv1 == tv2,
{
    let (rc1, mc1, mm1, mt1) = choose|rc: Seq<(Seq<char>, Seq<char>, Seq<char>, Seq<char>, Seq<Seq<char>>)>, mc: Seq<(Seq<char>, Seq<char>, Seq<char>, Seq<char>, Seq<Seq<char>>)>, mm: Seq<(Seq<char>, RepoCommandKind, Seq<char>, Seq<char>, Option<Seq<char>>, u32)>, mt: Seq<(Seq<char>, Seq<char>, Seq<char>, Seq<char>, Option<Seq<char>>, u32)>|
        #![trigger rust_components_from(s, rc), command_file_effect(s, "Makefile"@, "make"@, "component-make-project"@, "make-project"@, "generic_make_project"@, go_components(s, python_components(s, node_components(s, rc))), go_commands(s, python_commands(s, node_commands(s, rust_command_list(s)))), go_tests(s, python_tests(s, node_tests(s, rust_test_list(s)))), mc, mm, mt)]
        rust_components_from(s, rc) && command_file_effect(s, "Makefile"@, "make"@, "component-make-project"@, "make-project"@, "generic_make_project"@,
            go_components(s, python_components(s, node_components(s, rc))), go_commands(s, python_commands(s, node_commands(s, rust_command_list(s)))),
            go_tests(s, python_tests(s, node_tests(s, rust_test_list(s)))), mc, mm, mt)
            && command_file_effect(s, "justfile"@, "just"@, "component-just-project"@, "just-project"@, "generic_just_project"@, mc, mm, mt, cv1, mv1, tv1);
    let (rc2, mc2, mm2, mt2) = choose|rc: Seq<(Seq<char>, Seq<char>, Seq<char>, Seq<char>, Seq<Seq<char>>)>, mc: Seq<(Seq<char>, Seq<char>, Seq<char>, Seq<char>, Seq<Seq<char>>)>, mm: Seq<(Seq<char>, RepoCommandKind, Seq<char>, Seq<char>, Option<Seq<char>>, u32)>, mt: Seq<(Seq<char>, Seq<char>, Seq<char>, Seq<char>, Option<Seq<char>>, u32)>|
        #![trigger rust_components_from(s, rc), command_file_effect(s, "Makefile"@, "make"@, "component-make-project"@, "make-project"@, "generic_make_project"@, go_components(s, python_components(s, node_components(s, rc))), go_commands(s, python_commands(s, node_commands(s, rust_command_list(s)))), go_tests(s, python_tests(s, node_tests(s, rust_test_list(s)))), mc, mm, mt)]
        rust_components_from(s, rc) && command_file_effect(s, "Makefile"@, "make"@, "component-make-project"@, "make-project"@, "generic_make_project"@,
            go_components(s, python_components(s, node_components(s, rc))), go_commands(s, python_commands(s, node_commands(s, rust_command_list(s)))),
            go_tests(s, python_tests(s, node_tests(s, rust_test_list(s)))), mc, mm, mt)
            && command_file_effect(s, "justfile"@, "just"@, "component-just-project"@, "just-project"@, "generic_just_project"@, mc, mm, mt, cv2, mv2, tv2);
    if cargo_doc(s) is Some {
        let m = cargo_doc(s)->0;
        let ms1 = choose|ms: Seq<Seq<char>>|
            #[trigger] cargo_manifest_components(s, m, ms, seq![]) == rc1 && strictly_sorted(ms) && ms.to_set() == cargo_workspace_members(m);
        let ms2 = choose|ms: Seq<Seq<char>>|
            #[trigger] cargo_manifest_components(s, m, ms, seq![]) == rc2 && strictly_sorted(ms) && ms.to_set() == cargo_workspace_members(m);
        lemma_strictly_sorted_unique(ms1, ms2);
    }
    assert(rc1 == rc2);
    lemma_command_file_effect_unique(s, "Makefile"@, "make"@, "component-make-project"@, "make-project"@, "generic_make_project"@,
        go_components(s, python_components(s, node_components(s, rc1))), go_commands(s, python_commands(s, node_commands(s, rust_command_list(s)))),
        go_tests(s, python_tests(s, node_tests(s, rust_test_list(s)))), mc1, mm1, mt1, mc2, mm2, mt2);
    lemma_command_file_effect_unique(s, "justfile"@, "just"@, "component-just-project"@, "just-project"@, "generic_just_project"@,
        mc1, mm1, mt1, cv1, mv1, tv1, cv2, mv2, tv2);
}

/// Runs the detectors on an empty builder.
#[verifier::rlimit(80)]
#[verifier::spinoff_prover]
fn run_detectors(s: &RepoSnapshot, b: &mut RepoGraphBuilder)
    requires
        old(b).wf(),
        old(b).components@.len() == 0,
        old(b).commands@.len() == 0,
        old(b).tests@.len() == 0,
        old(b).detected_files@.len() == 0,
    ensures
        final(b).wf(),
        final(b).repo_root == old(b).repo_root,
        detected_facts(*s, *final(b)),
        detected_views(*s, component_views(final(b).components@), command_views(final(b).commands@), test_views(final(b).tests@)),
        cargo_relations_ok(*s, *final(b)),
{
    assert(component_views(b.components@) =~= Seq::<(Seq<char>, Seq<char>, Seq<char>, Seq<char>, Seq<Seq<char>>)>::empty());
    assert(command_views(b.commands@) =~= Seq::<(Seq<char>, RepoCommandKind, Seq<char>, Seq<char>, Option<Seq<char>>, u32)>::empty());
    assert(test_views(b.tests@) =~= Seq::<(Seq<char>, Seq<char>, Seq<char>, Seq<char>, Option<Seq<char>>, u32)>::empty());
    detect_rust(s, b);
    let ghost rc = component_views(b.components@);
    proof {
        if cargo_doc(*s) is Some {
            let m = cargo_doc(*s)->0;
            let ms = choose|ms: Seq<Seq<char>>|
                #[trigger] cargo_manifest_components(*s, m, ms, seq![]) == rc && strictly_sorted(ms) && ms.to_set() == cargo_workspace_members(m);
        }
        assert(rust_components_from(*s, rc));
    }
    let ghost after_rust = *b;
    detect_node(s, b);
    let ghost after_node = *b;
    detect_python(s, b);
    let ghost after_python = *b;
    detect_go(s, b);
    let ghost after_go = *b;
    proof {
        lemma_cargo_relations_kept(after_rust, after_node, *s);
        lemma_cargo_relations_kept(after_node, after_python, *s);
        lemma_cargo_relations_kept(after_python, after_go, *s);
    }
    let ghost c4 = component_views(b.components@);
    let ghost m4 = command_views(b.commands@);
    let ghost t4 = test_views(b.tests@);
    detect_generic(s, b);
    proof {
        let (mc, mm, mt) = choose|c: Seq<(Seq<char>, Seq<char>, Seq<char>, Seq<char>, Seq<Seq<char>>)>, m: Seq<(Seq<char>, RepoCommandKind, Seq<char>, Seq<char>, Option<Seq<char>>, u32)>, t: Seq<(Seq<char>, Seq<char>, Seq<char>, Seq<char>, Option<Seq<char>>, u32)>|
            #[trigger] command_file_effect(*s, "Makefile"@, "make"@, "component-make-project"@, "make-project"@, "generic_make_project"@, c4, m4, t4, c, m, t)
                && command_file_effect(*s, "justfile"@, "just"@, "component-just-project"@, "just-project"@, "generic_just_project"@, c, m, t,
                    component_views(b.components@), command_views(b.commands@), test_views(b.tests@));
        assert(c4 == go_components(*s, python_components(*s, node_components(*s, rc))));
        assert(m4 == go_commands(*s, python_commands(*s, node_commands(*s, rust_command_list(*s)))));
        assert(t4 == go_tests(*s, python_tests(*s, node_tests(*s, rust_test_list(*s)))));
    }
    proof {
        lemma_cargo_relations_kept(after_go, *b, *s);
    }
    assert(detected_facts(*s, *b));
}

/// Inspects a repository from what was read of it: Rust, Node, Python, Go and
/// generic build facts, the ignored directories that are present, and a warning
/// when no supported manifest was found. Every fact rests on evidence that the
/// inspection holds.
#[verifier::rlimit(40)]
pub fn inspect_snapshot(s: &RepoSnapshot) -> (g: RepoInspection)
    ensures
        g.contract_version@ == INSPECT_CONTRACT_VERSION@,
        g.repo.root@ == s.root@,
        g.repo.read_only,
        inspection_evidence_ok(g),
        sorted(g.detected_files@),
        sorted(g.package_managers@),
        sorted(g.workspaces@),
        sorted(g.components@),
        sorted(g.commands@),
        sorted(g.tests@),
        sorted(g.relationships@),
        sorted(g.warnings@),
        detected_facts(*s, facts_of(g)),
        forall|i: int| 0 <= i < reported_ignored_names().len() && exists_spec(*s, #[trigger] reported_ignored_names()[i])
            ==> issue_warned(g.warnings@, DetectionCategory::IgnoredPath, ignored_dir_message(), Some(reported_ignored_names()[i])),
        g.detected_files@.len() == 0 ==> issue_warned(
            g.warnings@,
            DetectionCategory::NoSupportedManifests,
            "No supported repository manifests were detected."@,
            None,
        ),
        inspected_views(*s, g),
        cargo_relations_ok(*s, facts_of(g)),
        ids_prefixed(g.evidence@, g.warnings@),
{
    let mut b = RepoGraphBuilder::new(s.root.clone());
    run_detectors(s, &mut b);
    let ghost cv = component_views(b.components@);
    let ghost mv = command_views(b.commands@);
    let ghost tv = test_views(b.tests@);
    let ignored = reported_ignored_paths();
    let mut i: usize = 0;
    while i < ignored.len()
        invariant
            i <= ignored@.len(),
            b.wf(),
            b.repo_root@ == s.root@,
            detected_facts(*s, b),
            cv == component_views(b.components@),
            mv == command_views(b.commands@),
            tv == test_views(b.tests@),
            cargo_relations_ok(*s, b),
            ignored@.len() == reported_ignored_names().len(),
            forall|k: int| 0 <= k < ignored@.len() ==> #[trigger] ignored@[k]@ == reported_ignored_names()[k],
            forall|k: int| 0 <= k < ignored@.len() ==> slashes(#[trigger] reported_ignored_names()[k]) == reported_ignored_names()[k],
            forall|k: int| 0 <= k < i && exists_spec(*s, #[trigger] reported_ignored_names()[k])
                ==> issue_warned(b.warnings@, DetectionCategory::IgnoredPath, ignored_dir_message(), Some(reported_ignored_names()[k])),
        decreases ignored@.len() - i,
    {
        let ghost before = b.warnings@;
        let ghost before_b = b;
        assert(ignored@[i as int]@ == reported_ignored_names()[i as int]);
        if path_exists(s, ignored[i]) {
            proof {
                reveal_strlit("Generated, dependency, or cache directory was ignored by RepoGraph inspection.");
            }
            b.add_warning(
                DetectionSeverity::Info,
                DetectionCategory::IgnoredPath,
                "Generated, dependency, or cache directory was ignored by RepoGraph inspection.",
                Some(ignored[i]),
                None,
            );
            proof {
                lemma_cargo_relations_kept(before_b, b, *s);
                let w = b.warnings@.last();
                assert forall|k: int| 0 <= k <= i && exists_spec(*s, #[trigger] reported_ignored_names()[k]) implies issue_warned(
                    b.warnings@,
                    DetectionCategory::IgnoredPath,
                    ignored_dir_message(),
                    Some(reported_ignored_names()[k]),
                ) by {
                    if k < i {
                        lemma_warned_push(before, w, DetectionCategory::IgnoredPath, ignored_dir_message(), Some(reported_ignored_names()[k]));
                    } else {
                        assert(b.warnings@[before.len() as int] == w);
                    }
                }
            }
        }
        i = i + 1;
    }
    let ghost after_loop = b.warnings@;
    let ghost after_loop_b = b;
    if !b.has_detected_files() {
        b.add_warning(
            DetectionSeverity::Info,
            DetectionCategory::NoSupportedManifests,
            "No supported repository manifests were detected.",
            None,
            None,
        );
        proof {
            lemma_cargo_relations_kept(after_loop_b, b, *s);
            let w = b.warnings@.last();
            assert(b.warnings@[after_loop.len() as int] == w);
            assert(issue_warned(b.warnings@, DetectionCategory::NoSupportedManifests, "No supported repository manifests were detected."@, None));
            assert forall|k: int| 0 <= k < reported_ignored_names().len() && exists_spec(*s, #[trigger] reported_ignored_names()[k]) implies issue_warned(
                b.warnings@,
                DetectionCategory::IgnoredPath,
                ignored_dir_message(),
                Some(reported_ignored_names()[k]),
            ) by {
                lemma_warned_push(after_loop, w, DetectionCategory::IgnoredPath, ignored_dir_message(), Some(reported_ignored_names()[k]));
            }
        }
    }
    assert(b.detected_files@.len() == 0 ==> issue_warned(
        b.warnings@,
        DetectionCategory::NoSupportedManifests,
        "No supported repository manifests were detected."@,
        None,
    ));
    let ghost last = b;
    let g = b.finish();
    proof {
        lemma_map_multiset(g.components@, last.components@, |c: Component| component_view(c));
        lemma_map_multiset(g.commands@, last.commands@, |c: RepoCommand| command_view(c));
        lemma_map_multiset(g.tests@, last.tests@, |t: TestTarget| test_view(t));
        assert(detected_views(*s, cv, mv, tv));
        lemma_cargo_relations_same(last, facts_of(g), *s);
        crate::order::lemma_same_elements(g.warnings@, last.warnings@);
        assert forall|i: int| 0 <= i < g.warnings@.len() implies "warning-"@.is_prefix_of(#[trigger] g.warnings@[i].id@) by {
            assert(g.warnings@.contains(g.warnings@[i]));
            let k = choose|k: int| 0 <= k < last.warnings@.len() && last.warnings@[k] == g.warnings@[i];
        }
        assert(same_facts(last, facts_of(g)));
        lemma_detected_facts_transfer(*s, last, facts_of(g));
        assert forall|k: int| 0 <= k < reported_ignored_names().len() && exists_spec(*s, #[trigger] reported_ignored_names()[k]) implies issue_warned(
            g.warnings@,
            DetectionCategory::IgnoredPath,
            ignored_dir_message(),
            Some(reported_ignored_names()[k]),
        ) by {
            lemma_warned_same_elements(last.warnings@, g.warnings@, DetectionCategory::IgnoredPath, ignored_dir_message(), Some(reported_ignored_names()[k]));
        }
        if g.detected_files@.len() == 0 {
            g.detected_files@.to_multiset_ensures();
            last.detected_files@.to_multiset_ensures();
            assert(last.detected_files@.len() == 0);
            lemma_warned_same_elements(
                last.warnings@,
                g.warnings@,
                DetectionCategory::NoSupportedManifests,
                "No supported repository manifests were detected."@,
                None,
            );
        }
    }
    g
}

} // verus!
