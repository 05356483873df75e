use vstd::prelude::*;

use super::builder::{
    lemma_warned_quiet, lemma_warned_step, lemma_warnings_none, warnings_added, EvidenceDesc, WarningBase,
    cites_added, lemma_cites_chain, lemma_cites_command, lemma_cites_component, lemma_cites_none, lemma_cites_quiet, lemma_cites_test,
    CiteRule,
    command_views, component_views, has_command, has_component, has_file, has_issue, has_manager, has_test, has_workspace, test_views,
    with_command, with_component, with_test, RepoGraphBuilder,
};
use crate::textset::views;
use super::manifest_text::{first_module_decl, go_module_name, go_work_members, go_work_state};
use super::snapshot::{exists_spec, path_exists, read_text, text_spec, RepoSnapshot, SnapshotEntry};
use crate::text::{lines_spec, slashes};
use super::types::{DetectedFileKind, DetectionCategory, DetectionSeverity, PackageManagerKind, RepoCommandKind};
use crate::text::{ends_with_text, owned, text_eq};
use crate::source_context::builder::{path_parts, path_parts_exec};

verus! {

/// The directories that the search for a Go test file does not enter.
pub open spec fn go_skipped_name(n: Seq<char>) -> bool {
    n == ".git"@ || n == "node_modules"@ || n == "target"@ || n == "dist"@ || n == "build"@ || n == ".cache"@ || n == ".venv"@
        || n == "__pycache__"@
}

/// Some part of the path names a directory that the search does not enter.
pub open spec fn in_go_skipped_dir(p: Seq<char>) -> bool {
    exists|i: int| 0 <= i < path_parts(p).len() && go_skipped_name(#[trigger] path_parts(p)[i])
}

fn go_skipped_name_exec(n: &str) -> (r: bool)
    ensures
        r == go_skipped_name(n@),
{
    text_eq(n, ".git") || text_eq(n, "node_modules") || text_eq(n, "target") || text_eq(n, "dist") || text_eq(n, "build")
        || text_eq(n, ".cache") || text_eq(n, ".venv") || text_eq(n, "__pycache__")
}

fn in_go_skipped_dir_exec(p: &str) -> (r: bool)
    ensures
        r == in_go_skipped_dir(p@),
{
    let parts = path_parts_exec(p);
    let mut i: usize = 0;
    while i < parts.len()
        invariant
            i <= parts@.len(),
            views(parts@) == path_parts(p@),
            forall|k: int| 0 <= k < i ==> !go_skipped_name(#[trigger] path_parts(p@)[k]),
        decreases parts@.len() - i,
    {
        assert(views(parts@)[i as int] == parts@[i as int]@);
        if go_skipped_name_exec(parts[i].as_str()) {
            return true;
        }
        i = i + 1;
    }
    false
}

/// A Go test file: a file whose name ends in `_test.go`, outside the directories
/// that the search does not enter.
pub open spec fn is_go_test_entry(e: SnapshotEntry) -> bool {
    !e.is_dir && "_test.go"@.is_suffix_of(e.path@) && !in_go_skipped_dir(e.path@)
}

/// The first Go test file in walk order.
pub open spec fn first_go_test(entries: Seq<SnapshotEntry>) -> Option<int>
    decreases entries.len(),
{
    if entries.len() == 0 {
        None
    } else {
        match first_go_test(entries.drop_last()) {
            Some(i) => Some(i),
            None => if is_go_test_entry(entries.last()) {
                Some(entries.len() - 1)
            } else {
                None
            },
        }
    }
}

pub fn first_go_test_file(s: &RepoSnapshot) -> (r: Option<usize>)
    ensures
        match r {
            Some(i) => first_go_test(s.entries@) == Some(i as int) && i < s.entries@.len(),
            None => first_go_test(s.entries@) is None,
        },
{
    let mut i: usize = 0;
    while i < s.entries.len()
        invariant
            i <= s.entries@.len(),
            first_go_test(s.entries@.take(i as int)) is None,
        decreases s.entries@.len() - i,
    {
        assert(s.entries@.take(i + 1).drop_last() =~= s.entries@.take(i as int));
        assert(s.entries@.take(i + 1).last() == s.entries@[i as int]);
        if !s.entries[i].is_dir && ends_with_text(s.entries[i].path.as_str(), "_test.go") && !in_go_skipped_dir_exec(s.entries[i].path.as_str()) {
            proof {
                lemma_first_go_test_prefix(s.entries@, i as int + 1);
            }
            return Some(i);
        }
        i = i + 1;
    }
    assert(s.entries@.take(s.entries@.len() as int) =~= s.entries@);
    None
}

proof fn lemma_first_go_test_prefix(s: Seq<SnapshotEntry>, n: int)
    requires
        0 < n <= s.len(),
        first_go_test(s.take(n)) is Some,
    ensures
        first_go_test(s) == first_go_test(s.take(n)),
    decreases s.len() - n,
{
    if n < s.len() {
        assert(s.drop_last().take(n) =~= s.take(n));
        lemma_first_go_test_prefix(s.drop_last(), n);
    } else {
        assert(s.take(n) =~= s);
    }
}

/// The module that `go.mod` declares, when its text was read.
pub open spec fn go_module_of(s: RepoSnapshot) -> Option<Seq<char>> {
    match text_spec(s, "go.mod"@) {
        Some(t) => first_module_decl(lines_spec(t)),
        None => None,
    }
}

/// The members that `go.work` names, when its text was read.
pub open spec fn go_work_members_of(s: RepoSnapshot) -> Set<Seq<char>> {
    match text_spec(s, "go.work"@) {
        Some(t) => go_work_state(lines_spec(t)).1,
        None => Set::empty(),
    }
}

/// What Go detection records of a repository.
pub open spec fn go_recorded(s: RepoSnapshot, b: RepoGraphBuilder) -> bool {
    &&& exists_spec(s, "go.mod"@) ==> has_file(b.detected_files@, "go.mod"@, DetectedFileKind::Manifest)
        && has_manager(b.package_managers@, PackageManagerKind::Go, "go"@)
    &&& exists_spec(s, "go.mod"@) ==> match go_module_of(s) {
        Some(_) => {
            &&& has_component(b.components@, "component-go-module"@)
            &&& has_command(b.commands@, "go test ./..."@)
            &&& has_command(b.commands@, "go build ./..."@)
            &&& has_test(b.tests@, "go test ./..."@)
        },
        None => has_issue(
            b.warnings@,
            DetectionSeverity::Warning,
            DetectionCategory::MalformedManifest,
            "go.mod was detected but no module declaration was parsed; Go commands were not inferred."@,
            Some("go.mod"@),
        ),
    }
    &&& exists_spec(s, "go.mod"@) && go_module_of(s) is Some ==> match first_go_test(s.entries@) {
        Some(k) => has_file(b.detected_files@, slashes(s.entries@[k].path@), DetectedFileKind::TestConfig),
        None => true,
    }
    &&& exists_spec(s, "go.work"@) ==> has_file(b.detected_files@, "go.work"@, DetectedFileKind::WorkspaceConfig)
        && has_workspace(b.workspaces@, "workspace-go"@)
    &&& exists_spec(s, "go.work"@) && go_work_members_of(s) == Set::<Seq<char>>::empty() ==> has_issue(
        b.warnings@,
        DetectionSeverity::Info,
        DetectionCategory::PartialSupport,
        "go.work was detected but no simple use members were parsed."@,
        Some("go.work"@),
    )
}

/// The module that a present `go.mod` declares.
pub open spec fn go_module_detected(s: RepoSnapshot) -> Option<Seq<char>> {
    if exists_spec(s, "go.mod"@) {
        go_module_of(s)
    } else {
        None
    }
}

/// The confidence of `go test`: higher when a Go test file is present.
pub open spec fn go_test_confidence(s: RepoSnapshot) -> u32 {
    if first_go_test(s.entries@) is Some {
        95
    } else {
        85
    }
}

/// The components after Go detection: the module, when `go.mod` declares one.
pub open spec fn go_components(s: RepoSnapshot, cs: Seq<(Seq<char>, Seq<char>, Seq<char>, Seq<char>, Seq<Seq<char>>)>) -> Seq<(Seq<char>, Seq<char>, Seq<char>, Seq<char>, Seq<Seq<char>>)> {
    match go_module_detected(s) {
        Some(n) => with_component(cs, ("component-go-module"@, n, "go_module"@, "."@, seq!["go.mod"@, "go.work"@, "*.go"@, "**/*.go"@])),
        None => cs,
    }
}

/// The commands after Go detection: `go test ./...` and `go build ./...` when
/// `go.mod` declares a module.
pub open spec fn go_commands(s: RepoSnapshot, cs: Seq<(Seq<char>, RepoCommandKind, Seq<char>, Seq<char>, Option<Seq<char>>, u32)>) -> Seq<(Seq<char>, RepoCommandKind, Seq<char>, Seq<char>, Option<Seq<char>>, u32)> {
    match go_module_detected(s) {
        Some(_) => with_command(
            with_command(
                cs,
                ("cmd-go-test"@, RepoCommandKind::Test, "go test ./..."@, "."@, Some("component-go-module"@), go_test_confidence(s)),
            ),
            ("cmd-go-build"@, RepoCommandKind::Build, "go build ./..."@, "."@, Some("component-go-module"@), 85),
        ),
        None => cs,
    }
}

/// The test targets after Go detection: `go test ./...` when `go.mod` declares a
/// module.
pub open spec fn go_tests(s: RepoSnapshot, ts: Seq<(Seq<char>, Seq<char>, Seq<char>, Seq<char>, Option<Seq<char>>, u32)>) -> Seq<(Seq<char>, Seq<char>, Seq<char>, Seq<char>, Option<Seq<char>>, u32)> {
    match go_module_detected(s) {
        Some(_) => with_test(ts, ("test-go-test"@, "go test"@, "go test ./..."@, "."@, Some("component-go-module"@), go_test_confidence(s))),
        None => ts,
    }
}

/// The warning of a `go.mod` that declares no module, backed by its evidence.
pub open spec fn go_mod_warnings(s: RepoSnapshot) -> Seq<(WarningBase, Option<EvidenceDesc>)> {
    if exists_spec(s, "go.mod"@) && go_module_of(s) is None {
        seq![(
            (
                DetectionSeverity::Warning,
                DetectionCategory::MalformedManifest,
                "go.mod was detected but no module declaration was parsed; Go commands were not inferred."@,
                Some("go.mod"@),
            ),
            Some(("go.mod"@, "manifest"@, None, "Go module manifest detected."@)),
        )]
    } else {
        seq![]
    }
}

/// The warning of a `go.work` that names no member, backed by its evidence.
pub open spec fn go_work_warnings(s: RepoSnapshot) -> Seq<(WarningBase, Option<EvidenceDesc>)> {
    if exists_spec(s, "go.work"@) && go_work_members_of(s) == Set::<Seq<char>>::empty() {
        seq![(
            (
                DetectionSeverity::Info,
                DetectionCategory::PartialSupport,
                "go.work was detected but no simple use members were parsed."@,
                Some("go.work"@),
            ),
            Some(("go.work"@, "workspace_config"@, None, "Go workspace detected."@)),
        )]
    } else {
        seq![]
    }
}

/// The warnings of Go detection, in order.
pub open spec fn go_warnings(s: RepoSnapshot) -> Seq<(WarningBase, Option<EvidenceDesc>)> {
    go_mod_warnings(s) + go_work_warnings(s)
}

/// What `go.mod` says about itself as evidence.
pub open spec fn go_mod_desc() -> EvidenceDesc {
    ("go.mod"@, "manifest"@, None, "Go module manifest detected."@)
}

/// What `go test ./...` cites: the first Go test file, or `go.mod` when there is none.
pub open spec fn go_test_desc(s: RepoSnapshot) -> EvidenceDesc {
    match first_go_test(s.entries@) {
        Some(k) => (slashes(s.entries@[k].path@), "source_hint"@, None, "Go test file detected."@),
        None => go_mod_desc(),
    }
}

/// What the Go module component cites: `go.mod`.
pub open spec fn go_component_rule() -> CiteRule {
    |id: Seq<char>, d: EvidenceDesc| d == go_mod_desc()
}

/// What the Go commands and test target cite: `go test ./...` the first test file (or
/// `go.mod`), the others `go.mod`.
pub open spec fn go_command_rule(s: RepoSnapshot) -> CiteRule {
    |c: Seq<char>, d: EvidenceDesc| if c == "go test ./..."@ {
        d == go_test_desc(s)
    } else {
        d == go_mod_desc()
    }
}

/// Detects a Go module (`go.mod`, its module name, its test files, `go test` and
/// `go build`) and a Go workspace (`go.work` and its members).
pub fn detect_go(s: &RepoSnapshot, b: &mut RepoGraphBuilder)
    requires
        old(b).wf(),
    ensures
        final(b).wf(),
        final(b).keeps_known(old(b)),
        final(b).extends(old(b)),
        !exists_spec(*s, "go.mod"@) && !exists_spec(*s, "go.work"@) ==> *final(b) == *old(b),
        go_recorded(*s, *final(b)),
        warnings_added(old(b).warnings@, final(b).warnings@, final(b).evidence@, go_warnings(*s)),
        cites_added(*old(b), *final(b), go_component_rule(), go_command_rule(*s), go_command_rule(*s)),
        component_views(final(b).components@) == go_components(*s, component_views(old(b).components@)),
        command_views(final(b).commands@) == go_commands(*s, command_views(old(b).commands@)),
        test_views(final(b).tests@) == go_tests(*s, test_views(old(b).tests@)),
{
    proof {
        reveal_strlit("go.mod");
        reveal_strlit("go.work");
        assert(slashes("go.mod"@) =~= "go.mod"@);
        assert(slashes("go.work"@) =~= "go.work"@);
    }
    let ghost w0 = b.warnings@;
    let ghost s0 = *b;
    proof {
        lemma_warnings_none(w0, b.evidence@);
        lemma_cites_none(s0, s0, go_component_rule(), go_command_rule(*s), go_command_rule(*s));
        reveal_strlit("go test ./...");
        reveal_strlit("go build ./...");
        assert("go build ./..."@ != "go test ./..."@) by {
            assert("go build ./..."@[3] != "go test ./..."@[3]);
        }
    }
    if path_exists(s, "go.mod") {
        let ghost pre = *b;
        let me = b.add_detected_file("go.mod", DetectedFileKind::Manifest, "manifest", None, "Go module manifest detected.");
        b.add_package_manager(PackageManagerKind::Go, "go", me.clone());
        let module_name = match read_text(s, "go.mod") {
            Some(text) => go_module_name(text.as_str()),
            None => None,
        };
        match module_name {
            Some(name) => {
                let test_evidence = match first_go_test_file(s) {
                    Some(k) => Some(b.add_detected_file(
                        s.entries[k].path.as_str(),
                        DetectedFileKind::TestConfig,
                        "source_hint",
                        None,
                        "Go test file detected.",
                    )),
                    None => None,
                };
                let test_confidence: u32 = if test_evidence.is_some() { 95 } else { 85 };
                let ghost q0 = *b;
                proof {
                    lemma_cites_quiet(s0, s0, q0, go_component_rule(), go_command_rule(*s), go_command_rule(*s));
                    reveal_strlit("manifest");
                    reveal_strlit("Go module manifest detected.");
                    assert(b.names(me@, go_mod_desc()));
                }
                let mut patterns: Vec<String> = Vec::new();
                patterns.push(owned("go.mod"));
                patterns.push(owned("go.work"));
                patterns.push(owned("*.go"));
                patterns.push(owned("**/*.go"));
                assert(views(patterns@) =~= seq!["go.mod"@, "go.work"@, "*.go"@, "**/*.go"@]);
                b.add_component("component-go-module", name.as_str(), "go_module", ".", patterns, me.clone());
                let ghost q1 = *b;
                proof {
                    lemma_cites_component(q0, q1, "component-go-module"@, me@, go_mod_desc(), go_component_rule(), go_command_rule(*s), go_command_rule(*s));
                    lemma_cites_chain(s0, q0, q1, go_component_rule(), go_command_rule(*s), go_command_rule(*s));
                }
                let test_ev = match &test_evidence {
                    Some(e) => e.clone(),
                    None => me.clone(),
                };
                assert(b.names(test_ev@, go_test_desc(*s)));
                b.add_command("cmd-go-test", RepoCommandKind::Test, "go test ./...", Some("component-go-module"), test_confidence, test_ev.clone());
                let ghost q2 = *b;
                proof {
                    lemma_cites_command(q1, q2, "go test ./..."@, test_ev@, go_test_desc(*s), go_component_rule(), go_command_rule(*s), go_command_rule(*s));
                    lemma_cites_chain(s0, q1, q2, go_component_rule(), go_command_rule(*s), go_command_rule(*s));
                }
                b.add_command("cmd-go-build", RepoCommandKind::Build, "go build ./...", Some("component-go-module"), 85, me.clone());
                let ghost q3 = *b;
                proof {
                    lemma_cites_command(q2, q3, "go build ./..."@, me@, go_mod_desc(), go_component_rule(), go_command_rule(*s), go_command_rule(*s));
                    lemma_cites_chain(s0, q2, q3, go_component_rule(), go_command_rule(*s), go_command_rule(*s));
                }
                b.add_test("test-go-test", "go test", "go test ./...", Some("component-go-module"), test_confidence, test_ev);
                proof {
                    lemma_cites_test(q3, *b, "go test ./..."@, test_ev@, go_test_desc(*s), go_component_rule(), go_command_rule(*s), go_command_rule(*s));
                    lemma_cites_chain(s0, q3, *b, go_component_rule(), go_command_rule(*s), go_command_rule(*s));
                }
                proof {
                    lemma_warned_quiet(w0, pre, seq![], *b);
                }
            },
            None => {
                let ghost mid = *b;
                b.warn_with(
                    DetectionSeverity::Warning,
                    DetectionCategory::MalformedManifest,
                    "go.mod was detected but no module declaration was parsed; Go commands were not inferred.",
                    Some("go.mod"),
                    Some(me),
                    Ghost(Some(("go.mod"@, "manifest"@, None, "Go module manifest detected."@))),
                );
                proof {
                    lemma_cites_quiet(s0, s0, *b, go_component_rule(), go_command_rule(*s), go_command_rule(*s));
                    lemma_warned_quiet(w0, pre, seq![], mid);
                    lemma_warned_step(w0, mid, seq![], *b, go_mod_warnings(*s));
                    assert(seq![] + go_mod_warnings(*s) =~= go_mod_warnings(*s));
                }
            },
        }
    }
    assert(warnings_added(w0, b.warnings@, b.evidence@, go_mod_warnings(*s)));
    assert(cites_added(s0, *b, go_component_rule(), go_command_rule(*s), go_command_rule(*s)));
    let ghost g0 = *b;
    if path_exists(s, "go.work") {
        let ghost pre = *b;
        let ev = b.add_detected_file("go.work", DetectedFileKind::WorkspaceConfig, "workspace_config", None, "Go workspace detected.");
        let members = match read_text(s, "go.work") {
            Some(text) => go_work_members(text.as_str()),
            None => Vec::new(),
        };
        proof {
            if members@.len() > 0 {
                assert(crate::textset::views(members@).to_set().contains(crate::textset::views(members@)[0]));
            } else {
                assert(crate::textset::views(members@).to_set() =~= Set::<Seq<char>>::empty());
            }
        }
        let empty = members.len() == 0;
        b.add_workspace("workspace-go", "go-workspace", members, ev.clone());
        proof {
            lemma_warned_quiet(w0, pre, go_mod_warnings(*s), *b);
        }
        if empty {
            let ghost mid = *b;
            b.warn_with(
                DetectionSeverity::Info,
                DetectionCategory::PartialSupport,
                "go.work was detected but no simple use members were parsed.",
                Some("go.work"),
                Some(ev),
                Ghost(Some(("go.work"@, "workspace_config"@, None, "Go workspace detected."@))),
            );
            proof {
                lemma_warned_step(w0, mid, go_mod_warnings(*s), *b, go_work_warnings(*s));
            }
        } else {
            proof {
                assert(go_mod_warnings(*s) + go_work_warnings(*s) =~= go_mod_warnings(*s));
            }
        }
    } else {
        proof {
            assert(go_mod_warnings(*s) + go_work_warnings(*s) =~= go_mod_warnings(*s));
        }
    }
    proof {
        lemma_cites_quiet(s0, g0, *b, go_component_rule(), go_command_rule(*s), go_command_rule(*s));
    }
}

} // verus!
