use vstd::prelude::*;

use super::builder::{
    lemma_warned_quiet, lemma_warned_step, lemma_warnings_chain, lemma_warnings_none, warnings_added, EvidenceDesc, WarningBase,
    cites_added, lemma_cites_chain, lemma_cites_command, lemma_cites_component, lemma_cites_none, lemma_cites_quiet, lemma_cites_test,
    lemma_cites_weaken, CiteRule,
    command_views, component_views, has_command, has_component, has_file, has_issue, has_manager, has_test, test_views, with_command,
    with_component, with_test, RepoGraphBuilder,
};
use super::manifest_text::{command_file_targets, command_kind_for_target, command_kind_for_target_exec, targets_state};
use super::snapshot::{exists_spec, path_exists, read_text, text_spec, RepoSnapshot};
use crate::textset::views;
use super::types::{DetectedFileKind, DetectionCategory, DetectionSeverity, PackageManagerKind, RepoCommandKind};
use crate::text::{chars_of, concat2, concat3, ends_with_text, lines_spec, owned, slashes, stable_id, stable_id_spec, starts_with_text};
use crate::textset::strictly_sorted;

verus! {

/// The path names an entry directly inside `.github/workflows` whose extension is
/// `yml` or `yaml`.
pub open spec fn is_workflow_file(p: Seq<char>) -> bool {
    let prefix = ".github/workflows/"@;
    let name = p.skip(prefix.len() as int);
    &&& prefix.is_prefix_of(p)
    &&& !name.contains('/')
    &&& (("yml"@.len() + 1 < name.len() && ".yml"@.is_suffix_of(name)) || ("yaml"@.len() + 1 < name.len() && ".yaml"@.is_suffix_of(name)))
}

fn is_workflow_file_exec(p: &str) -> (r: bool)
    ensures
        r == is_workflow_file(p@),
{
    proof {
        reveal_strlit(".github/workflows/");
        reveal_strlit("yml");
        reveal_strlit("yaml");
        reveal_strlit(".yml");
        reveal_strlit(".yaml");
    }
    if !starts_with_text(p, ".github/workflows/") {
        return false;
    }
    let v = chars_of(p);
    let mut i: usize = 18;
    let mut slash = false;
    while i < v.len()
        invariant
            v@ == p@,
            18 <= i <= v@.len(),
            slash == exists|k: int| 18 <= k < i && v@[k] == '/',
        decreases v@.len() - i,
    {
        if v[i] == '/' {
            slash = true;
        }
        i = i + 1;
    }
    let ghost name = p@.skip(18);
    proof {
        if slash {
            let k = choose|k: int| 18 <= k < v@.len() && v@[k] == '/';
            assert(name[k - 18] == '/');
        } else if name.contains('/') {
            let k = choose|k: int| 0 <= k < name.len() && name[k] == '/';
            assert(v@[k + 18] == '/');
        }
    }
    if slash {
        return false;
    }
    let n = v.len() - 18;
    proof {
        assert(name.len() == n);
        if ".yml"@.is_suffix_of(name) {
            assert(name.subrange(n - 4, n as int) =~= ".yml"@);
            assert(p@.subrange(p@.len() - 4, p@.len() as int) =~= ".yml"@);
        }
        if ".yml"@.is_suffix_of(p@) && n >= 4 {
            assert(p@.subrange(p@.len() - 4, p@.len() as int) =~= ".yml"@);
            assert(name.subrange(n - 4, n as int) =~= ".yml"@);
        }
        if ".yaml"@.is_suffix_of(name) {
            assert(name.subrange(n - 5, n as int) =~= ".yaml"@);
            assert(p@.subrange(p@.len() - 5, p@.len() as int) =~= ".yaml"@);
        }
        if ".yaml"@.is_suffix_of(p@) && n >= 5 {
            assert(p@.subrange(p@.len() - 5, p@.len() as int) =~= ".yaml"@);
            assert(name.subrange(n - 5, n as int) =~= ".yaml"@);
        }
    }
    (n > 4 && ends_with_text(p, ".yml")) || (n > 5 && ends_with_text(p, ".yaml"))
}

/// The commands after recording the conventional targets of a build file, in order:
/// `<tool> <target>` of the target's kind, scoped to the file's component.
pub open spec fn target_commands(tool: Seq<char>, scope_ref: Seq<char>, ts: Seq<Seq<char>>, cs: Seq<(Seq<char>, RepoCommandKind, Seq<char>, Seq<char>, Option<Seq<char>>, u32)>) -> Seq<(Seq<char>, RepoCommandKind, Seq<char>, Seq<char>, Option<Seq<char>>, u32)>
    decreases ts.len(),
{
    if ts.len() == 0 {
        cs
    } else {
        let prev = target_commands(tool, scope_ref, ts.drop_last(), cs);
        let t = ts.last();
        match command_kind_for_target(t) {
            Some(k) => with_command(prev, (stable_id_spec("cmd-"@ + tool, t), k, tool + " "@ + t, "."@, Some(scope_ref), 75)),
            None => prev,
        }
    }
}

/// The test targets after recording the `test` targets of a build file, in order.
pub open spec fn target_tests(tool: Seq<char>, scope_ref: Seq<char>, ts: Seq<Seq<char>>, tt: Seq<(Seq<char>, Seq<char>, Seq<char>, Seq<char>, Option<Seq<char>>, u32)>) -> Seq<(Seq<char>, Seq<char>, Seq<char>, Seq<char>, Option<Seq<char>>, u32)>
    decreases ts.len(),
{
    if ts.len() == 0 {
        tt
    } else {
        let prev = target_tests(tool, scope_ref, ts.drop_last(), tt);
        let t = ts.last();
        if command_kind_for_target(t) == Some(RepoCommandKind::Test) {
            with_test(prev, (stable_id_spec("test-"@ + tool, t), tool + " "@ + t, tool + " "@ + t, "."@, Some(scope_ref), 75))
        } else {
            prev
        }
    }
}

/// What `<tool> <target>` cites, as a command or a test target: the target's line
/// in the build file.
pub open spec fn command_file_rule(file: Seq<char>, tool: Seq<char>) -> CiteRule {
    |c: Seq<char>, d: EvidenceDesc|
        exists|t: Seq<char>|
            #![trigger "target."@ + t]
            c == tool + " "@ + t && d == (slashes(file), "build_target"@, Some("target."@ + t), "Build file target detected."@)
}

/// What the component of a build file cites: the detected file.
pub open spec fn command_file_component_rule(file: Seq<char>, reason: Seq<char>) -> CiteRule {
    |id: Seq<char>, d: EvidenceDesc| d == (slashes(file), "build_config"@, None::<Seq<char>>, reason)
}

/// What the components of build files cite: the Makefile or the justfile.
pub open spec fn generic_component_rule() -> CiteRule {
    |id: Seq<char>, d: EvidenceDesc|
        command_file_component_rule("Makefile"@, "Makefile detected."@)(id, d) || command_file_component_rule(
            "justfile"@,
            "justfile detected."@,
        )(id, d)
}

/// What the commands and test targets of build files cite: their target lines.
pub open spec fn generic_command_rule() -> CiteRule {
    |c: Seq<char>, d: EvidenceDesc| command_file_rule("Makefile"@, "make"@)(c, d) || command_file_rule("justfile"@, "just"@)(c, d)
}

/// Records a command (and a test target for `test`) for each conventional target.
fn add_command_file_targets(
    b: &mut RepoGraphBuilder,
    file_name: &str,
    tool: &str,
    scope_ref: &str,
    targets: &Vec<String>,
    Ghost(pok): Ghost<CiteRule>,
)
    requires
        old(b).wf(),
    ensures
        cites_added(*old(b), *final(b), pok, command_file_rule(file_name@, tool@), command_file_rule(file_name@, tool@)),
        final(b).wf(),
        final(b).keeps_known(old(b)),
        final(b).extends(old(b)),
        forall|k: int| 0 <= k < targets@.len() && #[trigger] command_kind_for_target(targets@[k]@) is Some ==> has_command(
            final(b).commands@,
            tool@ + " "@ + targets@[k]@,
        ),
        forall|k: int| 0 <= k < targets@.len() && #[trigger] command_kind_for_target(targets@[k]@) == Some(RepoCommandKind::Test)
            ==> has_test(final(b).tests@, tool@ + " "@ + targets@[k]@),
        final(b).components@ == old(b).components@,
        final(b).warnings@ == old(b).warnings@,
        command_views(final(b).commands@) == target_commands(tool@, scope_ref@, views(targets@), command_views(old(b).commands@)),
        test_views(final(b).tests@) == target_tests(tool@, scope_ref@, views(targets@), test_views(old(b).tests@)),
{
    let cmd_prefix = concat2("cmd-", tool);
    let test_prefix = concat2("test-", tool);
    let ghost rule = command_file_rule(file_name@, tool@);
    proof {
        lemma_cites_none(*b, *b, pok, rule, rule);
    }
    let mut i: usize = 0;
    while i < targets.len()
        invariant
            i <= targets@.len(),
            rule == command_file_rule(file_name@, tool@),
            cites_added(*old(b), *b, pok, rule, rule),
            b.wf(),
            b.keeps_known(old(b)),
            b.extends(old(b)),
            forall|k: int| 0 <= k < i && #[trigger] command_kind_for_target(targets@[k]@) is Some ==> has_command(
                b.commands@,
                tool@ + " "@ + targets@[k]@,
            ),
            forall|k: int| 0 <= k < i && #[trigger] command_kind_for_target(targets@[k]@) == Some(RepoCommandKind::Test)
                ==> has_test(b.tests@, tool@ + " "@ + targets@[k]@),
            b.components@ == old(b).components@,
            b.warnings@ == old(b).warnings@,
            cmd_prefix@ == "cmd-"@ + tool@,
            test_prefix@ == "test-"@ + tool@,
            command_views(b.commands@) == target_commands(tool@, scope_ref@, views(targets@).take(i as int), command_views(old(b).commands@)),
            test_views(b.tests@) == target_tests(tool@, scope_ref@, views(targets@).take(i as int), test_views(old(b).tests@)),
        decreases targets@.len() - i,
    {
        let target = &targets[i];
        assert(views(targets@).take(i + 1).drop_last() =~= views(targets@).take(i as int));
        assert(views(targets@).take(i + 1).last() == target@);
        match command_kind_for_target_exec(target.as_str()) {
            Some(kind) => {
                let field = concat2("target.", target.as_str());
                let ghost q0 = *b;
                let ev = b.add_evidence(file_name, "build_target", Some(field.as_str()), "Build file target detected.");
                let command = concat3(tool, " ", target.as_str());
                let id = stable_id(cmd_prefix.as_str(), target.as_str());
                let ghost d: EvidenceDesc = (slashes(file_name@), "build_target"@, Some("target."@ + target@), "Build file target detected."@);
                let ghost q1 = *b;
                proof {
                    lemma_cites_quiet(*old(b), q0, q1, pok, rule, rule);
                    assert(rule(command@, d));
                }
                b.add_command(id.as_str(), kind, command.as_str(), Some(scope_ref), 75, ev.clone());
                let ghost q2 = *b;
                proof {
                    lemma_cites_command(q1, q2, command@, ev@, d, pok, rule, rule);
                    lemma_cites_chain(*old(b), q1, q2, pok, rule, rule);
                }
                if kind == RepoCommandKind::Test {
                    let test_id = stable_id(test_prefix.as_str(), target.as_str());
                    b.add_test(test_id.as_str(), command.as_str(), command.as_str(), Some(scope_ref), 75, ev);
                    proof {
                        lemma_cites_test(q2, *b, command@, ev@, d, pok, rule, rule);
                        lemma_cites_chain(*old(b), q2, *b, pok, rule, rule);
                    }
                }
            },
            None => {},
        }
        i = i + 1;
    }
    assert(views(targets@).take(i as int) =~= views(targets@));
}

fn has_test_target(targets: &Vec<String>) -> (r: bool)
    ensures
        r == views(targets@).contains("test"@),
{
    let mut i: usize = 0;
    while i < targets.len()
        invariant
            i <= targets@.len(),
            forall|k: int| 0 <= k < i ==> views(targets@)[k] != "test"@,
        decreases targets@.len() - i,
    {
        if crate::text::text_eq(targets[i].as_str(), "test") {
            assert(views(targets@)[i as int] == "test"@);
            return true;
        }
        i = i + 1;
    }
    false
}

/// The conventional targets that a build file names, and the number of target-like
/// lines left alone, when its text was read.
pub open spec fn command_targets_of(s: RepoSnapshot, file_name: Seq<char>) -> (Set<Seq<char>>, nat) {
    match text_spec(s, file_name) {
        Some(t) => targets_state(lines_spec(t)),
        None => (Set::empty(), 0),
    }
}

/// What a present build file gives: the file, its tool, its component, a command
/// for each conventional target (and a test target for `test`), and warnings when
/// there is no test target or some target-like lines were left alone.
pub open spec fn command_file_recorded(
    b: RepoGraphBuilder,
    path: Seq<char>,
    tool: Seq<char>,
    kind: PackageManagerKind,
    component_id: Seq<char>,
    targets: (Set<Seq<char>>, nat),
    no_test_message: Seq<char>,
    ambiguous_message: Seq<char>,
) -> bool {
    &&& has_file(b.detected_files@, path, DetectedFileKind::BuildConfig)
    &&& has_manager(b.package_managers@, kind, tool)
    &&& has_component(b.components@, component_id)
    &&& forall|t: Seq<char>| targets.0.contains(t) && #[trigger] command_kind_for_target(t) is Some ==> has_command(b.commands@, tool + " "@ + t)
    &&& forall|t: Seq<char>| targets.0.contains(t) && #[trigger] command_kind_for_target(t) == Some(RepoCommandKind::Test) ==> has_test(
        b.tests@,
        tool + " "@ + t,
    )
    &&& !targets.0.contains("test"@) ==> has_issue(b.warnings@, DetectionSeverity::Info, DetectionCategory::MissingCommand, no_test_message, Some(path))
    &&& targets.1 > 0 ==> has_issue(b.warnings@, DetectionSeverity::Warning, DetectionCategory::PartialSupport, ambiguous_message, Some(path))
}

/// What a build file does to the components, commands and test targets: nothing
/// when it is absent; else its component, and the commands and test targets of its
/// conventional targets in increasing order.
pub open spec fn command_file_effect(
    s: RepoSnapshot,
    file_name: Seq<char>,
    tool: Seq<char>,
    component_id: Seq<char>,
    component_name: Seq<char>,
    component_kind: Seq<char>,
    c0: Seq<(Seq<char>, Seq<char>, Seq<char>, Seq<char>, Seq<Seq<char>>)>,
    m0: Seq<(Seq<char>, RepoCommandKind, Seq<char>, Seq<char>, Option<Seq<char>>, u32)>,
    t0: Seq<(Seq<char>, Seq<char>, Seq<char>, Seq<char>, Option<Seq<char>>, u32)>,
    c1: Seq<(Seq<char>, Seq<char>, Seq<char>, Seq<char>, Seq<Seq<char>>)>,
    m1: Seq<(Seq<char>, RepoCommandKind, Seq<char>, Seq<char>, Option<Seq<char>>, u32)>,
    t1: Seq<(Seq<char>, Seq<char>, Seq<char>, Seq<char>, Option<Seq<char>>, u32)>,
) -> bool {
    if !exists_spec(s, file_name) {
        c1 == c0 && m1 == m0 && t1 == t0
    } else {
        &&& c1 == with_component(c0, (component_id, component_name, component_kind, "."@, seq![file_name]))
        &&& exists|ts: Seq<Seq<char>>|
            #![trigger target_commands(tool, component_id, ts, m0)]
            strictly_sorted(ts) && ts.to_set() == command_targets_of(s, file_name).0 && m1 == target_commands(tool, component_id, ts, m0)
                && t1 == target_tests(tool, component_id, ts, t0)
    }
}

/// Every warning added with the category `PartialSupport` has one of the messages and
/// is owed to target-like lines left alone in the build file of that message.
pub open spec fn partial_support_owed(
    s: RepoSnapshot,
    before: Seq<super::types::DetectionIssue>,
    after: Seq<super::types::DetectionIssue>,
    files: Seq<(Seq<char>, Seq<char>)>,
) -> bool {
    forall|i: int|
        before.len() <= i < after.len() && (#[trigger] after[i]).category == DetectionCategory::PartialSupport ==> exists|f: int|
            0 <= f < files.len() && after[i].message@ == files[f].1 && command_targets_of(s, #[trigger] files[f].0).1 > 0
}

/// The warnings of a present build file, in order, each backed by the file's
/// evidence: no test target, then target-like lines left alone.
pub open spec fn command_file_warnings(
    s: RepoSnapshot,
    file_name: Seq<char>,
    detected_reason: Seq<char>,
    no_test_message: Seq<char>,
    ambiguous_message: Seq<char>,
) -> Seq<(WarningBase, Option<EvidenceDesc>)> {
    let d: EvidenceDesc = (slashes(file_name), "build_config"@, None, detected_reason);
    if !exists_spec(s, file_name) {
        seq![]
    } else {
        (if !command_targets_of(s, file_name).0.contains("test"@) {
            seq![((DetectionSeverity::Info, DetectionCategory::MissingCommand, no_test_message, Some(slashes(file_name))), Some(d))]
        } else {
            seq![]
        }) + (if command_targets_of(s, file_name).1 > 0 {
            seq![((DetectionSeverity::Warning, DetectionCategory::PartialSupport, ambiguous_message, Some(slashes(file_name))), Some(d))]
        } else {
            seq![]
        })
    }
}

/// The warnings of a `Makefile`.
pub open spec fn makefile_warnings(s: RepoSnapshot) -> Seq<(WarningBase, Option<EvidenceDesc>)> {
    command_file_warnings(
        s,
        "Makefile"@,
        "Makefile detected."@,
        "Makefile detected but no test target was parsed."@,
        "Makefile contains target-like lines that were not parsed conservatively."@,
    )
}

/// The warnings of a `justfile`.
pub open spec fn justfile_warnings(s: RepoSnapshot) -> Seq<(WarningBase, Option<EvidenceDesc>)> {
    command_file_warnings(
        s,
        "justfile"@,
        "justfile detected."@,
        "justfile detected but no test recipe was parsed."@,
        "justfile contains recipe-like lines that were not parsed conservatively."@,
    )
}

/// The warnings of build, container and workflow detection, in order.
pub open spec fn generic_warnings(s: RepoSnapshot) -> Seq<(WarningBase, Option<EvidenceDesc>)> {
    makefile_warnings(s) + justfile_warnings(s)
}

/// Detects a build file (Makefile or justfile) with its conventional targets.
fn detect_command_file(
    s: &RepoSnapshot,
    b: &mut RepoGraphBuilder,
    file_name: &str,
    tool: &str,
    kind: PackageManagerKind,
    component_id: &str,
    component_name: &str,
    component_kind: &str,
    detected_reason: &str,
    no_test_message: &str,
    ambiguous_message: &str,
)
    requires
        old(b).wf(),
    ensures
        final(b).wf(),
        final(b).keeps_known(old(b)),
        final(b).extends(old(b)),
        !exists_spec(*s, file_name@) ==> *final(b) == *old(b),
        exists_spec(*s, file_name@) ==> command_file_recorded(
            *final(b),
            slashes(file_name@),
            tool@,
            kind,
            component_id@,
            command_targets_of(*s, file_name@),
            no_test_message@,
            ambiguous_message@,
        ),
        command_file_effect(
            *s,
            file_name@,
            tool@,
            component_id@,
            component_name@,
            component_kind@,
            component_views(old(b).components@),
            command_views(old(b).commands@),
            test_views(old(b).tests@),
            component_views(final(b).components@),
            command_views(final(b).commands@),
            test_views(final(b).tests@),
        ),
        partial_support_owed(*s, old(b).warnings@, final(b).warnings@, seq![(file_name@, ambiguous_message@)]),
        cites_added(
            *old(b),
            *final(b),
            command_file_component_rule(file_name@, detected_reason@),
            command_file_rule(file_name@, tool@),
            command_file_rule(file_name@, tool@),
        ),
        warnings_added(
            old(b).warnings@,
            final(b).warnings@,
            final(b).evidence@,
            command_file_warnings(*s, file_name@, detected_reason@, no_test_message@, ambiguous_message@),
        ),
{
    let ghost s0 = *b;
    let ghost pr = command_file_component_rule(file_name@, detected_reason@);
    let ghost cr = command_file_rule(file_name@, tool@);
    proof {
        lemma_cites_none(s0, s0, pr, cr, cr);
    }
    if !path_exists(s, file_name) {
        proof {
            lemma_warnings_none(b.warnings@, b.evidence@);
        }
        return;
    }
    let ev = b.add_detected_file(file_name, DetectedFileKind::BuildConfig, "build_config", None, detected_reason);
    b.add_package_manager(kind, tool, ev.clone());
    let mut patterns: Vec<String> = Vec::new();
    patterns.push(owned(file_name));
    assert(views(patterns@) =~= seq![file_name@]);
    let ghost q0 = *b;
    proof {
        lemma_cites_quiet(s0, s0, q0, pr, cr, cr);
    }
    b.add_component(component_id, component_name, component_kind, ".", patterns, ev.clone());
    let ghost q1 = *b;
    proof {
        lemma_cites_component(q0, q1, component_id@, ev@, (slashes(file_name@), "build_config"@, None::<Seq<char>>, detected_reason@), pr, cr, cr);
        lemma_cites_chain(s0, q0, q1, pr, cr, cr);
    }
    let ghost mid_c = component_views(b.components@);
    let ghost mid_m = command_views(b.commands@);
    let ghost mid_t = test_views(b.tests@);
    let (targets, ambiguous) = match read_text(s, file_name) {
        Some(text) => command_file_targets(text.as_str()),
        None => (Vec::new(), 0),
    };
    add_command_file_targets(b, file_name, tool, component_id, &targets, Ghost(pr));
    let ghost q2 = *b;
    proof {
        lemma_cites_chain(s0, q1, q2, pr, cr, cr);
        let t = command_targets_of(*s, file_name@).0;
        assert(views(targets@).to_set() == t);
        assert forall|name: Seq<char>| t.contains(name) && command_kind_for_target(name) is Some implies has_command(
            b.commands@,
            tool@ + " "@ + name,
        ) by {
            assert(views(targets@).to_set().contains(name));
            let k = choose|k: int| 0 <= k < views(targets@).len() && views(targets@)[k] == name;
            assert(command_kind_for_target(targets@[k]@) is Some);
        }
        assert forall|name: Seq<char>| t.contains(name) && command_kind_for_target(name) == Some(RepoCommandKind::Test) implies has_test(
            b.tests@,
            tool@ + " "@ + name,
        ) by {
            assert(views(targets@).to_set().contains(name));
            let k = choose|k: int| 0 <= k < views(targets@).len() && views(targets@)[k] == name;
            assert(command_kind_for_target(targets@[k]@) == Some(RepoCommandKind::Test));
        }
        assert(views(targets@).contains("test"@) == t.contains("test"@));
        assert(target_commands(tool@, component_id@, views(targets@), mid_m) == command_views(b.commands@));
    }
    let ghost w0 = b.warnings@;
    assert(w0 == old(b).warnings@);
    let ghost d: EvidenceDesc = (slashes(file_name@), "build_config"@, None, detected_reason@);
    let ghost x1: Seq<(WarningBase, Option<EvidenceDesc>)> = if !command_targets_of(*s, file_name@).0.contains("test"@) {
        seq![((DetectionSeverity::Info, DetectionCategory::MissingCommand, no_test_message@, Some(slashes(file_name@))), Some(d))]
    } else {
        seq![]
    };
    let ghost x2: Seq<(WarningBase, Option<EvidenceDesc>)> = if command_targets_of(*s, file_name@).1 > 0 {
        seq![((DetectionSeverity::Warning, DetectionCategory::PartialSupport, ambiguous_message@, Some(slashes(file_name@))), Some(d))]
    } else {
        seq![]
    };
    let ghost p0 = *b;
    if !has_test_target(&targets) {
        b.warn_with(
            DetectionSeverity::Info,
            DetectionCategory::MissingCommand,
            no_test_message,
            Some(file_name),
            Some(ev.clone()),
            Ghost(Some(d)),
        );
    } else {
        proof {
            lemma_warnings_none(w0, b.evidence@);
        }
    }
    let ghost w1 = b.warnings@;
    let ghost p1 = *b;
    if ambiguous > 0 {
        b.warn_with(
            DetectionSeverity::Warning,
            DetectionCategory::PartialSupport,
            ambiguous_message,
            Some(file_name),
            Some(ev),
            Ghost(Some(d)),
        );
    } else {
        proof {
            lemma_warnings_none(w1, b.evidence@);
        }
    }
    proof {
        lemma_cites_quiet(s0, q2, *b, pr, cr, cr);
        lemma_warned_step(w0, p1, x1, *b, x2);
        assert(x1 + x2 =~= command_file_warnings(*s, file_name@, detected_reason@, no_test_message@, ambiguous_message@));
    }
    proof {
        let files = seq![(file_name@, ambiguous_message@)];
        assert forall|i: int| w0.len() <= i < b.warnings@.len() && (#[trigger] b.warnings@[i]).category == DetectionCategory::PartialSupport implies exists|f: int|
            0 <= f < files.len() && b.warnings@[i].message@ == files[f].1 && command_targets_of(*s, #[trigger] files[f].0).1 > 0 by {
            if i < w1.len() {
                assert(b.warnings@[i] == w1[i]);
                assert(w1[i].category == DetectionCategory::MissingCommand);
            } else {
                assert(files[0].0 == file_name@);
            }
        }
    }
}

/// The Compose files that are recognised.
pub open spec fn compose_names() -> Seq<Seq<char>> {
    seq!["docker-compose.yml"@, "docker-compose.yaml"@, "compose.yml"@, "compose.yaml"@]
}

/// Some build, container or workflow file is present.
pub open spec fn generic_detected(s: RepoSnapshot) -> bool {
    ||| exists_spec(s, "Makefile"@)
    ||| exists_spec(s, "justfile"@)
    ||| exists_spec(s, "Dockerfile"@)
    ||| exists|c: int| 0 <= c < 4 && exists_spec(s, #[trigger] compose_names()[c])
    ||| exists|i: int| 0 <= i < s.entries@.len() && is_workflow_file(#[trigger] s.entries@[i].path@)
}

/// What build, container and workflow detection records of a repository.
pub open spec fn generic_recorded(s: RepoSnapshot, b: RepoGraphBuilder) -> bool {
    &&& exists_spec(s, "Makefile"@) ==> command_file_recorded(
        b,
        "Makefile"@,
        "make"@,
        PackageManagerKind::Make,
        "component-make-project"@,
        command_targets_of(s, "Makefile"@),
        "Makefile detected but no test target was parsed."@,
        "Makefile contains target-like lines that were not parsed conservatively."@,
    )
    &&& exists_spec(s, "justfile"@) ==> command_file_recorded(
        b,
        "justfile"@,
        "just"@,
        PackageManagerKind::Just,
        "component-just-project"@,
        command_targets_of(s, "justfile"@),
        "justfile detected but no test recipe was parsed."@,
        "justfile contains recipe-like lines that were not parsed conservatively."@,
    )
    &&& exists_spec(s, "Dockerfile"@) ==> has_file(b.detected_files@, "Dockerfile"@, DetectedFileKind::ContainerConfig)
        && has_manager(b.package_managers@, PackageManagerKind::Docker, "docker"@)
    &&& forall|c: int| 0 <= c < 4 && exists_spec(s, #[trigger] compose_names()[c]) ==> has_file(
        b.detected_files@,
        compose_names()[c],
        DetectedFileKind::ContainerConfig,
    ) && has_manager(b.package_managers@, PackageManagerKind::Docker, "docker"@)
    &&& forall|i: int| 0 <= i < s.entries@.len() && is_workflow_file(#[trigger] s.entries@[i].path@) ==> has_file(
        b.detected_files@,
        slashes(s.entries@[i].path@),
        DetectedFileKind::Workflow,
    ) && has_manager(b.package_managers@, PackageManagerKind::GitHubActions, "github_actions"@)
}

/// Detects build files (Makefile, justfile), container files (Dockerfile, Compose
/// files) and GitHub Actions workflows.
pub fn detect_generic(s: &RepoSnapshot, b: &mut RepoGraphBuilder)
    requires
        old(b).wf(),
    ensures
        final(b).wf(),
        final(b).keeps_known(old(b)),
        final(b).extends(old(b)),
        !generic_detected(*s) ==> *final(b) == *old(b),
        generic_recorded(*s, *final(b)),
        exists|c: Seq<(Seq<char>, Seq<char>, Seq<char>, Seq<char>, Seq<Seq<char>>)>, m: Seq<(Seq<char>, RepoCommandKind, Seq<char>, Seq<char>, Option<Seq<char>>, u32)>, t: Seq<(Seq<char>, Seq<char>, Seq<char>, Seq<char>, Option<Seq<char>>, u32)>|
            #[trigger] command_file_effect(
                *s,
                "Makefile"@,
                "make"@,
                "component-make-project"@,
                "make-project"@,
                "generic_make_project"@,
                component_views(old(b).components@),
                command_views(old(b).commands@),
                test_views(old(b).tests@),
                c,
                m,
                t,
            ) && command_file_effect(
                *s,
                "justfile"@,
                "just"@,
                "component-just-project"@,
                "just-project"@,
                "generic_just_project"@,
                c,
                m,
                t,
                component_views(final(b).components@),
                command_views(final(b).commands@),
                test_views(final(b).tests@),
            ),
        partial_support_owed(
            *s,
            old(b).warnings@,
            final(b).warnings@,
            seq![
                ("Makefile"@, "Makefile contains target-like lines that were not parsed conservatively."@),
                ("justfile"@, "justfile contains recipe-like lines that were not parsed conservatively."@),
            ],
        ),
        warnings_added(old(b).warnings@, final(b).warnings@, final(b).evidence@, generic_warnings(*s)),
        cites_added(*old(b), *final(b), generic_component_rule(), generic_command_rule(), generic_command_rule()),
{
    proof {
        reveal_strlit("Makefile");
        reveal_strlit("justfile");
        reveal_strlit("Dockerfile");
        reveal_strlit("docker-compose.yml");
        reveal_strlit("docker-compose.yaml");
        reveal_strlit("compose.yml");
        reveal_strlit("compose.yaml");
        assert(slashes("Makefile"@) =~= "Makefile"@);
        assert(slashes("justfile"@) =~= "justfile"@);
        assert(slashes("Dockerfile"@) =~= "Dockerfile"@);
        assert forall|c: int| 0 <= c < 4 implies slashes(#[trigger] compose_names()[c]) == compose_names()[c] by {
            assert(slashes(compose_names()[c]) =~= compose_names()[c]);
        }
    }
    detect_command_file(
        s,
        b,
        "Makefile",
        "make",
        PackageManagerKind::Make,
        "component-make-project",
        "make-project",
        "generic_make_project",
        "Makefile detected.",
        "Makefile detected but no test target was parsed.",
        "Makefile contains target-like lines that were not parsed conservatively.",
    );
    let ghost mc = component_views(b.components@);
    let ghost mm = command_views(b.commands@);
    let ghost mt = test_views(b.tests@);
    let ghost mw = b.warnings@;
    let ghost mb = *b;
    detect_command_file(
        s,
        b,
        "justfile",
        "just",
        PackageManagerKind::Just,
        "component-just-project",
        "just-project",
        "generic_just_project",
        "justfile detected.",
        "justfile detected but no test recipe was parsed.",
        "justfile contains recipe-like lines that were not parsed conservatively.",
    );
    let ghost mj = *b;
    if path_exists(s, "Dockerfile") {
        let ev = b.add_detected_file("Dockerfile", DetectedFileKind::ContainerConfig, "container_config", None, "Dockerfile detected.");
        b.add_package_manager(PackageManagerKind::Docker, "docker", ev);
    }
    let ghost after_just = *b;
    proof {
        lemma_warned_step(old(b).warnings@, mb, makefile_warnings(*s), after_just, justfile_warnings(*s));
        let p1 = command_file_component_rule("Makefile"@, "Makefile detected."@);
        let c1 = command_file_rule("Makefile"@, "make"@);
        let p2 = command_file_component_rule("justfile"@, "justfile detected."@);
        let c2 = command_file_rule("justfile"@, "just"@);
        lemma_cites_weaken(*old(b), mb, p1, c1, c1, generic_component_rule(), generic_command_rule(), generic_command_rule());
        lemma_cites_quiet(mb, mj, after_just, p2, c2, c2);
        lemma_cites_weaken(mb, after_just, p2, c2, c2, generic_component_rule(), generic_command_rule(), generic_command_rule());
        lemma_cites_chain(*old(b), mb, after_just, generic_component_rule(), generic_command_rule(), generic_command_rule());
    }
    proof {
        reveal_strlit("Makefile contains target-like lines that were not parsed conservatively.");
        reveal_strlit("justfile contains recipe-like lines that were not parsed conservatively.");
        let files = seq![
            ("Makefile"@, "Makefile contains target-like lines that were not parsed conservatively."@),
            ("justfile"@, "justfile contains recipe-like lines that were not parsed conservatively."@),
        ];
        let f1 = seq![("Makefile"@, "Makefile contains target-like lines that were not parsed conservatively."@)];
        let f2 = seq![("justfile"@, "justfile contains recipe-like lines that were not parsed conservatively."@)];
        assert forall|i: int| old(b).warnings@.len() <= i < b.warnings@.len() && (#[trigger] b.warnings@[i]).category
            == DetectionCategory::PartialSupport implies exists|f: int|
            0 <= f < files.len() && b.warnings@[i].message@ == files[f].1 && command_targets_of(*s, #[trigger] files[f].0).1 > 0 by {
            if i < mw.len() {
                assert(b.warnings@[i] == mw[i]);
                let f = choose|f: int| 0 <= f < f1.len() && mw[i].message@ == f1[f].1 && command_targets_of(*s, #[trigger] f1[f].0).1 > 0;
                assert(files[0] == f1[0]);
            } else {
                let f = choose|f: int| 0 <= f < f2.len() && b.warnings@[i].message@ == f2[f].1 && command_targets_of(*s, #[trigger] f2[f].0).1 > 0;
                assert(files[1] == f2[0]);
            }
        }
    }
    let ghost after_files = *b;
    let compose: [&str; 4] = ["docker-compose.yml", "docker-compose.yaml", "compose.yml", "compose.yaml"];
    assert(forall|c: int| 0 <= c < 4 ==> #[trigger] compose@[c]@ == compose_names()[c]);
    let mut c: usize = 0;
    while c < 4
        invariant
            c <= 4,
            b.wf(),
            b.keeps_known(old(b)),
            b.keeps_known(&after_just),
            b.extends(&after_files),
            after_files.extends(&*old(b)),
            forall|k: int| 0 <= k < 4 ==> #[trigger] compose@[k]@ == compose_names()[k],
            forall|k: int| 0 <= k < 4 ==> slashes(#[trigger] compose_names()[k]) == compose_names()[k],
            (forall|k: int| 0 <= k < c ==> !exists_spec(*s, #[trigger] compose_names()[k])) ==> *b == after_files,
            b.components@ == after_files.components@,
            b.warnings@ == after_files.warnings@,
            b.commands@ == after_files.commands@,
            b.tests@ == after_files.tests@,
            forall|k: int| 0 <= k < c && exists_spec(*s, #[trigger] compose_names()[k]) ==> has_file(
                b.detected_files@,
                compose_names()[k],
                DetectedFileKind::ContainerConfig,
            ) && has_manager(b.package_managers@, PackageManagerKind::Docker, "docker"@),
        decreases 4 - c,
    {
        if path_exists(s, compose[c]) {
            let ev = b.add_detected_file(compose[c], DetectedFileKind::ContainerConfig, "container_config", None, "Docker Compose file detected.");
            b.add_package_manager(PackageManagerKind::Docker, "docker", ev);
        }
        c = c + 1;
    }
    let ghost after_compose = *b;
    let mut i: usize = 0;
    while i < s.entries.len()
        invariant
            i <= s.entries@.len(),
            b.wf(),
            b.keeps_known(old(b)),
            b.keeps_known(&after_just),
            b.extends(&after_compose),
            (forall|k: int| 0 <= k < i ==> !is_workflow_file(#[trigger] s.entries@[k].path@)) ==> *b == after_compose,
            b.components@ == after_compose.components@,
            b.warnings@ == after_compose.warnings@,
            b.commands@ == after_compose.commands@,
            b.tests@ == after_compose.tests@,
            forall|k: int| 0 <= k < i && is_workflow_file(#[trigger] s.entries@[k].path@) ==> has_file(
                b.detected_files@,
                slashes(s.entries@[k].path@),
                DetectedFileKind::Workflow,
            ) && has_manager(b.package_managers@, PackageManagerKind::GitHubActions, "github_actions"@),
        decreases s.entries@.len() - i,
    {
        if is_workflow_file_exec(s.entries[i].path.as_str()) {
            let ev = b.add_detected_file(
                s.entries[i].path.as_str(),
                DetectedFileKind::Workflow,
                "workflow",
                None,
                "GitHub Actions workflow detected.",
            );
            b.add_package_manager(PackageManagerKind::GitHubActions, "github_actions", ev);
        }
        i = i + 1;
    }
    proof {
        lemma_warned_quiet(old(b).warnings@, after_just, generic_warnings(*s), *b);
        lemma_cites_quiet(*old(b), after_just, *b, generic_component_rule(), generic_command_rule(), generic_command_rule());
    }
    assert(component_views(b.components@) == component_views(after_just.components@));
    assert(command_views(b.commands@) == command_views(after_just.commands@));
    assert(test_views(b.tests@) == test_views(after_just.tests@));
}

} // verus!
