use vstd::prelude::*;

use super::builder::{
    cites_added, lemma_cites_chain, lemma_cites_command, lemma_cites_component, lemma_cites_none, lemma_cites_quiet, lemma_cites_test,
    CiteRule,
    lemma_warned_quiet, lemma_warned_step, lemma_warnings_none, warnings_added, EvidenceDesc, WarningBase,
    command_views, component_views, has_command, has_component, has_file, has_issue, has_manager, has_test, has_workspace, test_views,
    with_command, with_component, with_test, RepoGraphBuilder,
};
use super::config::{as_text, cfg_get, cfg_str, cfg_table, get_key, ConfigValue};
use super::manifest_config::{package_json_workspaces, package_json_workspaces_exec};
use super::manifest_text::{yaml_packages, yaml_state};
use super::snapshot::{
    document_spec, exists_spec, manifest_warning_category, manifest_warning_category_spec, path_exists, read_document, read_text,
    text_spec, RepoSnapshot,
};
use super::types::{DetectedFileKind, DetectionCategory, DetectionSeverity, PackageManagerKind, RelationshipKind, RepoCommandKind};
use crate::text::{concat2, lines_spec, owned, slashes};
use crate::textset::views;

verus! {

/// The scripts table defines the script as text.
pub open spec fn has_script(scripts: ConfigValue, name: Seq<char>) -> bool {
    cfg_str(cfg_get(Some(scripts), name)) is Some
}

/// The commands after recording a package script: `npm run <name>` of the kind and
/// confidence when the scripts table defines it.
pub open spec fn node_script_command(scripts: ConfigValue, cs: Seq<(Seq<char>, RepoCommandKind, Seq<char>, Seq<char>, Option<Seq<char>>, u32)>, name: Seq<char>, kind: RepoCommandKind, confidence: u32) -> Seq<(Seq<char>, RepoCommandKind, Seq<char>, Seq<char>, Option<Seq<char>>, u32)> {
    if has_script(scripts, name) {
        with_command(cs, ("cmd-npm-"@ + name, kind, "npm run "@ + name, "."@, Some("component-node-package"@), confidence))
    } else {
        cs
    }
}

/// The scripts table of a package manifest, when it has one.
pub open spec fn node_scripts_table(m: ConfigValue) -> Option<ConfigValue> {
    match cfg_get(Some(m), "scripts"@) {
        Some(scripts) => if cfg_table(Some(scripts)) is Some {
            Some(scripts)
        } else {
            None
        },
        None => None,
    }
}

/// The commands that the scripts of a package manifest give: `test`, `build`,
/// `lint`, `check` and `typecheck`, in that order, for those it defines.
pub open spec fn node_script_commands(scripts: ConfigValue, cs: Seq<(Seq<char>, RepoCommandKind, Seq<char>, Seq<char>, Option<Seq<char>>, u32)>) -> Seq<(Seq<char>, RepoCommandKind, Seq<char>, Seq<char>, Option<Seq<char>>, u32)> {
    let c1 = node_script_command(scripts, cs, "test"@, RepoCommandKind::Test, 90);
    let c2 = node_script_command(scripts, c1, "build"@, RepoCommandKind::Build, 85);
    let c3 = node_script_command(scripts, c2, "lint"@, RepoCommandKind::Lint, 85);
    let c4 = node_script_command(scripts, c3, "check"@, RepoCommandKind::Check, 80);
    node_script_command(scripts, c4, "typecheck"@, RepoCommandKind::Typecheck, 80)
}

/// The test targets that the scripts of a package manifest give: `npm run test`
/// when it defines `test`.
pub open spec fn node_script_tests(scripts: ConfigValue, ts: Seq<(Seq<char>, Seq<char>, Seq<char>, Seq<char>, Option<Seq<char>>, u32)>) -> Seq<(Seq<char>, Seq<char>, Seq<char>, Seq<char>, Option<Seq<char>>, u32)> {
    if has_script(scripts, "test"@) {
        with_test(ts, ("test-npm-"@ + "test"@, "test"@, "npm run "@ + "test"@, "."@, Some("component-node-package"@), 90))
    } else {
        ts
    }
}

/// The root `package.json`, when it is present and parses.
pub open spec fn package_json_doc(s: RepoSnapshot) -> Option<ConfigValue> {
    if exists_spec(s, "package.json"@) {
        match document_spec(s, "package.json"@) {
            Ok(m) => Some(m),
            Err(_) => None,
        }
    } else {
        None
    }
}

/// The components after Node detection: the package, named by its manifest, when
/// the manifest parses and names it.
pub open spec fn node_components(s: RepoSnapshot, cs: Seq<(Seq<char>, Seq<char>, Seq<char>, Seq<char>, Seq<Seq<char>>)>) -> Seq<(Seq<char>, Seq<char>, Seq<char>, Seq<char>, Seq<Seq<char>>)> {
    match package_json_doc(s) {
        Some(m) => match cfg_str(cfg_get(Some(m), "name"@)) {
            Some(n) => with_component(
                cs,
                ("component-node-package"@, n, "node_package"@, "."@, seq!["package.json"@, "src/**"@, "test/**"@, "tests/**"@]),
            ),
            None => cs,
        },
        None => cs,
    }
}

/// The commands after Node detection: those of the manifest's scripts.
pub open spec fn node_commands(s: RepoSnapshot, cs: Seq<(Seq<char>, RepoCommandKind, Seq<char>, Seq<char>, Option<Seq<char>>, u32)>) -> Seq<(Seq<char>, RepoCommandKind, Seq<char>, Seq<char>, Option<Seq<char>>, u32)> {
    match package_json_doc(s) {
        Some(m) => match node_scripts_table(m) {
            Some(scripts) => node_script_commands(scripts, cs),
            None => cs,
        },
        None => cs,
    }
}

/// The test targets after Node detection: that of the manifest's `test` script.
pub open spec fn node_tests(s: RepoSnapshot, ts: Seq<(Seq<char>, Seq<char>, Seq<char>, Seq<char>, Option<Seq<char>>, u32)>) -> Seq<(Seq<char>, Seq<char>, Seq<char>, Seq<char>, Option<Seq<char>>, u32)> {
    match package_json_doc(s) {
        Some(m) => match node_scripts_table(m) {
            Some(scripts) => node_script_tests(scripts, ts),
            None => ts,
        },
        None => ts,
    }
}

/// What the package component cites: the manifest's `name` field.
pub open spec fn node_component_rule() -> CiteRule {
    |id: Seq<char>, d: EvidenceDesc| d == ("package.json"@, "manifest"@, Some("name"@), "Node package name."@)
}

/// What `npm run <name>` cites, as a command or a test target: the manifest's
/// `scripts.<name>` field.
pub open spec fn node_script_rule() -> CiteRule {
    |c: Seq<char>, d: EvidenceDesc|
        exists|n: Seq<char>|
            #![trigger "npm run "@ + n]
            c == "npm run "@ + n && d == (
                "package.json"@,
                "manifest"@,
                Some("scripts."@ + n),
                "Node package script detected."@,
            )
}

/// Records a package script as a command (and a test target for `test`) when the
/// scripts table defines it; says whether it did.
fn add_node_script(b: &mut RepoGraphBuilder, scripts: &ConfigValue, name: &str, kind: RepoCommandKind, confidence: u32) -> (r: bool)
    requires
        old(b).wf(),
    ensures
        final(b).wf(),
        final(b).keeps_known(old(b)),
        final(b).extends(old(b)),
        r == has_script(*scripts, name@),
        !r ==> *final(b) == *old(b),
        final(b).warnings@ == old(b).warnings@,
        final(b).components@ == old(b).components@,
        command_views(final(b).commands@) == node_script_command(*scripts, command_views(old(b).commands@), name@, kind, confidence),
        kind == RepoCommandKind::Test ==> test_views(final(b).tests@) == (if r {
            with_test(test_views(old(b).tests@), ("test-npm-"@ + name@, name@, "npm run "@ + name@, "."@, Some("component-node-package"@), confidence))
        } else {
            test_views(old(b).tests@)
        }),
        kind != RepoCommandKind::Test ==> final(b).tests@ == old(b).tests@,
        r ==> has_command(final(b).commands@, "npm run "@ + name@),
        r && kind == RepoCommandKind::Test ==> has_test(final(b).tests@, "npm run "@ + name@),
        cites_added(*old(b), *final(b), node_component_rule(), node_script_rule(), node_script_rule()),
{
    let ghost s0 = *b;
    proof {
        lemma_cites_none(s0, s0, node_component_rule(), node_script_rule(), node_script_rule());
    }
    if as_text(get_key(scripts, name)).is_none() {
        return false;
    }
    let field = concat2("scripts.", name);
    let ev = b.add_evidence("package.json", "manifest", Some(field.as_str()), "Node package script detected.");
    let ghost d: EvidenceDesc = ("package.json"@, "manifest"@, Some("scripts."@ + name@), "Node package script detected."@);
    proof {
        reveal_strlit("package.json");
        assert(slashes("package.json"@) =~= "package.json"@);
        assert(b.names(ev@, d));
        lemma_cites_quiet(s0, s0, *b, node_component_rule(), node_script_rule(), node_script_rule());
    }
    let command = concat2("npm run ", name);
    let id = concat2("cmd-npm-", name);
    let ghost s1 = *b;
    b.add_command(id.as_str(), kind, command.as_str(), Some("component-node-package"), confidence, ev.clone());
    proof {
        assert(node_script_rule()(command@, d));
        lemma_cites_command(s1, *b, command@, ev@, d, node_component_rule(), node_script_rule(), node_script_rule());
        lemma_cites_chain(s0, s1, *b, node_component_rule(), node_script_rule(), node_script_rule());
    }
    if kind == RepoCommandKind::Test {
        let test_id = concat2("test-npm-", name);
        let ghost s2 = *b;
        b.add_test(test_id.as_str(), name, command.as_str(), Some("component-node-package"), confidence, ev);
        proof {
            lemma_cites_test(s2, *b, command@, ev@, d, node_component_rule(), node_script_rule(), node_script_rule());
            lemma_cites_chain(s0, s2, *b, node_component_rule(), node_script_rule(), node_script_rule());
        }
    }
    true
}

/// Records a lockfile and its package manager when the lockfile is present.
fn detect_lockfile(s: &RepoSnapshot, b: &mut RepoGraphBuilder, file_name: &str, kind: PackageManagerKind, name: &str)
    requires
        old(b).wf(),
    ensures
        final(b).wf(),
        final(b).keeps_known(old(b)),
        final(b).extends(old(b)),
        !exists_spec(*s, file_name@) ==> *final(b) == *old(b),
        final(b).warnings@ == old(b).warnings@,
        final(b).components@ == old(b).components@,
        final(b).commands@ == old(b).commands@,
        final(b).tests@ == old(b).tests@,
        exists_spec(*s, file_name@) ==> has_file(final(b).detected_files@, slashes(file_name@), DetectedFileKind::Lockfile)
            && has_manager(final(b).package_managers@, kind, name@),
{
    if path_exists(s, file_name) {
        let reason = concat2(name, " lockfile detected.");
        let ev = b.add_detected_file(file_name, DetectedFileKind::Lockfile, "lockfile", None, reason.as_str());
        b.add_package_manager(kind, name, ev);
    }
}

/// What the scripts of a package manifest give: a command for each of `test`,
/// `build`, `lint`, `check` and `typecheck` that it defines (and a test target for
/// `test`), or a warning when there is no test script or no scripts table.
pub open spec fn node_scripts_recorded(m: ConfigValue, b: RepoGraphBuilder) -> bool {
    match cfg_get(Some(m), "scripts"@) {
        Some(scripts) => if cfg_table(Some(scripts)) is Some {
            &&& has_script(scripts, "test"@) ==> has_command(b.commands@, "npm run "@ + "test"@) && has_test(b.tests@, "npm run "@ + "test"@)
            &&& has_script(scripts, "build"@) ==> has_command(b.commands@, "npm run "@ + "build"@)
            &&& has_script(scripts, "lint"@) ==> has_command(b.commands@, "npm run "@ + "lint"@)
            &&& has_script(scripts, "check"@) ==> has_command(b.commands@, "npm run "@ + "check"@)
            &&& has_script(scripts, "typecheck"@) ==> has_command(b.commands@, "npm run "@ + "typecheck"@)
            &&& !has_script(scripts, "test"@) ==> has_issue(
                b.warnings@,
                DetectionSeverity::Info,
                DetectionCategory::MissingCommand,
                "package.json does not define scripts.test; no Node test target was inferred."@,
                Some("package.json"@),
            )
        } else {
            no_scripts_warned(b)
        },
        None => no_scripts_warned(b),
    }
}

pub open spec fn no_scripts_warned(b: RepoGraphBuilder) -> bool {
    has_issue(
        b.warnings@,
        DetectionSeverity::Info,
        DetectionCategory::MissingCommand,
        "package.json does not define scripts; no Node commands were inferred."@,
        Some("package.json"@),
    )
}

/// Records the commands of the scripts of a package manifest.
fn detect_node_scripts(b: &mut RepoGraphBuilder, manifest: &ConfigValue, me: &String)
    requires
        old(b).wf(),
        old(b).knows(me@),
        old(b).names(me@, package_json_evidence()),
    ensures
        warnings_added(old(b).warnings@, final(b).warnings@, final(b).evidence@, node_script_warnings(*manifest)),
        cites_added(*old(b), *final(b), node_component_rule(), node_script_rule(), node_script_rule()),
        final(b).wf(),
        final(b).keeps_known(old(b)),
        final(b).extends(old(b)),
        node_scripts_recorded(*manifest, *final(b)),
        final(b).components@ == old(b).components@,
        command_views(final(b).commands@) == match node_scripts_table(*manifest) {
            Some(scripts) => node_script_commands(scripts, command_views(old(b).commands@)),
            None => command_views(old(b).commands@),
        },
        test_views(final(b).tests@) == match node_scripts_table(*manifest) {
            Some(scripts) => node_script_tests(scripts, test_views(old(b).tests@)),
            None => test_views(old(b).tests@),
        },
{
    proof {
        reveal_strlit("package.json");
        assert(slashes("package.json"@) =~= "package.json"@);
    }
    let ghost s0 = *b;
    proof {
        lemma_cites_none(s0, s0, node_component_rule(), node_script_rule(), node_script_rule());
    }
    match get_key(manifest, "scripts") {
        Some(scripts) => {
            match scripts {
                ConfigValue::Table(_) => {
                    let has_test = add_node_script(b, scripts, "test", RepoCommandKind::Test, 90);
                    let ghost s1 = *b;
                    add_node_script(b, scripts, "build", RepoCommandKind::Build, 85);
                    proof {
                        lemma_cites_chain(s0, s1, *b, node_component_rule(), node_script_rule(), node_script_rule());
                    }
                    let ghost s2 = *b;
                    add_node_script(b, scripts, "lint", RepoCommandKind::Lint, 85);
                    proof {
                        lemma_cites_chain(s0, s2, *b, node_component_rule(), node_script_rule(), node_script_rule());
                    }
                    let ghost s3 = *b;
                    add_node_script(b, scripts, "check", RepoCommandKind::Check, 80);
                    proof {
                        lemma_cites_chain(s0, s3, *b, node_component_rule(), node_script_rule(), node_script_rule());
                    }
                    let ghost s4 = *b;
                    add_node_script(b, scripts, "typecheck", RepoCommandKind::Typecheck, 80);
                    proof {
                        lemma_cites_chain(s0, s4, *b, node_component_rule(), node_script_rule(), node_script_rule());
                    }
                    let ghost s5 = *b;
                    if !has_test {
                        b.warn_with(
                            DetectionSeverity::Info,
                            DetectionCategory::MissingCommand,
                            "package.json does not define scripts.test; no Node test target was inferred.",
                            Some("package.json"),
                            Some(me.clone()),
                            Ghost(Some(package_json_evidence())),
                        );
                        proof {
                            lemma_cites_quiet(s0, s5, *b, node_component_rule(), node_script_rule(), node_script_rule());
                        }
                    } else {
                        proof {
                            lemma_warnings_none(b.warnings@, b.evidence@);
                        }
                    }
                },
                _ => {
                    b.warn_with(
                        DetectionSeverity::Info,
                        DetectionCategory::MissingCommand,
                        "package.json does not define scripts; no Node commands were inferred.",
                        Some("package.json"),
                        Some(me.clone()),
                        Ghost(Some(package_json_evidence())),
                    );
                    proof {
                        lemma_cites_quiet(s0, s0, *b, node_component_rule(), node_script_rule(), node_script_rule());
                    }
                },
            }
        },
        None => {
            b.warn_with(
                DetectionSeverity::Info,
                DetectionCategory::MissingCommand,
                "package.json does not define scripts; no Node commands were inferred.",
                Some("package.json"),
                Some(me.clone()),
                Ghost(Some(package_json_evidence())),
            );
            proof {
                lemma_cites_quiet(s0, s0, *b, node_component_rule(), node_script_rule(), node_script_rule());
            }
        },
    }
}

/// No lockfile of a Node package manager is present.
pub open spec fn no_node_lockfile(s: RepoSnapshot) -> bool {
    !exists_spec(s, "package-lock.json"@) && !exists_spec(s, "pnpm-lock.yaml"@) && !exists_spec(s, "yarn.lock"@)
}

/// Records `package.json`: the manifest, npm, the package, its workspaces and its
/// scripts, or the warning for a manifest that could not be used.
fn detect_package_json(s: &RepoSnapshot, b: &mut RepoGraphBuilder)
    requires
        old(b).wf(),
    ensures
        final(b).wf(),
        final(b).keeps_known(old(b)),
        final(b).extends(old(b)),
        !exists_spec(*s, "package.json"@) ==> *final(b) == *old(b),
        warnings_added(old(b).warnings@, final(b).warnings@, final(b).evidence@, package_json_warnings(*s)),
        cites_added(*old(b), *final(b), node_component_rule(), node_script_rule(), node_script_rule()),
        component_views(final(b).components@) == node_components(*s, component_views(old(b).components@)),
        command_views(final(b).commands@) == node_commands(*s, command_views(old(b).commands@)),
        test_views(final(b).tests@) == node_tests(*s, test_views(old(b).tests@)),
        exists_spec(*s, "package.json"@) ==> {
            &&& has_file(final(b).detected_files@, "package.json"@, DetectedFileKind::Manifest)
            &&& has_manager(final(b).package_managers@, PackageManagerKind::Npm, "npm"@)
            &&& no_node_lockfile(*s) ==> has_issue(
                final(b).warnings@,
                DetectionSeverity::Info,
                DetectionCategory::AmbiguousDetection,
                "package.json was found without a lockfile; npm is treated as the default package manager hint."@,
                Some("package.json"@),
            )
            &&& match document_spec(*s, "package.json"@) {
                Ok(m) => {
                    &&& cfg_str(cfg_get(Some(m), "name"@)) is Some ==> has_component(final(b).components@, "component-node-package"@)
                    &&& cfg_get(Some(m), "workspaces"@) is Some ==> match package_json_workspaces(m) {
                        Some(_) => has_workspace(final(b).workspaces@, "workspace-node"@),
                        None => has_issue(
                            final(b).warnings@,
                            DetectionSeverity::Warning,
                            DetectionCategory::UnsupportedPattern,
                            "package.json workspaces field is present but not in a supported array/packages shape."@,
                            Some("package.json"@),
                        ),
                    }
                    &&& node_scripts_recorded(m, *final(b))
                },
                Err(e) => has_issue(
                    final(b).warnings@,
                    DetectionSeverity::Error,
                    manifest_warning_category_spec(e),
                    e,
                    Some("package.json"@),
                ),
            }
        },
{
    proof {
        reveal_strlit("package.json");
        assert(slashes("package.json"@) =~= "package.json"@);
    }
    let ghost s0 = *b;
    proof {
        lemma_cites_none(s0, s0, node_component_rule(), node_script_rule(), node_script_rule());
    }
    if !path_exists(s, "package.json") {
        return;
    }
    let ghost w0 = b.warnings@;
    let me = b.add_detected_file("package.json", DetectedFileKind::Manifest, "manifest", None, "Node package manifest detected.");
    b.add_package_manager(PackageManagerKind::Npm, "npm", me.clone());
    assert(b.names(me@, package_json_evidence()));
    proof {
        lemma_warnings_none(w0, b.evidence@);
    }
    let ghost mut acc: Seq<(WarningBase, Option<EvidenceDesc>)> = seq![];
    if !path_exists(s, "package-lock.json") && !path_exists(s, "pnpm-lock.yaml") && !path_exists(s, "yarn.lock") {
        let ghost pre = *b;
        b.warn_with(
            DetectionSeverity::Info,
            DetectionCategory::AmbiguousDetection,
            "package.json was found without a lockfile; npm is treated as the default package manager hint.",
            Some("package.json"),
            Some(me.clone()),
            Ghost(Some(package_json_evidence())),
        );
        proof {
            let step = seq![package_json_warning(
                DetectionSeverity::Info,
                DetectionCategory::AmbiguousDetection,
                "package.json was found without a lockfile; npm is treated as the default package manager hint."@,
            )];
            lemma_warned_step(w0, pre, acc, *b, step);
            acc = acc + step;
        }
    }
    assert(acc == (if no_node_lockfile(*s) {
        seq![package_json_warning(
            DetectionSeverity::Info,
            DetectionCategory::AmbiguousDetection,
            "package.json was found without a lockfile; npm is treated as the default package manager hint."@,
        )]
    } else {
        seq![]
    }));
    let ghost after_lock = *b;
    let ghost acc0 = acc;
    match read_document(s, "package.json") {
        Ok(manifest) => {
            match as_text(get_key(manifest, "name")) {
                Some(name) => {
                    let ev = b.add_evidence("package.json", "manifest", Some("name"), "Node package name.");
                    let ghost pc = *b;
                    proof {
                        lemma_cites_quiet(s0, s0, pc, node_component_rule(), node_script_rule(), node_script_rule());
                        assert(b.names(ev@, ("package.json"@, "manifest"@, Some("name"@), "Node package name."@)));
                    }
                    let mut patterns: Vec<String> = Vec::new();
                    patterns.push(owned("package.json"));
                    patterns.push(owned("src/**"));
                    patterns.push(owned("test/**"));
                    patterns.push(owned("tests/**"));
                    assert(views(patterns@) =~= seq!["package.json"@, "src/**"@, "test/**"@, "tests/**"@]);
                    b.add_component("component-node-package", name.as_str(), "node_package", ".", patterns, ev);
                    proof {
                        lemma_cites_component(
                            pc,
                            *b,
                            "component-node-package"@,
                            ev@,
                            ("package.json"@, "manifest"@, Some("name"@), "Node package name."@),
                            node_component_rule(),
                            node_script_rule(),
                            node_script_rule(),
                        );
                        lemma_cites_chain(s0, pc, *b, node_component_rule(), node_script_rule(), node_script_rule());
                    }
                    let ghost pr = *b;
                    b.add_relationship(
                        RelationshipKind::UsesPackageManager,
                        "component-node-package",
                        "package-manager-npm",
                        me.clone(),
                    );
                    proof {
                        lemma_cites_quiet(s0, pr, *b, node_component_rule(), node_script_rule(), node_script_rule());
                    }
                },
                None => {
                    proof {
                        lemma_cites_quiet(s0, s0, *b, node_component_rule(), node_script_rule(), node_script_rule());
                    }
                },
            }
            let ghost pn = *b;
            proof {
                lemma_warned_quiet(w0, after_lock, acc, *b);
            }
            if get_key(manifest, "workspaces").is_some() {
                match package_json_workspaces_exec(manifest) {
                    Some(members) => {
                        let ghost pre = *b;
                        let ev = b.add_evidence("package.json", "manifest", Some("workspaces"), "Node workspace members.");
                        b.add_workspace("workspace-node", "node-workspace", members, ev);
                        proof {
                            lemma_warned_quiet(w0, pre, acc, *b);
                        }
                    },
                    None => {
                        let ghost pre = *b;
                        b.warn_with(
                            DetectionSeverity::Warning,
                            DetectionCategory::UnsupportedPattern,
                            "package.json workspaces field is present but not in a supported array/packages shape.",
                            Some("package.json"),
                            Some(me.clone()),
                            Ghost(Some(package_json_evidence())),
                        );
                        proof {
                            let step = seq![package_json_warning(
                                DetectionSeverity::Warning,
                                DetectionCategory::UnsupportedPattern,
                                "package.json workspaces field is present but not in a supported array/packages shape."@,
                            )];
                            lemma_warned_step(w0, pre, acc, *b, step);
                            acc = acc + step;
                        }
                    },
                }
            }
            proof {
                lemma_cites_quiet(s0, pn, *b, node_component_rule(), node_script_rule(), node_script_rule());
            }
            let ghost pre = *b;
            detect_node_scripts(b, manifest, &me);
            proof {
                lemma_cites_chain(s0, pre, *b, node_component_rule(), node_script_rule(), node_script_rule());
                lemma_warned_step(w0, pre, acc, *b, node_script_warnings(*manifest));
                acc = acc + node_script_warnings(*manifest);
                assert(acc =~= acc0 + ((if cfg_get(Some(*manifest), "workspaces"@) is Some && package_json_workspaces(*manifest) is None {
                    seq![package_json_warning(
                        DetectionSeverity::Warning,
                        DetectionCategory::UnsupportedPattern,
                        "package.json workspaces field is present but not in a supported array/packages shape."@,
                    )]
                } else {
                    seq![]
                }) + node_script_warnings(*manifest)));
            }
        },
        Err(message) => {
            let category = manifest_warning_category(message.as_str());
            let ghost pre = *b;
            b.warn_with(DetectionSeverity::Error, category, message.as_str(), Some("package.json"), Some(me), Ghost(Some(package_json_evidence())));
            proof {
                let step = seq![((DetectionSeverity::Error, manifest_warning_category_spec(message@), message@, Some("package.json"@)), Some(package_json_evidence()))];
                lemma_warned_step(w0, pre, acc, *b, step);
                lemma_cites_quiet(s0, s0, *b, node_component_rule(), node_script_rule(), node_script_rule());
                acc = acc + step;
            }
        },
    }
    assert(acc =~= package_json_warnings(*s));
}

/// The packages that `pnpm-workspace.yaml` lists, when its text was read.
pub open spec fn pnpm_packages_of(s: RepoSnapshot) -> Seq<Seq<char>> {
    match text_spec(s, "pnpm-workspace.yaml"@) {
        Some(t) => yaml_state(lines_spec(t)).2,
        None => seq![],
    }
}

/// Records `pnpm-workspace.yaml`: the file, pnpm, and its workspace or a warning
/// when it lists no packages.
fn detect_pnpm_workspace(s: &RepoSnapshot, b: &mut RepoGraphBuilder)
    requires
        old(b).wf(),
    ensures
        final(b).wf(),
        final(b).keeps_known(old(b)),
        final(b).extends(old(b)),
        !exists_spec(*s, "pnpm-workspace.yaml"@) ==> *final(b) == *old(b),
        warnings_added(old(b).warnings@, final(b).warnings@, final(b).evidence@, pnpm_warnings(*s)),
        final(b).components@ == old(b).components@,
        final(b).commands@ == old(b).commands@,
        final(b).tests@ == old(b).tests@,
        exists_spec(*s, "pnpm-workspace.yaml"@) ==> {
            &&& has_file(final(b).detected_files@, "pnpm-workspace.yaml"@, DetectedFileKind::WorkspaceConfig)
            &&& has_manager(final(b).package_managers@, PackageManagerKind::Pnpm, "pnpm"@)
            &&& pnpm_packages_of(*s).len() > 0 ==> has_workspace(final(b).workspaces@, "workspace-pnpm"@)
            &&& pnpm_packages_of(*s).len() == 0 ==> has_issue(
                final(b).warnings@,
                DetectionSeverity::Warning,
                DetectionCategory::UnsupportedPattern,
                "pnpm-workspace.yaml was detected but no supported packages list was parsed."@,
                Some("pnpm-workspace.yaml"@),
            )
        },
{
    proof {
        reveal_strlit("pnpm-workspace.yaml");
        assert(slashes("pnpm-workspace.yaml"@) =~= "pnpm-workspace.yaml"@);
    }
    if !path_exists(s, "pnpm-workspace.yaml") {
        proof {
            lemma_warnings_none(b.warnings@, b.evidence@);
        }
    } else {
        let ev = b.add_detected_file(
            "pnpm-workspace.yaml",
            DetectedFileKind::WorkspaceConfig,
            "workspace_config",
            None,
            "pnpm workspace config detected.",
        );
        b.add_package_manager(PackageManagerKind::Pnpm, "pnpm", ev.clone());
        let members = match read_text(s, "pnpm-workspace.yaml") {
            Some(text) => yaml_packages(text.as_str()),
            None => Vec::new(),
        };
        if members.len() > 0 {
            b.add_workspace("workspace-pnpm", "pnpm-workspace", members, ev);
            proof {
                lemma_warnings_none(b.warnings@, b.evidence@);
            }
        } else {
            b.warn_with(
                DetectionSeverity::Warning,
                DetectionCategory::UnsupportedPattern,
                "pnpm-workspace.yaml was detected but no supported packages list was parsed.",
                Some("pnpm-workspace.yaml"),
                Some(ev),
                Ghost(Some(("pnpm-workspace.yaml"@, "workspace_config"@, None, "pnpm workspace config detected."@))),
            );
        }
    }
}

/// What `package.json` says about itself as evidence.
pub open spec fn package_json_evidence() -> EvidenceDesc {
    ("package.json"@, "manifest"@, None, "Node package manifest detected."@)
}

/// A warning about `package.json`, backed by the manifest's evidence.
pub open spec fn package_json_warning(severity: DetectionSeverity, category: DetectionCategory, message: Seq<char>) -> (WarningBase, Option<EvidenceDesc>) {
    ((severity, category, message, Some("package.json"@)), Some(package_json_evidence()))
}

/// The warnings that the scripts of a package manifest give: none test script, or
/// no scripts table.
pub open spec fn node_script_warnings(m: ConfigValue) -> Seq<(WarningBase, Option<EvidenceDesc>)> {
    match node_scripts_table(m) {
        Some(scripts) => if has_script(scripts, "test"@) {
            seq![]
        } else {
            seq![package_json_warning(
                DetectionSeverity::Info,
                DetectionCategory::MissingCommand,
                "package.json does not define scripts.test; no Node test target was inferred."@,
            )]
        },
        None => seq![package_json_warning(
            DetectionSeverity::Info,
            DetectionCategory::MissingCommand,
            "package.json does not define scripts; no Node commands were inferred."@,
        )],
    }
}

/// The warnings of a present `package.json`, in order: no lockfile; then the
/// manifest that could not be used, or an unsupported workspaces field and the
/// scripts' warnings.
pub open spec fn package_json_warnings(s: RepoSnapshot) -> Seq<(WarningBase, Option<EvidenceDesc>)> {
    if !exists_spec(s, "package.json"@) {
        seq![]
    } else {
        (if no_node_lockfile(s) {
            seq![package_json_warning(
                DetectionSeverity::Info,
                DetectionCategory::AmbiguousDetection,
                "package.json was found without a lockfile; npm is treated as the default package manager hint."@,
            )]
        } else {
            seq![]
        }) + match document_spec(s, "package.json"@) {
            Err(e) => seq![((DetectionSeverity::Error, manifest_warning_category_spec(e), e, Some("package.json"@)), Some(package_json_evidence()))],
            Ok(m) => (if cfg_get(Some(m), "workspaces"@) is Some && package_json_workspaces(m) is None {
                seq![package_json_warning(
                    DetectionSeverity::Warning,
                    DetectionCategory::UnsupportedPattern,
                    "package.json workspaces field is present but not in a supported array/packages shape."@,
                )]
            } else {
                seq![]
            }) + node_script_warnings(m),
        }
    }
}

/// The warning of a `pnpm-workspace.yaml` that lists no packages.
pub open spec fn pnpm_warnings(s: RepoSnapshot) -> Seq<(WarningBase, Option<EvidenceDesc>)> {
    if exists_spec(s, "pnpm-workspace.yaml"@) && pnpm_packages_of(s).len() == 0 {
        seq![(
            (
                DetectionSeverity::Warning,
                DetectionCategory::UnsupportedPattern,
                "pnpm-workspace.yaml was detected but no supported packages list was parsed."@,
                Some("pnpm-workspace.yaml"@),
            ),
            Some(("pnpm-workspace.yaml"@, "workspace_config"@, None, "pnpm workspace config detected."@)),
        )]
    } else {
        seq![]
    }
}

/// The warnings of Node detection, in order.
pub open spec fn node_warnings(s: RepoSnapshot) -> Seq<(WarningBase, Option<EvidenceDesc>)> {
    package_json_warnings(s) + pnpm_warnings(s)
}

/// Some file of a Node project is present.
pub open spec fn node_detected(s: RepoSnapshot) -> bool {
    exists_spec(s, "package.json"@) || !no_node_lockfile(s) || exists_spec(s, "pnpm-workspace.yaml"@)
}

/// What Node detection records of a repository.
pub open spec fn node_recorded(s: RepoSnapshot, b: RepoGraphBuilder) -> bool {
    &&& exists_spec(s, "package.json"@) ==> {
        &&& has_file(b.detected_files@, "package.json"@, DetectedFileKind::Manifest)
        &&& has_manager(b.package_managers@, PackageManagerKind::Npm, "npm"@)
        &&& no_node_lockfile(s) ==> has_issue(
            b.warnings@,
            DetectionSeverity::Info,
            DetectionCategory::AmbiguousDetection,
            "package.json was found without a lockfile; npm is treated as the default package manager hint."@,
            Some("package.json"@),
        )
        &&& match document_spec(s, "package.json"@) {
            Ok(m) => {
                &&& cfg_str(cfg_get(Some(m), "name"@)) is Some ==> has_component(b.components@, "component-node-package"@)
                &&& cfg_get(Some(m), "workspaces"@) is Some ==> match package_json_workspaces(m) {
                    Some(_) => has_workspace(b.workspaces@, "workspace-node"@),
                    None => has_issue(
                        b.warnings@,
                        DetectionSeverity::Warning,
                        DetectionCategory::UnsupportedPattern,
                        "package.json workspaces field is present but not in a supported array/packages shape."@,
                        Some("package.json"@),
                    ),
                }
                &&& node_scripts_recorded(m, b)
            },
            Err(e) => has_issue(
                b.warnings@,
                DetectionSeverity::Error,
                manifest_warning_category_spec(e),
                e,
                Some("package.json"@),
            ),
        }
    }
    &&& exists_spec(s, "package-lock.json"@) ==> has_file(b.detected_files@, "package-lock.json"@, DetectedFileKind::Lockfile)
        && has_manager(b.package_managers@, PackageManagerKind::Npm, "npm"@)
    &&& exists_spec(s, "pnpm-lock.yaml"@) ==> has_file(b.detected_files@, "pnpm-lock.yaml"@, DetectedFileKind::Lockfile)
        && has_manager(b.package_managers@, PackageManagerKind::Pnpm, "pnpm"@)
    &&& exists_spec(s, "yarn.lock"@) ==> has_file(b.detected_files@, "yarn.lock"@, DetectedFileKind::Lockfile)
        && has_manager(b.package_managers@, PackageManagerKind::Yarn, "yarn"@)
    &&& exists_spec(s, "pnpm-workspace.yaml"@) ==> {
        &&& has_file(b.detected_files@, "pnpm-workspace.yaml"@, DetectedFileKind::WorkspaceConfig)
        &&& has_manager(b.package_managers@, PackageManagerKind::Pnpm, "pnpm"@)
        &&& pnpm_packages_of(s).len() > 0 ==> has_workspace(b.workspaces@, "workspace-pnpm"@)
        &&& pnpm_packages_of(s).len() == 0 ==> has_issue(
            b.warnings@,
            DetectionSeverity::Warning,
            DetectionCategory::UnsupportedPattern,
            "pnpm-workspace.yaml was detected but no supported packages list was parsed."@,
            Some("pnpm-workspace.yaml"@),
        )
    }
}

/// Detects a Node package: its manifest, package manager and lockfiles, the package,
/// its workspaces, its scripts, and a pnpm workspace.
pub fn detect_node(s: &RepoSnapshot, b: &mut RepoGraphBuilder)
    requires
        old(b).wf(),
    ensures
        final(b).wf(),
        final(b).keeps_known(old(b)),
        final(b).extends(old(b)),
        !node_detected(*s) ==> *final(b) == *old(b),
        node_recorded(*s, *final(b)),
        warnings_added(old(b).warnings@, final(b).warnings@, final(b).evidence@, node_warnings(*s)),
        cites_added(*old(b), *final(b), node_component_rule(), node_script_rule(), node_script_rule()),
        component_views(final(b).components@) == node_components(*s, component_views(old(b).components@)),
        command_views(final(b).commands@) == node_commands(*s, command_views(old(b).commands@)),
        test_views(final(b).tests@) == node_tests(*s, test_views(old(b).tests@)),
{
    proof {
        reveal_strlit("package-lock.json");
        reveal_strlit("pnpm-lock.yaml");
        reveal_strlit("yarn.lock");
        assert(slashes("package-lock.json"@) =~= "package-lock.json"@);
        assert(slashes("pnpm-lock.yaml"@) =~= "pnpm-lock.yaml"@);
        assert(slashes("yarn.lock"@) =~= "yarn.lock"@);
    }
    let ghost w0 = b.warnings@;
    detect_package_json(s, b);
    let ghost p0 = *b;
    detect_lockfile(s, b, "package-lock.json", PackageManagerKind::Npm, "npm");
    detect_lockfile(s, b, "pnpm-lock.yaml", PackageManagerKind::Pnpm, "pnpm");
    detect_lockfile(s, b, "yarn.lock", PackageManagerKind::Yarn, "yarn");
    proof {
        lemma_warned_quiet(w0, p0, package_json_warnings(*s), *b);
    }
    let ghost p1 = *b;
    detect_pnpm_workspace(s, b);
    proof {
        lemma_warned_step(w0, p1, package_json_warnings(*s), *b, pnpm_warnings(*s));
        lemma_cites_quiet(*old(b), p0, *b, node_component_rule(), node_script_rule(), node_script_rule());
    }
}

} // verus!
