use vstd::prelude::*;

use super::builder::{
    has_relationship_id, relationship_id_spec, seq_extends, command_views, component_views, has_command, has_component, has_file, has_issue, has_manager, has_test, has_workspace, test_views,
    with_command, with_component, with_test, RepoGraphBuilder,
    lemma_warned_quiet, lemma_warned_step, lemma_warnings_none, warnings_added, EvidenceDesc, WarningBase,
    cites_added, lemma_cites_chain, lemma_cites_command, lemma_cites_component, lemma_cites_none, lemma_cites_quiet, lemma_cites_test,
    CiteRule,
};
use super::config::{as_text, cfg_get, cfg_list, cfg_str, get_key, get_opt, texts_of, ConfigValue};
use super::manifest_config::{cargo_dependencies, cargo_dependencies_spec, dependency_view, CargoDependency};
use super::snapshot::{
    document_spec, exists_spec, manifest_warning_category, manifest_warning_category_spec, path_exists, read_document, RepoSnapshot,
};
use super::types::{
    opt_text, DetectedFileKind, DetectionCategory, DetectionSeverity, Evidence, PackageManagerKind, Relationship, RelationshipKind, RepoCommandKind,
};
use crate::text::{concat2, concat3, decimal, decimal_text, ends_with_text, normalize_slashes, owned, slashes, stable_id, stable_id_spec, text_eq};
use crate::textset::{insert_sorted_unique, strictly_sorted, views};

verus! {

/// The path of the manifest of a workspace member: `member/Cargo.toml`.
pub open spec fn member_manifest_spec(member: Seq<char>) -> Seq<char> {
    if member.len() == 0 {
        "Cargo.toml"@
    } else if member.last() == '/' {
        member + "Cargo.toml"@
    } else {
        member + "/Cargo.toml"@
    }
}

pub fn member_manifest_path(member: &str) -> (r: String)
    ensures
        r@ == member_manifest_spec(member@),
{
    if member.unicode_len() == 0 {
        owned("Cargo.toml")
    } else if ends_with_text(member, "/") {
        proof {
            reveal_strlit("/");
            assert(member@.subrange(member@.len() - 1, member@.len() as int) =~= "/"@);
            assert(member@[member@.len() - 1] == "/"@[0]);
        }
        concat2(member, "Cargo.toml")
    } else {
        proof {
            reveal_strlit("/");
            if member@.last() == '/' {
                assert(member@.subrange(member@.len() - 1, member@.len() as int) =~= "/"@);
            }
        }
        concat2(member, "/Cargo.toml")
    }
}

/// The commands after recording the standard Cargo commands, in order.
pub open spec fn cargo_command_views(cs: Seq<(Seq<char>, RepoCommandKind, Seq<char>, Seq<char>, Option<Seq<char>>, u32)>) -> Seq<(Seq<char>, RepoCommandKind, Seq<char>, Seq<char>, Option<Seq<char>>, u32)> {
    let c1 = with_command(cs, ("cmd-cargo-check"@, RepoCommandKind::Check, "cargo check"@, "."@, Some("repo"@), 95));
    let c2 = with_command(c1, ("cmd-cargo-test"@, RepoCommandKind::Test, "cargo test"@, "."@, Some("repo"@), 95));
    let c3 = with_command(c2, ("cmd-cargo-build"@, RepoCommandKind::Build, "cargo build"@, "."@, Some("repo"@), 90));
    let c4 = with_command(c3, ("cmd-cargo-clippy"@, RepoCommandKind::Lint, "cargo clippy -- -D warnings"@, "."@, Some("repo"@), 80));
    with_command(c4, ("cmd-cargo-fmt"@, RepoCommandKind::Format, "cargo fmt --check"@, "."@, Some("repo"@), 80))
}

/// The test targets after recording `cargo test`.
pub open spec fn cargo_test_views(ts: Seq<(Seq<char>, Seq<char>, Seq<char>, Seq<char>, Option<Seq<char>>, u32)>) -> Seq<(Seq<char>, Seq<char>, Seq<char>, Seq<char>, Option<Seq<char>>, u32)> {
    with_test(ts, ("test-cargo-test"@, "cargo test"@, "cargo test"@, "."@, Some("repo"@), 95))
}

/// What the root Cargo manifest says about itself as evidence.
pub open spec fn cargo_manifest_desc() -> EvidenceDesc {
    ("Cargo.toml"@, "manifest"@, None, "Rust Cargo manifest detected."@)
}

/// What the Cargo commands and `cargo test` cite: the root manifest.
pub open spec fn rust_command_rule() -> CiteRule {
    |c: Seq<char>, d: EvidenceDesc| d == cargo_manifest_desc()
}

/// What a workspace member's crate cites: the `package.name` field of its manifest.
pub open spec fn member_name_desc(m: Seq<char>) -> EvidenceDesc {
    (slashes(member_manifest_spec(m)), "manifest"@, Some(m + "/package.name"@), "Cargo workspace member package name."@)
}

/// What the Rust components cite: the package name, the library or binary target
/// (their manifest fields or their default sources), or a member's package name.
pub open spec fn rust_component_rule() -> CiteRule {
    |id: Seq<char>, d: EvidenceDesc| {
        ||| d == ("Cargo.toml"@, "manifest"@, Some("package.name"@), "Cargo package name."@)
        ||| d == ("Cargo.toml"@, "manifest"@, Some("lib"@), "Cargo library target."@)
        ||| d == ("src/lib.rs"@, "source_hint"@, None::<Seq<char>>, "Cargo default library target source detected."@)
        ||| d == ("Cargo.toml"@, "manifest"@, Some("bin"@), "Cargo binary target."@)
        ||| d == ("src/main.rs"@, "source_hint"@, None::<Seq<char>>, "Cargo default binary target source detected."@)
        ||| exists|m: Seq<char>| #[trigger] member_name_desc(m) == d
    }
}

/// The standard Cargo commands, and `cargo test` as a test target.
pub open spec fn cargo_commands_recorded(b: RepoGraphBuilder) -> bool {
    &&& has_command(b.commands@, "cargo check"@)
    &&& has_command(b.commands@, "cargo test"@)
    &&& has_command(b.commands@, "cargo build"@)
    &&& has_command(b.commands@, "cargo clippy -- -D warnings"@)
    &&& has_command(b.commands@, "cargo fmt --check"@)
    &&& has_test(b.tests@, "cargo test"@)
}

fn add_cargo_commands(b: &mut RepoGraphBuilder, ev: &String)
    requires
        old(b).wf(),
        old(b).knows(ev@),
        old(b).names(ev@, cargo_manifest_desc()),
    ensures
        final(b).wf(),
        final(b).keeps_known(old(b)),
        final(b).extends(old(b)),
        cites_added(*old(b), *final(b), rust_component_rule(), rust_command_rule(), rust_command_rule()),
        cargo_commands_recorded(*final(b)),
        final(b).warnings@ == old(b).warnings@,
        final(b).components@ == old(b).components@,
        command_views(final(b).commands@) == cargo_command_views(command_views(old(b).commands@)),
        test_views(final(b).tests@) == cargo_test_views(test_views(old(b).tests@)),
{
    let ghost s0 = *b;
    let ghost d = cargo_manifest_desc();
    b.add_command("cmd-cargo-check", RepoCommandKind::Check, "cargo check", Some("repo"), 95, ev.clone());
    let ghost s1 = *b;
    proof {
        lemma_cites_command(s0, s1, "cargo check"@, ev@, d, rust_component_rule(), rust_command_rule(), rust_command_rule());
    }
    b.add_command("cmd-cargo-test", RepoCommandKind::Test, "cargo test", Some("repo"), 95, ev.clone());
    let ghost s2 = *b;
    proof {
        lemma_cites_command(s1, s2, "cargo test"@, ev@, d, rust_component_rule(), rust_command_rule(), rust_command_rule());
        lemma_cites_chain(s0, s1, s2, rust_component_rule(), rust_command_rule(), rust_command_rule());
    }
    b.add_command("cmd-cargo-build", RepoCommandKind::Build, "cargo build", Some("repo"), 90, ev.clone());
    let ghost s3 = *b;
    proof {
        lemma_cites_command(s2, s3, "cargo build"@, ev@, d, rust_component_rule(), rust_command_rule(), rust_command_rule());
        lemma_cites_chain(s0, s2, s3, rust_component_rule(), rust_command_rule(), rust_command_rule());
    }
    b.add_command("cmd-cargo-clippy", RepoCommandKind::Lint, "cargo clippy -- -D warnings", Some("repo"), 80, ev.clone());
    let ghost s4 = *b;
    proof {
        lemma_cites_command(s3, s4, "cargo clippy -- -D warnings"@, ev@, d, rust_component_rule(), rust_command_rule(), rust_command_rule());
        lemma_cites_chain(s0, s3, s4, rust_component_rule(), rust_command_rule(), rust_command_rule());
    }
    b.add_command("cmd-cargo-fmt", RepoCommandKind::Format, "cargo fmt --check", Some("repo"), 80, ev.clone());
    let ghost s5 = *b;
    proof {
        lemma_cites_command(s4, s5, "cargo fmt --check"@, ev@, d, rust_component_rule(), rust_command_rule(), rust_command_rule());
        lemma_cites_chain(s0, s4, s5, rust_component_rule(), rust_command_rule(), rust_command_rule());
    }
    b.add_test("test-cargo-test", "cargo test", "cargo test", Some("repo"), 95, ev.clone());
    proof {
        lemma_cites_test(s5, *b, "cargo test"@, ev@, d, rust_component_rule(), rust_command_rule(), rust_command_rule());
        lemma_cites_chain(s0, s5, *b, rust_component_rule(), rust_command_rule(), rust_command_rule());
    }
}

/// A workspace member whose manifest named its package.
struct MemberCrate {
    manifest_path: String,
    package_name: String,
    component_id: String,
}

fn member_document<'a>(s: &'a RepoSnapshot, path: &str) -> (r: Option<&'a ConfigValue>)
    ensures
        match r {
            Some(v) => document_spec(*s, path@) == Ok::<ConfigValue, Seq<char>>(*v),
            None => document_spec(*s, path@) is Err,
        },
{
    match read_document(s, path) {
        Ok(v) => Some(v),
        Err(_) => None,
    }
}

/// The package name of a Cargo manifest.
pub open spec fn cargo_package_name(m: ConfigValue) -> Option<Seq<char>> {
    cfg_str(cfg_get(cfg_get(Some(m), "package"@), "name"@))
}

/// What a workspace member gives: a warning when its manifest is missing; else the
/// manifest, and its crate as a component or a warning when the manifest has no
/// package name or could not be used.
pub open spec fn cargo_member_recorded(s: RepoSnapshot, b: RepoGraphBuilder, member: Seq<char>) -> bool {
    let p = member_manifest_spec(member);
    if !exists_spec(s, p) {
        has_issue(
            b.warnings@,
            DetectionSeverity::Warning,
            DetectionCategory::UnsupportedPattern,
            "Cargo workspace member was listed, but its Cargo.toml was not found."@,
            Some(slashes(p)),
        )
    } else {
        &&& has_file(b.detected_files@, slashes(p), DetectedFileKind::Manifest)
        &&& match document_spec(s, p) {
            Ok(v) => match cargo_package_name(v) {
                Some(n) => has_component(b.components@, stable_id_spec("component-rust-crate"@, n)),
                None => has_issue(
                    b.warnings@,
                    DetectionSeverity::Warning,
                    DetectionCategory::UnsupportedPattern,
                    "Cargo workspace member manifest did not define package.name."@,
                    Some(slashes(p)),
                ),
            },
            Err(e) => has_issue(b.warnings@, DetectionSeverity::Error, manifest_warning_category_spec(e), e, Some(slashes(p))),
        }
    }
}

/// The components after recording the crates of workspace members, in order: a
/// member whose manifest is present, parses and names its package gives the crate
/// `component-rust-crate-<name>` at the member's path.
pub open spec fn member_components(s: RepoSnapshot, ms: Seq<Seq<char>>, cs: Seq<(Seq<char>, Seq<char>, Seq<char>, Seq<char>, Seq<Seq<char>>)>) -> Seq<(Seq<char>, Seq<char>, Seq<char>, Seq<char>, Seq<Seq<char>>)>
    decreases ms.len(),
{
    if ms.len() == 0 {
        cs
    } else {
        let prev = member_components(s, ms.drop_last(), cs);
        let mem = ms.last();
        let p = member_manifest_spec(mem);
        if exists_spec(s, p) {
            match document_spec(s, p) {
                Ok(v) => match cargo_package_name(v) {
                    Some(n) => with_component(
                        prev,
                        (stable_id_spec("component-rust-crate"@, n), n, "rust_crate"@, mem, seq![slashes(p), mem + "/src/**"@, mem + "/tests/**"@]),
                    ),
                    None => prev,
                },
                Err(_) => prev,
            }
        } else {
            prev
        }
    }
}

/// The package that a workspace member's manifest names, with the manifest, when the
/// manifest is present and parses.
pub open spec fn member_crate(s: RepoSnapshot, mem: Seq<char>) -> Option<(Seq<char>, ConfigValue)> {
    let p = member_manifest_spec(mem);
    if exists_spec(s, p) {
        match document_spec(s, p) {
            Ok(v) => match cargo_package_name(v) {
                Some(n) => Some((n, v)),
                None => None,
            },
            Err(_) => None,
        }
    } else {
        None
    }
}

/// The component of a workspace crate.
pub open spec fn crate_component_id(name: Seq<char>) -> Seq<char> {
    stable_id_spec("component-rust-crate"@, name)
}

/// Some member's manifest names the package.
pub open spec fn some_member_named(s: RepoSnapshot, ms: Seq<Seq<char>>, name: Seq<char>) -> bool {
    exists|j: int|
        0 <= j < ms.len() && match #[trigger] member_crate(s, ms[j]) {
            Some((m, _)) => m == name,
            None => false,
        }
}

/// Some evidence item is about the path and names the field.
pub open spec fn has_evidence_field(ev: Seq<Evidence>, path: Seq<char>, field: Seq<char>) -> bool {
    exists|i: int| 0 <= i < ev.len() && (#[trigger] ev[i]).path@ == path && opt_text(ev[i].field) == Some(field)
}

/// A path dependency of the member's crate on the crate of another member is a
/// `DependsOn` relationship between their components, with evidence for the
/// dependency's `<section>.<name>` field.
pub open spec fn dependency_recorded(
    b: RepoGraphBuilder,
    s: RepoSnapshot,
    ms: Seq<Seq<char>>,
    mem: Seq<char>,
    name: Seq<char>,
    dep: (Seq<char>, Seq<char>, bool),
) -> bool {
    dep.2 && some_member_named(s, ms, dep.0) ==> {
        &&& has_relationship_id(b.relationships@, relationship_id_spec(RelationshipKind::DependsOn, crate_component_id(name), crate_component_id(dep.0)))
        &&& has_evidence_field(b.evidence@, slashes(member_manifest_spec(mem)), dep.1)
    }
}

/// The crate of a member belongs to the Cargo workspace.
pub open spec fn belongs_recorded(b: RepoGraphBuilder, s: RepoSnapshot, mem: Seq<char>) -> bool {
    match member_crate(s, mem) {
        Some((n, _)) => has_relationship_id(
            b.relationships@,
            relationship_id_spec(RelationshipKind::BelongsToWorkspace, crate_component_id(n), "workspace-cargo"@),
        ),
        None => true,
    }
}

/// Every path dependency of the member's crate on another member's crate is recorded.
pub open spec fn dependencies_recorded(b: RepoGraphBuilder, s: RepoSnapshot, ms: Seq<Seq<char>>, mem: Seq<char>) -> bool {
    match member_crate(s, mem) {
        Some((n, v)) => forall|d: int|
            0 <= d < cargo_dependencies_spec(v).len() ==> dependency_recorded(b, s, ms, mem, n, #[trigger] cargo_dependencies_spec(v)[d]),
        None => true,
    }
}

proof fn lemma_relationship_kept(before: Seq<Relationship>, after: Seq<Relationship>, id: Seq<char>)
    requires
        seq_extends(before, after),
        has_relationship_id(before, id),
    ensures
        has_relationship_id(after, id),
{
    let i = choose|i: int| 0 <= i < before.len() && (#[trigger] before[i]).id@ == id;
    assert(after[i] == before[i]);
}

proof fn lemma_evidence_field_kept(before: Seq<Evidence>, after: Seq<Evidence>, path: Seq<char>, field: Seq<char>)
    requires
        seq_extends(before, after),
        has_evidence_field(before, path, field),
    ensures
        has_evidence_field(after, path, field),
{
    let i = choose|i: int| 0 <= i < before.len() && (#[trigger] before[i]).path@ == path && opt_text(before[i].field) == Some(field);
    assert(after[i] == before[i]);
}

proof fn lemma_recorded_kept(a: RepoGraphBuilder, b: RepoGraphBuilder, s: RepoSnapshot, ms: Seq<Seq<char>>, mem: Seq<char>)
    requires
        b.extends(&a),
    ensures
        belongs_recorded(a, s, mem) ==> belongs_recorded(b, s, mem),
        dependencies_recorded(a, s, ms, mem) ==> dependencies_recorded(b, s, ms, mem),
{
    if member_crate(s, mem) is Some {
        let (n, v) = member_crate(s, mem)->0;
        if belongs_recorded(a, s, mem) {
            lemma_relationship_kept(a.relationships@, b.relationships@,
                relationship_id_spec(RelationshipKind::BelongsToWorkspace, crate_component_id(n), "workspace-cargo"@));
        }
        if dependencies_recorded(a, s, ms, mem) {
            assert forall|d: int| 0 <= d < cargo_dependencies_spec(v).len() implies dependency_recorded(b, s, ms, mem, n, #[trigger] cargo_dependencies_spec(v)[d]) by {
                let dep = cargo_dependencies_spec(v)[d];
                assert(dependency_recorded(a, s, ms, mem, n, dep));
                if dep.2 && some_member_named(s, ms, dep.0) {
                    lemma_relationship_kept(a.relationships@, b.relationships@,
                        relationship_id_spec(RelationshipKind::DependsOn, crate_component_id(n), crate_component_id(dep.0)));
                    lemma_evidence_field_kept(a.evidence@, b.evidence@, slashes(member_manifest_spec(mem)), dep.1);
                }
            }
        }
    }
}

/// The workspace relationships of every member's crate are recorded.
pub open spec fn members_recorded(b: RepoGraphBuilder, s: RepoSnapshot, ms: Seq<Seq<char>>) -> bool {
    forall|k: int| 0 <= k < ms.len() ==> belongs_recorded(b, s, #[trigger] ms[k]) && dependencies_recorded(b, s, ms, ms[k])
}

pub proof fn lemma_members_recorded_kept(a: RepoGraphBuilder, b: RepoGraphBuilder, s: RepoSnapshot, ms: Seq<Seq<char>>)
    requires
        b.extends(&a),
        members_recorded(a, s, ms),
    ensures
        members_recorded(b, s, ms),
{
    assert forall|k: int| 0 <= k < ms.len() implies belongs_recorded(b, s, #[trigger] ms[k]) && dependencies_recorded(b, s, ms, ms[k]) by {
        lemma_recorded_kept(a, b, s, ms, ms[k]);
    }
}

/// The workspace relationships of the members of the root manifest's workspace
/// are recorded, the members taken in increasing order.
pub open spec fn cargo_relations_ok(s: RepoSnapshot, b: RepoGraphBuilder) -> bool {
    match cargo_doc(s) {
        Some(m) => exists|ms: Seq<Seq<char>>|
            #[trigger] members_recorded(b, s, ms) && strictly_sorted(ms) && ms.to_set() == cargo_workspace_members(m),
        None => true,
    }
}

pub proof fn lemma_cargo_relations_kept(a: RepoGraphBuilder, b: RepoGraphBuilder, s: RepoSnapshot)
    requires
        b.extends(&a),
        cargo_relations_ok(s, a),
    ensures
        cargo_relations_ok(s, b),
{
    if cargo_doc(s) is Some {
        let m = cargo_doc(s)->0;
        let ms = choose|ms: Seq<Seq<char>>| #[trigger] members_recorded(a, s, ms) && strictly_sorted(ms) && ms.to_set() == cargo_workspace_members(m);
        lemma_members_recorded_kept(a, b, s, ms);
    }
}

proof fn lemma_relationship_same_elements(a: Seq<Relationship>, b: Seq<Relationship>, id: Seq<char>)
    requires
        a.to_multiset() == b.to_multiset(),
        has_relationship_id(a, id),
    ensures
        has_relationship_id(b, id),
{
    let i = choose|i: int| 0 <= i < a.len() && (#[trigger] a[i]).id@ == id;
    assert(a.contains(a[i]));
    crate::order::lemma_same_elements(a, b);
    let j = choose|j: int| 0 <= j < b.len() && b[j] == a[i];
}

/// Relationships and evidence held in another order keep the workspace relationships.
pub proof fn lemma_cargo_relations_same(a: RepoGraphBuilder, b: RepoGraphBuilder, s: RepoSnapshot)
    requires
        a.relationships@.to_multiset() == b.relationships@.to_multiset(),
        a.evidence@ == b.evidence@,
        cargo_relations_ok(s, a),
    ensures
        cargo_relations_ok(s, b),
{
    if cargo_doc(s) is Some {
        let m = cargo_doc(s)->0;
        let ms = choose|ms: Seq<Seq<char>>| #[trigger] members_recorded(a, s, ms) && strictly_sorted(ms) && ms.to_set() == cargo_workspace_members(m);
        assert forall|k: int| 0 <= k < ms.len() implies belongs_recorded(b, s, #[trigger] ms[k]) && dependencies_recorded(b, s, ms, ms[k]) by {
            let mem = ms[k];
            assert(belongs_recorded(a, s, mem) && dependencies_recorded(a, s, ms, mem));
            if member_crate(s, mem) is Some {
                let (n, v) = member_crate(s, mem)->0;
                lemma_relationship_same_elements(a.relationships@, b.relationships@,
                    relationship_id_spec(RelationshipKind::BelongsToWorkspace, crate_component_id(n), "workspace-cargo"@));
                assert forall|d: int| 0 <= d < cargo_dependencies_spec(v).len() implies dependency_recorded(b, s, ms, mem, n, #[trigger] cargo_dependencies_spec(v)[d]) by {
                    let dep = cargo_dependencies_spec(v)[d];
                    assert(dependency_recorded(a, s, ms, mem, n, dep));
                    if dep.2 && some_member_named(s, ms, dep.0) {
                        lemma_relationship_same_elements(a.relationships@, b.relationships@,
                            relationship_id_spec(RelationshipKind::DependsOn, crate_component_id(n), crate_component_id(dep.0)));
                    }
                }
            }
        }
        assert(members_recorded(b, s, ms));
    }
}

/// An entry of the crates found so far: the crate of member `k` (one of the first
/// `bound` members), with its manifest path and component.
spec fn found_entry_ok(s: RepoSnapshot, members: Seq<String>, bound: int, e: MemberCrate, k: int) -> bool {
    &&& 0 <= k < bound
    &&& k < members.len()
    &&& match member_crate(s, members[k]@) {
        Some((n, _)) => n == e.package_name@,
        None => false,
    }
    &&& e.component_id@ == crate_component_id(e.package_name@)
    &&& e.manifest_path@ == member_manifest_spec(members[k]@)
}

/// What the `[workspace]` members field of the root manifest says as evidence.
pub open spec fn cargo_members_evidence() -> EvidenceDesc {
    ("Cargo.toml"@, "manifest"@, Some("workspace.members"@), "Cargo workspace members."@)
}

/// The warning that a workspace member gives, if any: its manifest is missing (backed
/// by the members field), names no package, or could not be used (backed by the
/// member's manifest).
pub open spec fn member_warning(s: RepoSnapshot, member: Seq<char>) -> Seq<(WarningBase, Option<EvidenceDesc>)> {
    let p = member_manifest_spec(member);
    let d: EvidenceDesc = (slashes(p), "manifest"@, None, "Cargo workspace member manifest detected."@);
    if !exists_spec(s, p) {
        seq![(
            (
                DetectionSeverity::Warning,
                DetectionCategory::UnsupportedPattern,
                "Cargo workspace member was listed, but its Cargo.toml was not found."@,
                Some(slashes(p)),
            ),
            Some(cargo_members_evidence()),
        )]
    } else {
        match document_spec(s, p) {
            Ok(v) => match cargo_package_name(v) {
                Some(_) => seq![],
                None => seq![(
                    (
                        DetectionSeverity::Warning,
                        DetectionCategory::UnsupportedPattern,
                        "Cargo workspace member manifest did not define package.name."@,
                        Some(slashes(p)),
                    ),
                    Some(d),
                )],
            },
            Err(e) => seq![((DetectionSeverity::Error, manifest_warning_category_spec(e), e, Some(slashes(p))), Some(d))],
        }
    }
}

/// The warnings of the workspace members, in order.
pub open spec fn member_warnings(s: RepoSnapshot, ms: Seq<Seq<char>>) -> Seq<(WarningBase, Option<EvidenceDesc>)>
    decreases ms.len(),
{
    if ms.len() == 0 {
        seq![]
    } else {
        member_warnings(s, ms.drop_last()) + member_warning(s, ms.last())
    }
}

/// Records the crates of a Cargo workspace and the path dependencies between them.
fn detect_cargo_workspace_members(s: &RepoSnapshot, members: &Vec<String>, workspace_evidence: &String, b: &mut RepoGraphBuilder)
    requires
        old(b).wf(),
        old(b).knows(workspace_evidence@),
        old(b).names(workspace_evidence@, cargo_members_evidence()),
    ensures
        warnings_added(old(b).warnings@, final(b).warnings@, final(b).evidence@, member_warnings(*s, views(members@))),
        cites_added(*old(b), *final(b), rust_component_rule(), rust_command_rule(), rust_command_rule()),
        final(b).wf(),
        final(b).keeps_known(old(b)),
        final(b).extends(old(b)),
        forall|k: int| 0 <= k < members@.len() ==> cargo_member_recorded(*s, *final(b), #[trigger] members@[k]@),
        component_views(final(b).components@) == member_components(*s, views(members@), component_views(old(b).components@)),
        final(b).commands@ == old(b).commands@,
        final(b).tests@ == old(b).tests@,
        forall|k: int| 0 <= k < members@.len() ==> belongs_recorded(*final(b), *s, #[trigger] members@[k]@),
        forall|k: int| 0 <= k < members@.len() ==> dependencies_recorded(*final(b), *s, views(members@), #[trigger] members@[k]@),
        members_recorded(*final(b), *s, views(members@)),
{
    let ghost ms = views(members@);
    let ghost mut fk: Seq<int> = seq![];
    let mut found: Vec<MemberCrate> = Vec::new();
    let mut i: usize = 0;
    assert(views(members@).take(0) =~= Seq::<Seq<char>>::empty());
    proof {
        lemma_warnings_none(b.warnings@, b.evidence@);
        lemma_cites_none(*b, *b, rust_component_rule(), rust_command_rule(), rust_command_rule());
    }
    while i < members.len()
        invariant
            i <= members@.len(),
            cites_added(*old(b), *b, rust_component_rule(), rust_command_rule(), rust_command_rule()),
            warnings_added(old(b).warnings@, b.warnings@, b.evidence@, member_warnings(*s, views(members@).take(i as int))),
            b.names(workspace_evidence@, cargo_members_evidence()),
            component_views(b.components@) == member_components(*s, views(members@).take(i as int), component_views(old(b).components@)),
            b.commands@ == old(b).commands@,
            b.tests@ == old(b).tests@,
            b.wf(),
            b.keeps_known(old(b)),
            b.extends(old(b)),
            b.knows(workspace_evidence@),
            forall|k: int| 0 <= k < i ==> cargo_member_recorded(*s, *b, #[trigger] members@[k]@),
            ms == views(members@),
            fk.len() == found@.len(),
            forall|j: int| 0 <= j < found@.len() ==> found_entry_ok(*s, members@, i as int, #[trigger] found@[j], fk[j]),
            forall|k: int| 0 <= k < i && (#[trigger] member_crate(*s, members@[k]@)) is Some ==> exists|j: int| 0 <= j < fk.len() && fk[j] == k,
            forall|k: int| 0 <= k < i ==> belongs_recorded(*b, *s, #[trigger] members@[k]@),
        decreases members@.len() - i,
    {
        let member = &members[i];
        let ghost iter_start = *b;
        let ghost acc = member_warnings(*s, views(members@).take(i as int));
        assert(views(members@).take(i + 1).drop_last() =~= views(members@).take(i as int));
        assert(views(members@).take(i + 1).last() == member@);
        assert(member_warnings(*s, views(members@).take(i + 1)) == acc + member_warning(*s, member@));
        let manifest_path = member_manifest_path(member.as_str());
        if !path_exists(s, manifest_path.as_str()) {
            b.warn_with(
                DetectionSeverity::Warning,
                DetectionCategory::UnsupportedPattern,
                "Cargo workspace member was listed, but its Cargo.toml was not found.",
                Some(manifest_path.as_str()),
                Some(workspace_evidence.clone()),
                Ghost(Some(cargo_members_evidence())),
            );
            proof {
                lemma_warned_step(old(b).warnings@, iter_start, acc, *b, member_warning(*s, member@));
                lemma_cites_quiet(*old(b), iter_start, *b, rust_component_rule(), rust_command_rule(), rust_command_rule());
                assert forall|k: int| 0 <= k < i + 1 implies belongs_recorded(*b, *s, #[trigger] members@[k]@) by {
                    if k < i {
                        lemma_recorded_kept(iter_start, *b, *s, ms, members@[k]@);
                    }
                }
            }
            i = i + 1;
            continue;
        }
        let manifest_evidence = b.add_detected_file(
            manifest_path.as_str(),
            DetectedFileKind::Manifest,
            "manifest",
            None,
            "Cargo workspace member manifest detected.",
        );
        match read_document(s, manifest_path.as_str()) {
            Ok(manifest) => {
                match as_text(get_opt(get_key(manifest, "package"), "name")) {
                    None => {
                        b.warn_with(
                            DetectionSeverity::Warning,
                            DetectionCategory::UnsupportedPattern,
                            "Cargo workspace member manifest did not define package.name.",
                            Some(manifest_path.as_str()),
                            Some(manifest_evidence.clone()),
                            Ghost(Some((slashes(manifest_path@), "manifest"@, None, "Cargo workspace member manifest detected."@))),
                        );
                    },
                    Some(package_name) => {
                        let component_id = stable_id("component-rust-crate", package_name.as_str());
                        let field = concat2(member.as_str(), "/package.name");
                        let component_evidence = b.add_evidence(
                            manifest_path.as_str(),
                            "manifest",
                            Some(field.as_str()),
                            "Cargo workspace member package name.",
                        );
                        let ghost q0 = *b;
                        proof {
                            lemma_cites_quiet(*old(b), iter_start, q0, rust_component_rule(), rust_command_rule(), rust_command_rule());
                            assert(b.names(component_evidence@, member_name_desc(member@)));
                        }
                        let mut patterns: Vec<String> = Vec::new();
                        patterns.push(normalize_slashes(manifest_path.as_str()));
                        patterns.push(concat2(member.as_str(), "/src/**"));
                        patterns.push(concat2(member.as_str(), "/tests/**"));
                        assert(views(patterns@) =~= seq![slashes(manifest_path@), member@ + "/src/**"@, member@ + "/tests/**"@]);
                        b.add_component(
                            component_id.as_str(),
                            package_name.as_str(),
                            "rust_crate",
                            member.as_str(),
                            patterns,
                            component_evidence.clone(),
                        );
                        proof {
                            lemma_cites_component(q0, *b, component_id@, component_evidence@, member_name_desc(member@), rust_component_rule(), rust_command_rule(), rust_command_rule());
                            lemma_cites_chain(*old(b), q0, *b, rust_component_rule(), rust_command_rule(), rust_command_rule());
                        }
                        let ghost q1 = *b;
                        let ghost before_belongs = *b;
                        b.add_relationship(
                            RelationshipKind::BelongsToWorkspace,
                            component_id.as_str(),
                            "workspace-cargo",
                            component_evidence.clone(),
                        );
                        let ghost after_belongs = *b;
                        proof {
                            reveal_strlit("workspace-cargo");
                            assert(member_crate(*s, member@) == Some((package_name@, *manifest)));
                            assert(has_relationship_id(b.relationships@, relationship_id_spec(
                                RelationshipKind::BelongsToWorkspace,
                                crate_component_id(package_name@),
                                "workspace-cargo"@,
                            ))) by {
                                let id = relationship_id_spec(
                                    RelationshipKind::BelongsToWorkspace,
                                    crate_component_id(package_name@),
                                    "workspace-cargo"@,
                                );
                                assert(component_id@ == crate_component_id(package_name@));
                                if !has_relationship_id(before_belongs.relationships@, id) {
                                    let n = b.relationships@.len() - 1;
                                    assert(b.relationships@[n] == b.relationships@.last());
                                    assert(b.relationships@[n].id@ == id);
                                }
                            }
                        }
                        b.add_relationship(
                            RelationshipKind::UsesPackageManager,
                            component_id.as_str(),
                            "package-manager-cargo",
                            manifest_evidence.clone(),
                        );
                        let entry = MemberCrate {
                            manifest_path: manifest_path.clone(),
                            package_name: package_name.clone(),
                            component_id,
                        };
                        let ghost found_before = found@;
                        let ghost fk_before = fk;
                        found.push(entry);
                        proof {
                            fk = fk.push(i as int);
                            assert(found_entry_ok(*s, members@, i + 1, entry, i as int));
                            assert forall|j: int| 0 <= j < found@.len() implies found_entry_ok(*s, members@, i + 1, #[trigger] found@[j], fk[j]) by {
                                if j < found_before.len() {
                                    assert(found@[j] == found_before[j]);
                                    assert(found_entry_ok(*s, members@, i as int, found_before[j], fk[j]));
                                }
                            }
                            assert(fk[fk.len() - 1] == i);
                            assert forall|k: int| 0 <= k < i + 1 && (#[trigger] member_crate(*s, members@[k]@)) is Some implies exists|j: int|
                                0 <= j < fk.len() && fk[j] == k by {
                                if k < i {
                                    let j = choose|j: int| 0 <= j < fk_before.len() && fk_before[j] == k;
                                    assert(fk[j] == fk_before[j]);
                                } else {
                                    assert(fk[fk.len() - 1] == k);
                                }
                            }
                            lemma_recorded_kept(after_belongs, *b, *s, ms, member@);
                            lemma_cites_quiet(*old(b), q1, *b, rust_component_rule(), rust_command_rule(), rust_command_rule());
                            assert(b.warnings@ == iter_start.warnings@);
                            lemma_warnings_none(iter_start.warnings@, b.evidence@);
                            assert forall|k: int| 0 <= k < i + 1 implies belongs_recorded(*b, *s, #[trigger] members@[k]@) by {
                                if k < i {
                                    lemma_recorded_kept(iter_start, *b, *s, ms, members@[k]@);
                                }
                            }
                        }
                    },
                }
            },
            Err(message) => {
                let category = manifest_warning_category(message.as_str());
                b.warn_with(
                    DetectionSeverity::Error,
                    category,
                    message.as_str(),
                    Some(manifest_path.as_str()),
                    Some(manifest_evidence.clone()),
                    Ghost(Some((slashes(manifest_path@), "manifest"@, None, "Cargo workspace member manifest detected."@))),
                );
            },
        }
        proof {
            lemma_warned_step(old(b).warnings@, iter_start, acc, *b, member_warning(*s, member@));
            if b.components@ == iter_start.components@ {
                lemma_cites_quiet(*old(b), iter_start, *b, rust_component_rule(), rust_command_rule(), rust_command_rule());
            }
            assert forall|j: int| 0 <= j < found@.len() implies found_entry_ok(*s, members@, i + 1, #[trigger] found@[j], fk[j]) by {
                if found_entry_ok(*s, members@, i as int, found@[j], fk[j]) {
                }
            }
            assert forall|k: int| 0 <= k < i + 1 implies belongs_recorded(*b, *s, #[trigger] members@[k]@) by {
                if k < i {
                    lemma_recorded_kept(iter_start, *b, *s, ms, members@[k]@);
                }
            }
        }
        i = i + 1;
    }
    assert(views(members@).take(i as int) =~= views(members@));
    let ghost members_done = *b;
    let mut k: usize = 0;
    while k < found.len()
        invariant
            k <= found@.len(),
            b.components@ == members_done.components@,
            b.commands@ == members_done.commands@,
            b.tests@ == members_done.tests@,
            b.wf(),
            b.keeps_known(old(b)),
            b.extends(&members_done),
            members_done.extends(&*old(b)),
            b.warnings@ == members_done.warnings@,
            b.keeps_known(&members_done),
            cites_added(*old(b), members_done, rust_component_rule(), rust_command_rule(), rust_command_rule()),
            forall|k: int| 0 <= k < members@.len() ==> cargo_member_recorded(*s, members_done, #[trigger] members@[k]@),
            ms == views(members@),
            fk.len() == found@.len(),
            forall|j: int| 0 <= j < found@.len() ==> found_entry_ok(*s, members@, members@.len() as int, #[trigger] found@[j], fk[j]),
            forall|kk: int| 0 <= kk < members@.len() && (#[trigger] member_crate(*s, members@[kk]@)) is Some ==> exists|j: int| 0 <= j < fk.len() && fk[j] == kk,
            forall|kk: int| 0 <= kk < members@.len() ==> belongs_recorded(*b, *s, #[trigger] members@[kk]@),
            forall|jj: int| 0 <= jj < k ==> dependencies_recorded(*b, *s, ms, #[trigger] members@[fk[jj]]@),
        decreases found@.len() - k,
    {
        let member = &found[k];
        let ghost outer_start = *b;
        let ghost mk = fk[k as int];
        let ghost mem = members@[mk]@;
        assert(found_entry_ok(*s, members@, members@.len() as int, found@[k as int], mk));
        let ghost n = member.package_name@;
        match member_document(s, member.manifest_path.as_str()) {
            Some(manifest) => {
                let ghost v = *manifest;
                assert(member_crate(*s, mem) == Some((n, v)));
                let deps = cargo_dependencies(manifest);
                let mut d: usize = 0;
                while d < deps.len()
                    invariant
                        d <= deps@.len(),
                        b.components@ == members_done.components@,
                        b.commands@ == members_done.commands@,
                        b.tests@ == members_done.tests@,
                        b.wf(),
                        b.keeps_known(old(b)),
                        b.extends(&members_done),
                        b.extends(&outer_start),
                        b.warnings@ == members_done.warnings@,
                        b.keeps_known(&members_done),
                        ms == views(members@),
                        fk.len() == found@.len(),
                        forall|j: int| 0 <= j < found@.len() ==> found_entry_ok(*s, members@, members@.len() as int, #[trigger] found@[j], fk[j]),
                        forall|kk: int| 0 <= kk < members@.len() && (#[trigger] member_crate(*s, members@[kk]@)) is Some ==> exists|j: int|
                            0 <= j < fk.len() && fk[j] == kk,
                        member.component_id@ == crate_component_id(n),
                        member.manifest_path@ == member_manifest_spec(mem),
                        forall|dd: int| 0 <= dd < d ==> dependency_recorded(*b, *s, ms, mem, n, dependency_view(#[trigger] deps@[dd])),
                    decreases deps@.len() - d,
                {
                    let dep = &deps[d];
                    let ghost inner_start = *b;
                    if dep.path_dependency {
                        // the last member with that package name wins
                        let mut target: Option<usize> = None;
                        let mut j: usize = 0;
                        while j < found.len()
                            invariant
                                j <= found@.len(),
                                match target {
                                    Some(t) => t < found@.len() && found@[t as int].package_name@ == dep.name@,
                                    None => forall|jj: int| 0 <= jj < j ==> (#[trigger] found@[jj]).package_name@ != dep.name@,
                                },
                            decreases found@.len() - j,
                        {
                            if text_eq(found[j].package_name.as_str(), dep.name.as_str()) {
                                target = Some(j);
                            }
                            j = j + 1;
                        }
                        match target {
                            Some(t) => {
                                let ev = b.add_evidence(
                                    member.manifest_path.as_str(),
                                    "manifest",
                                    Some(dep.field.as_str()),
                                    "Cargo workspace path dependency.",
                                );
                                let ghost after_ev = *b;
                                proof {
                                    let e = b.evidence@.len() - 1;
                                    assert(b.evidence@[e] == b.evidence@.last());
                                    assert(has_evidence_field(b.evidence@, slashes(member_manifest_spec(mem)), dep.field@));
                                    assert(found_entry_ok(*s, members@, members@.len() as int, found@[t as int], fk[t as int]));
                                }
                                b.add_relationship(
                                    RelationshipKind::DependsOn,
                                    member.component_id.as_str(),
                                    found[t].component_id.as_str(),
                                    ev,
                                );
                                proof {
                                    let id = relationship_id_spec(RelationshipKind::DependsOn, crate_component_id(n), crate_component_id(dep.name@));
                                    if !has_relationship_id(after_ev.relationships@, id) {
                                        let r = b.relationships@.len() - 1;
                                        assert(b.relationships@[r] == b.relationships@.last());
                                    }
                                    assert(has_relationship_id(b.relationships@, id));
                                    lemma_evidence_field_kept(after_ev.evidence@, b.evidence@, slashes(member_manifest_spec(mem)), dep.field@);
                                    assert(dependency_recorded(*b, *s, ms, mem, n, dependency_view(*dep)));
                                }
                            },
                            None => {
                                proof {
                                    if some_member_named(*s, ms, dep.name@) {
                                        let j0 = choose|j0: int|
                                            0 <= j0 < ms.len() && match #[trigger] member_crate(*s, ms[j0]) {
                                                Some((m, _)) => m == dep.name@,
                                                None => false,
                                            };
                                        assert(ms[j0] == members@[j0]@);
                                        assert(member_crate(*s, members@[j0]@) is Some);
                                        let jf = choose|jf: int| 0 <= jf < fk.len() && fk[jf] == j0;
                                        assert(found_entry_ok(*s, members@, members@.len() as int, found@[jf], fk[jf]));
                                        assert(found@[jf].package_name@ == dep.name@);
                                    }
                                    assert(dependency_recorded(*b, *s, ms, mem, n, dependency_view(*dep)));
                                }
                            },
                        }
                    }
                    proof {
                        assert forall|dd: int| 0 <= dd < d + 1 implies dependency_recorded(*b, *s, ms, mem, n, dependency_view(#[trigger] deps@[dd])) by {
                            if dd < d {
                                lemma_dependency_kept(inner_start, *b, *s, ms, mem, n, dependency_view(deps@[dd]));
                            } else {
                                assert(deps@[dd] == *dep);
                            }
                        }
                    }
                    d = d + 1;
                }
                proof {
                    let ev = deps@.map_values(|x: CargoDependency| dependency_view(x));
                    crate::order::lemma_same_elements(ev, cargo_dependencies_spec(v));
                    assert forall|di: int| 0 <= di < cargo_dependencies_spec(v).len() implies dependency_recorded(
                        *b,
                        *s,
                        ms,
                        mem,
                        n,
                        #[trigger] cargo_dependencies_spec(v)[di],
                    ) by {
                        assert(cargo_dependencies_spec(v).contains(cargo_dependencies_spec(v)[di]));
                        let dd = choose|dd: int| 0 <= dd < ev.len() && ev[dd] == cargo_dependencies_spec(v)[di];
                        assert(ev[dd] == dependency_view(deps@[dd]));
                    }
                    assert(dependencies_recorded(*b, *s, ms, mem));
                }
            },
            None => {
                assert(false);
            },
        }
        proof {
            assert forall|kk: int| 0 <= kk < members@.len() implies belongs_recorded(*b, *s, #[trigger] members@[kk]@) by {
                lemma_recorded_kept(outer_start, *b, *s, ms, members@[kk]@);
            }
            assert forall|jj: int| 0 <= jj < k + 1 implies dependencies_recorded(*b, *s, ms, #[trigger] members@[fk[jj]]@) by {
                if jj < k {
                    lemma_recorded_kept(outer_start, *b, *s, ms, members@[fk[jj]]@);
                }
            }
        }
        k = k + 1;
    }
    proof {
        lemma_warned_quiet(old(b).warnings@, members_done, member_warnings(*s, views(members@)), *b);
        lemma_cites_quiet(*old(b), members_done, *b, rust_component_rule(), rust_command_rule(), rust_command_rule());
        assert forall|kk: int| 0 <= kk < members@.len() implies dependencies_recorded(*b, *s, views(members@), #[trigger] members@[kk]@) by {
            if member_crate(*s, members@[kk]@) is Some {
                let j = choose|j: int| 0 <= j < fk.len() && fk[j] == kk;
                assert(dependencies_recorded(*b, *s, ms, members@[fk[j]]@));
            }
        }
        assert forall|kk: int| 0 <= kk < ms.len() implies belongs_recorded(*b, *s, #[trigger] ms[kk]) && dependencies_recorded(*b, *s, ms, ms[kk]) by {
            assert(ms[kk] == members@[kk]@);
        }
    }
}

proof fn lemma_dependency_kept(
    a: RepoGraphBuilder,
    b: RepoGraphBuilder,
    s: RepoSnapshot,
    ms: Seq<Seq<char>>,
    mem: Seq<char>,
    name: Seq<char>,
    dep: (Seq<char>, Seq<char>, bool),
)
    requires
        b.extends(&a),
        dependency_recorded(a, s, ms, mem, name, dep),
    ensures
        dependency_recorded(b, s, ms, mem, name, dep),
{
    if dep.2 && some_member_named(s, ms, dep.0) {
        lemma_relationship_kept(a.relationships@, b.relationships@,
            relationship_id_spec(RelationshipKind::DependsOn, crate_component_id(name), crate_component_id(dep.0)));
        lemma_evidence_field_kept(a.evidence@, b.evidence@, slashes(member_manifest_spec(mem)), dep.1);
    }
}

fn one_path(p: &str) -> (r: Vec<String>)
    ensures
        views(r@) == seq![p@],
{
    let mut r: Vec<String> = Vec::new();
    r.push(owned(p));
    assert(views(r@) =~= seq![p@]);
    r
}

/// The source patterns of a Cargo target: its `path` when the target table names one,
/// else the default source file when it is present, else none.
pub open spec fn target_patterns_spec(s: RepoSnapshot, target: Option<ConfigValue>, default_source: Seq<char>) -> Seq<Seq<char>> {
    match target {
        Some(t) if cfg_str(cfg_get(Some(t), "path"@)) is Some => seq![cfg_str(cfg_get(Some(t), "path"@)).unwrap()],
        _ => if exists_spec(s, default_source) {
            seq![default_source]
        } else {
            seq![]
        },
    }
}

fn target_patterns(s: &RepoSnapshot, target: Option<&ConfigValue>, default_source: &str) -> (r: Vec<String>)
    ensures
        views(r@) == target_patterns_spec(
            *s,
            match target {
                Some(t) => Some(*t),
                None => None,
            },
            default_source@,
        ),
{
    match as_text(get_opt(target, "path")) {
        Some(p) => {
            let mut v: Vec<String> = Vec::new();
            v.push(p.clone());
            assert(views(v@) =~= seq![p@]);
            v
        },
        None => {
            let mut v: Vec<String> = Vec::new();
            if path_exists(s, default_source) {
                v.push(owned(default_source));
                assert(views(v@) =~= seq![default_source@]);
            } else {
                assert(views(v@) =~= Seq::<Seq<char>>::empty());
            }
            v
        },
    }
}

/// The targets of the root package: a library component when the manifest has a
/// `[lib]` table or `src/lib.rs` is present; a binary component for each `[[bin]]`,
/// or for `src/main.rs` when there is none.
pub open spec fn cargo_targets_recorded(s: RepoSnapshot, m: ConfigValue, b: RepoGraphBuilder) -> bool {
    &&& (cfg_get(Some(m), "lib"@) is Some || exists_spec(s, "src/lib.rs"@)) ==> has_component(b.components@, "component-rust-lib"@)
    &&& match cfg_list(cfg_get(Some(m), "bin"@)) {
        Some(bins) if bins.len() > 0 => forall|i: nat| i < bins.len() ==> has_component(
            b.components@,
            "component-rust-bin-"@ + #[trigger] decimal(i),
        ),
        _ => exists_spec(s, "src/main.rs"@) ==> has_component(b.components@, "component-rust-bin-"@ + decimal(0)),
    }
}

/// The name of a `[[bin]]` table: its `name`, else `bin`.
pub open spec fn bin_name(bin: ConfigValue) -> Seq<char> {
    match cfg_str(cfg_get(Some(bin), "name"@)) {
        Some(n) => n,
        None => "bin"@,
    }
}

/// The components after recording the `[[bin]]` tables in order: binary `i` is
/// `component-rust-bin-i`.
pub open spec fn bin_components(s: RepoSnapshot, bins: Seq<ConfigValue>, cs: Seq<(Seq<char>, Seq<char>, Seq<char>, Seq<char>, Seq<Seq<char>>)>) -> Seq<(Seq<char>, Seq<char>, Seq<char>, Seq<char>, Seq<Seq<char>>)>
    decreases bins.len(),
{
    if bins.len() == 0 {
        cs
    } else {
        with_component(
            bin_components(s, bins.drop_last(), cs),
            (
                "component-rust-bin-"@ + decimal((bins.len() - 1) as nat),
                bin_name(bins.last()),
                "rust_bin_target"@,
                "."@,
                target_patterns_spec(s, Some(bins.last()), "src/main.rs"@),
            ),
        )
    }
}

/// The components after recording the targets of the root package: the library
/// (from `[lib]`, or `src/lib.rs`), then each `[[bin]]`, or the binary of
/// `src/main.rs` named after the package when there is no `[[bin]]`.
pub open spec fn cargo_target_components(s: RepoSnapshot, m: ConfigValue, package_name: Option<Seq<char>>, cs: Seq<(Seq<char>, Seq<char>, Seq<char>, Seq<char>, Seq<Seq<char>>)>) -> Seq<(Seq<char>, Seq<char>, Seq<char>, Seq<char>, Seq<Seq<char>>)> {
    let lib = cfg_get(Some(m), "lib"@);
    let c1 = if lib is Some {
        with_component(cs, ("component-rust-lib"@, "lib"@, "rust_lib_target"@, "."@, target_patterns_spec(s, lib, "src/lib.rs"@)))
    } else if exists_spec(s, "src/lib.rs"@) {
        with_component(cs, ("component-rust-lib"@, "lib"@, "rust_lib_target"@, "."@, seq!["src/lib.rs"@]))
    } else {
        cs
    };
    match cfg_list(cfg_get(Some(m), "bin"@)) {
        Some(bins) if bins.len() > 0 => bin_components(s, bins, c1),
        _ => if exists_spec(s, "src/main.rs"@) {
            with_component(
                c1,
                (
                    "component-rust-bin-0"@,
                    match package_name {
                        Some(n) => n,
                        None => "bin"@,
                    },
                    "rust_bin_target"@,
                    "."@,
                    seq!["src/main.rs"@],
                ),
            )
        } else {
            c1
        },
    }
}

/// Records the library and binary targets of the root Cargo package.
fn detect_cargo_targets(s: &RepoSnapshot, manifest: &ConfigValue, package_name: Option<&String>, b: &mut RepoGraphBuilder)
    requires
        old(b).wf(),
    ensures
        final(b).wf(),
        final(b).keeps_known(old(b)),
        final(b).extends(old(b)),
        cargo_targets_recorded(*s, *manifest, *final(b)),
        component_views(final(b).components@) == cargo_target_components(
            *s,
            *manifest,
            match package_name {
                Some(n) => Some(n@),
                None => None,
            },
            component_views(old(b).components@),
        ),
        final(b).commands@ == old(b).commands@,
        final(b).tests@ == old(b).tests@,
        final(b).warnings@ == old(b).warnings@,
        cites_added(*old(b), *final(b), rust_component_rule(), rust_command_rule(), rust_command_rule()),
{
    let ghost s0 = *b;
    proof {
        lemma_cites_none(s0, s0, rust_component_rule(), rust_command_rule(), rust_command_rule());
        reveal_strlit("Cargo.toml");
        reveal_strlit("src/lib.rs");
        reveal_strlit("src/main.rs");
        assert(slashes("Cargo.toml"@) =~= "Cargo.toml"@);
        assert(slashes("src/lib.rs"@) =~= "src/lib.rs"@);
        assert(slashes("src/main.rs"@) =~= "src/main.rs"@);
    }
    let lib = get_key(manifest, "lib");
    if lib.is_some() {
        let ev = b.add_evidence("Cargo.toml", "manifest", Some("lib"), "Cargo library target.");
        let patterns = target_patterns(s, lib, "src/lib.rs");
        let ghost q0 = *b;
        proof {
            lemma_cites_quiet(s0, s0, q0, rust_component_rule(), rust_command_rule(), rust_command_rule());
        }
        b.add_component("component-rust-lib", "lib", "rust_lib_target", ".", patterns, ev);
        proof {
            lemma_cites_component(q0, *b, "component-rust-lib"@, ev@, ("Cargo.toml"@, "manifest"@, Some("lib"@), "Cargo library target."@), rust_component_rule(), rust_command_rule(), rust_command_rule());
            lemma_cites_chain(s0, q0, *b, rust_component_rule(), rust_command_rule(), rust_command_rule());
        }
    } else if path_exists(s, "src/lib.rs") {
        let ev = b.add_detected_file(
            "src/lib.rs",
            DetectedFileKind::SourceHint,
            "source_hint",
            None,
            "Cargo default library target source detected.",
        );
        let patterns = one_path("src/lib.rs");
        let ghost q0 = *b;
        proof {
            lemma_cites_quiet(s0, s0, q0, rust_component_rule(), rust_command_rule(), rust_command_rule());
        }
        b.add_component("component-rust-lib", "lib", "rust_lib_target", ".", patterns, ev);
        proof {
            lemma_cites_component(
                q0,
                *b,
                "component-rust-lib"@,
                ev@,
                ("src/lib.rs"@, "source_hint"@, None::<Seq<char>>, "Cargo default library target source detected."@),
                rust_component_rule(), rust_command_rule(), rust_command_rule(),
            );
            lemma_cites_chain(s0, q0, *b, rust_component_rule(), rust_command_rule(), rust_command_rule());
        }
    }
    assert(cites_added(s0, *b, rust_component_rule(), rust_command_rule(), rust_command_rule()));
    let ghost after_lib = component_views(b.components@);
    assert(after_lib == (if cfg_get(Some(*manifest), "lib"@) is Some {
        with_component(component_views(old(b).components@), ("component-rust-lib"@, "lib"@, "rust_lib_target"@, "."@, target_patterns_spec(*s, cfg_get(Some(*manifest), "lib"@), "src/lib.rs"@)))
    } else if exists_spec(*s, "src/lib.rs"@) {
        with_component(component_views(old(b).components@), ("component-rust-lib"@, "lib"@, "rust_lib_target"@, "."@, seq!["src/lib.rs"@]))
    } else {
        component_views(old(b).components@)
    }));
    let ghost before_bins = *b;
    let mut explicit_bin = false;
    match get_key(manifest, "bin") {
        Some(ConfigValue::List(bins)) => {
            let mut index: usize = 0;
            assert(bins@.take(0) =~= Seq::<ConfigValue>::empty());
            while index < bins.len()
                invariant
                    index <= bins@.len(),
                    component_views(b.components@) == bin_components(*s, bins@.take(index as int), after_lib),
                    b.commands@ == before_bins.commands@,
                    b.tests@ == before_bins.tests@,
                    b.warnings@ == before_bins.warnings@,
                    cites_added(s0, *b, rust_component_rule(), rust_command_rule(), rust_command_rule()),
                    b.extends(&s0),
                    b.keeps_known(&s0),
                    slashes("Cargo.toml"@) == "Cargo.toml"@,
                    b.wf(),
                    b.keeps_known(old(b)),
                    b.extends(old(b)),
                    explicit_bin == (index > 0),
                    (cfg_get(Some(*manifest), "lib"@) is Some || exists_spec(*s, "src/lib.rs"@)) ==> has_component(
                        b.components@,
                        "component-rust-lib"@,
                    ),
                    forall|i: nat| i < index ==> has_component(b.components@, "component-rust-bin-"@ + #[trigger] decimal(i)),
                decreases bins@.len() - index,
            {
                explicit_bin = true;
                let bin = &bins[index];
                assert(bins@.take(index + 1).drop_last() =~= bins@.take(index as int));
                assert(bins@.take(index + 1).last() == *bin);
                let name = match as_text(get_key(bin, "name")) {
                    Some(n) => n.clone(),
                    None => owned("bin"),
                };
                let ghost q0 = *b;
                let ev = b.add_evidence("Cargo.toml", "manifest", Some("bin"), "Cargo binary target.");
                let number = decimal_text(index);
                let id = concat2("component-rust-bin-", number.as_str());
                let patterns = target_patterns(s, Some(bin), "src/main.rs");
                let ghost q1 = *b;
                proof {
                    lemma_cites_quiet(s0, q0, q1, rust_component_rule(), rust_command_rule(), rust_command_rule());
                }
                b.add_component(id.as_str(), name.as_str(), "rust_bin_target", ".", patterns, ev);
                proof {
                    lemma_cites_component(q1, *b, id@, ev@, ("Cargo.toml"@, "manifest"@, Some("bin"@), "Cargo binary target."@), rust_component_rule(), rust_command_rule(), rust_command_rule());
                    lemma_cites_chain(s0, q1, *b, rust_component_rule(), rust_command_rule(), rust_command_rule());
                }
                index = index + 1;
            }
            assert(bins@.take(index as int) =~= bins@);
        },
        _ => {},
    }
    let ghost q = *b;
    if !explicit_bin && path_exists(s, "src/main.rs") {
        let ev = b.add_detected_file(
            "src/main.rs",
            DetectedFileKind::SourceHint,
            "source_hint",
            None,
            "Cargo default binary target source detected.",
        );
        let name = match package_name {
            Some(n) => n.clone(),
            None => owned("bin"),
        };
        proof {
            reveal_strlit("component-rust-bin-0");
            reveal_strlit("component-rust-bin-");
            assert(decimal(0) =~= seq!['0']);
            assert("component-rust-bin-"@ + decimal(0) =~= "component-rust-bin-0"@);
        }
        let patterns = one_path("src/main.rs");
        let ghost q0 = *b;
        proof {
            lemma_cites_quiet(s0, q, q0, rust_component_rule(), rust_command_rule(), rust_command_rule());
        }
        b.add_component("component-rust-bin-0", name.as_str(), "rust_bin_target", ".", patterns, ev);
        proof {
            lemma_cites_component(
                q0,
                *b,
                "component-rust-bin-0"@,
                ev@,
                ("src/main.rs"@, "source_hint"@, None::<Seq<char>>, "Cargo default binary target source detected."@),
                rust_component_rule(), rust_command_rule(), rust_command_rule(),
            );
            lemma_cites_chain(s0, q0, *b, rust_component_rule(), rust_command_rule(), rust_command_rule());
        }
    }
}

/// The members that a Cargo manifest lists under `[workspace]`.
pub open spec fn cargo_workspace_members(m: ConfigValue) -> Set<Seq<char>> {
    match cfg_list(cfg_get(cfg_get(Some(m), "workspace"@), "members"@)) {
        Some(items) => texts_of(items).to_set(),
        None => Set::empty(),
    }
}

/// The text members of a list, sorted, without repetition.
fn cargo_member_list(items: &Vec<ConfigValue>) -> (members: Vec<String>)
    ensures
        crate::textset::strictly_sorted(views(members@)),
        views(members@).to_set() == texts_of(items@).to_set(),
{
    let mut members: Vec<String> = Vec::new();
    let mut i: usize = 0;
    assert(views(members@).to_set() =~= texts_of(items@.take(0)).to_set());
    while i < items.len()
        invariant
            i <= items@.len(),
            crate::textset::strictly_sorted(views(members@)),
            views(members@).to_set() == texts_of(items@.take(i as int)).to_set(),
        decreases items@.len() - i,
    {
        assert(items@.take(i + 1).drop_last() =~= items@.take(i as int));
        assert(items@.take(i + 1).last() == items@[i as int]);
        match &items[i] {
            ConfigValue::Text(t) => {
                proof {
                    crate::text::lemma_push_to_set(texts_of(items@.take(i as int)), t@);
                }
                insert_sorted_unique(&mut members, t.clone());
            },
            _ => {},
        }
        i = i + 1;
    }
    assert(items@.take(items@.len() as int) =~= items@);
    members
}

/// Records a Cargo workspace and its members when the manifest lists any.
fn detect_cargo_workspace(s: &RepoSnapshot, manifest: &ConfigValue, b: &mut RepoGraphBuilder)
    requires
        old(b).wf(),
    ensures
        final(b).wf(),
        final(b).keeps_known(old(b)),
        final(b).extends(old(b)),
        cargo_workspace_members(*manifest) != Set::<Seq<char>>::empty() ==> {
            &&& has_workspace(final(b).workspaces@, "workspace-cargo"@)
            &&& forall|member: Seq<char>| #[trigger] cargo_workspace_members(*manifest).contains(member) ==> cargo_member_recorded(
                *s,
                *final(b),
                member,
            )
        },
        exists|ms: Seq<Seq<char>>|
            #[trigger] member_components(*s, ms, component_views(old(b).components@)) == component_views(final(b).components@)
                && strictly_sorted(ms) && ms.to_set() == cargo_workspace_members(*manifest) && members_recorded(*final(b), *s, ms)
                && warnings_added(old(b).warnings@, final(b).warnings@, final(b).evidence@, member_warnings(*s, ms)),
        final(b).commands@ == old(b).commands@,
        final(b).tests@ == old(b).tests@,
        cites_added(*old(b), *final(b), rust_component_rule(), rust_command_rule(), rust_command_rule()),
{
    proof {
        lemma_cites_none(*b, *b, rust_component_rule(), rust_command_rule(), rust_command_rule());
        reveal_strlit("Cargo.toml");
        assert(slashes("Cargo.toml"@) =~= "Cargo.toml"@);
        lemma_warnings_none(b.warnings@, b.evidence@);
        assert(member_warnings(*s, Seq::<Seq<char>>::empty()) == Seq::<(WarningBase, Option<EvidenceDesc>)>::empty());
        assert(member_components(*s, Seq::<Seq<char>>::empty(), component_views(old(b).components@)) == component_views(old(b).components@));
        assert(members_recorded(*old(b), *s, Seq::<Seq<char>>::empty()));
        assert(Seq::<Seq<char>>::empty().to_set() =~= Set::<Seq<char>>::empty());
    }
    match get_opt(get_key(manifest, "workspace"), "members") {
        Some(ConfigValue::List(items)) => {
            let members = cargo_member_list(items);
            proof {
                if members@.len() > 0 {
                    assert(views(members@).to_set().contains(views(members@)[0]));
                } else {
                    assert(views(members@).to_set() =~= Set::<Seq<char>>::empty());
                }
            }
            if members.len() > 0 {
                let ghost c0 = component_views(b.components@);
                let ghost w0 = b.warnings@;
                let ev = b.add_evidence("Cargo.toml", "manifest", Some("workspace.members"), "Cargo workspace members.");
                let copy = crate::repo_graph::types::copy_strings(&members);
                b.add_workspace("workspace-cargo", "cargo-workspace", copy, ev.clone());
                let ghost pre = *b;
                proof {
                    lemma_cites_quiet(*old(b), *old(b), pre, rust_component_rule(), rust_command_rule(), rust_command_rule());
                }
                detect_cargo_workspace_members(s, &members, &ev, b);
                proof {
                    lemma_cites_chain(*old(b), pre, *b, rust_component_rule(), rust_command_rule(), rust_command_rule());
                    lemma_warnings_none(w0, pre.evidence@);
                    lemma_warned_step(w0, pre, seq![], *b, member_warnings(*s, views(members@)));
                    assert(seq![] + member_warnings(*s, views(members@)) =~= member_warnings(*s, views(members@)));
                }
                assert(member_components(*s, views(members@), c0) == component_views(b.components@));
                assert(members_recorded(*b, *s, views(members@)));
                proof {
                    assert forall|member: Seq<char>| views(members@).to_set().contains(member) implies cargo_member_recorded(
                        *s,
                        *b,
                        member,
                    ) by {
                        let k = choose|k: int| 0 <= k < views(members@).len() && views(members@)[k] == member;
                        assert(members@[k]@ == member);
                    }
                }
            } else {
                assert(views(members@) =~= Seq::<Seq<char>>::empty());
            }
        },
        _ => {},
    }
}

/// The components that a readable root manifest gives, the members taken in
/// increasing order: the package, the crates of the workspace members, the targets.
pub open spec fn cargo_manifest_components(s: RepoSnapshot, m: ConfigValue, ms: Seq<Seq<char>>, cs: Seq<(Seq<char>, Seq<char>, Seq<char>, Seq<char>, Seq<Seq<char>>)>) -> Seq<(Seq<char>, Seq<char>, Seq<char>, Seq<char>, Seq<Seq<char>>)> {
    let c1 = match cargo_package_name(m) {
        Some(n) => with_component(
            cs,
            ("component-rust-package"@, n, "rust_crate"@, "."@, seq!["Cargo.toml"@, "Cargo.lock"@, "src/**"@, "tests/**"@]),
        ),
        None => cs,
    };
    cargo_target_components(s, m, cargo_package_name(m), member_components(s, ms, c1))
}

/// Records what a readable root manifest gives: the Cargo commands, the package,
/// the workspace and its members, and the targets.
fn detect_cargo_manifest(s: &RepoSnapshot, manifest: &ConfigValue, me: &String, b: &mut RepoGraphBuilder)
    requires
        old(b).wf(),
        old(b).knows(me@),
        old(b).names(me@, cargo_manifest_desc()),
    ensures
        cites_added(*old(b), *final(b), rust_component_rule(), rust_command_rule(), rust_command_rule()),
        final(b).wf(),
        final(b).keeps_known(old(b)),
        final(b).extends(old(b)),
        cargo_commands_recorded(*final(b)),
        cargo_package_name(*manifest) is Some ==> has_component(final(b).components@, "component-rust-package"@),
        cargo_workspace_members(*manifest) != Set::<Seq<char>>::empty() ==> {
            &&& has_workspace(final(b).workspaces@, "workspace-cargo"@)
            &&& forall|member: Seq<char>| #[trigger] cargo_workspace_members(*manifest).contains(member) ==> cargo_member_recorded(
                *s,
                *final(b),
                member,
            )
        },
        cargo_targets_recorded(*s, *manifest, *final(b)),
        exists|ms: Seq<Seq<char>>|
            #[trigger] cargo_manifest_components(*s, *manifest, ms, component_views(old(b).components@)) == component_views(final(b).components@)
                && strictly_sorted(ms) && ms.to_set() == cargo_workspace_members(*manifest) && members_recorded(*final(b), *s, ms)
                && warnings_added(old(b).warnings@, final(b).warnings@, final(b).evidence@, member_warnings(*s, ms)),
        command_views(final(b).commands@) == cargo_command_views(command_views(old(b).commands@)),
        test_views(final(b).tests@) == cargo_test_views(test_views(old(b).tests@)),
{
    add_cargo_commands(b, me);
    let ghost c0 = *b;
    let package_name = as_text(get_opt(get_key(manifest, "package"), "name"));
    match package_name {
        Some(name) => {
            let ev = b.add_evidence("Cargo.toml", "manifest", Some("package.name"), "Cargo package name.");
            let ghost q0 = *b;
            proof {
                lemma_cites_quiet(*old(b), c0, q0, rust_component_rule(), rust_command_rule(), rust_command_rule());
                reveal_strlit("Cargo.toml");
                assert(slashes("Cargo.toml"@) =~= "Cargo.toml"@);
            }
            let mut patterns: Vec<String> = Vec::new();
            patterns.push(owned("Cargo.toml"));
            patterns.push(owned("Cargo.lock"));
            patterns.push(owned("src/**"));
            patterns.push(owned("tests/**"));
            assert(views(patterns@) =~= seq!["Cargo.toml"@, "Cargo.lock"@, "src/**"@, "tests/**"@]);
            b.add_component("component-rust-package", name.as_str(), "rust_crate", ".", patterns, ev);
            let ghost q1 = *b;
            proof {
                lemma_cites_component(
                    q0,
                    q1,
                    "component-rust-package"@,
                    ev@,
                    ("Cargo.toml"@, "manifest"@, Some("package.name"@), "Cargo package name."@),
                    rust_component_rule(), rust_command_rule(), rust_command_rule(),
                );
                lemma_cites_chain(*old(b), q0, q1, rust_component_rule(), rust_command_rule(), rust_command_rule());
            }
            b.add_relationship(RelationshipKind::UsesPackageManager, "component-rust-package", "package-manager-cargo", me.clone());
            proof {
                lemma_cites_quiet(*old(b), q1, *b, rust_component_rule(), rust_command_rule(), rust_command_rule());
            }
        },
        None => {},
    }
    let ghost c1 = component_views(b.components@);
    let ghost w1 = b.warnings@;
    let ghost before_ws = *b;
    detect_cargo_workspace(s, manifest, b);
    let ghost ms = choose|ms: Seq<Seq<char>>|
        #[trigger] member_components(*s, ms, c1) == component_views(b.components@) && strictly_sorted(ms) && ms.to_set()
            == cargo_workspace_members(*manifest) && members_recorded(*b, *s, ms)
            && warnings_added(w1, b.warnings@, b.evidence@, member_warnings(*s, ms));
    let ghost after_ws = *b;
    proof {
        lemma_cites_chain(*old(b), before_ws, after_ws, rust_component_rule(), rust_command_rule(), rust_command_rule());
    }
    detect_cargo_targets(s, manifest, package_name, b);
    proof {
        lemma_cites_chain(*old(b), after_ws, *b, rust_component_rule(), rust_command_rule(), rust_command_rule());
        lemma_members_recorded_kept(after_ws, *b, *s, ms);
        assert(w1 == old(b).warnings@);
        lemma_warned_quiet(w1, after_ws, member_warnings(*s, ms), *b);
    }
    assert(cargo_manifest_components(*s, *manifest, ms, component_views(old(b).components@)) == component_views(b.components@));
}

/// The root Cargo manifest, when it is present and parses.
pub open spec fn cargo_doc(s: RepoSnapshot) -> Option<ConfigValue> {
    if exists_spec(s, "Cargo.toml"@) {
        match document_spec(s, "Cargo.toml"@) {
            Ok(m) => Some(m),
            Err(_) => None,
        }
    } else {
        None
    }
}

/// What Rust detection records of a repository.
pub open spec fn rust_recorded(s: RepoSnapshot, b: RepoGraphBuilder) -> bool {
    &&& exists_spec(s, "Cargo.toml"@) ==> {
        &&& has_file(b.detected_files@, "Cargo.toml"@, DetectedFileKind::Manifest)
        &&& has_manager(b.package_managers@, PackageManagerKind::Cargo, "cargo"@)
        &&& match document_spec(s, "Cargo.toml"@) {
            Ok(m) => {
                &&& cargo_commands_recorded(b)
                &&& cargo_package_name(m) is Some ==> has_component(b.components@, "component-rust-package"@)
                &&& cargo_workspace_members(m) != Set::<Seq<char>>::empty() ==> {
                    &&& has_workspace(b.workspaces@, "workspace-cargo"@)
                    &&& forall|member: Seq<char>| #[trigger] cargo_workspace_members(m).contains(member) ==> cargo_member_recorded(
                        s,
                        b,
                        member,
                    )
                }
                &&& cargo_targets_recorded(s, m, b)
            },
            Err(e) => has_issue(
                b.warnings@,
                DetectionSeverity::Error,
                manifest_warning_category_spec(e),
                e,
                Some("Cargo.toml"@),
            ),
        }
    }
    &&& exists_spec(s, "Cargo.lock"@) ==> has_file(b.detected_files@, "Cargo.lock"@, DetectedFileKind::Lockfile)
        && has_manager(b.package_managers@, PackageManagerKind::Cargo, "cargo"@)
}

/// The warning of a root manifest that is present but could not be used, backed by
/// its evidence.
pub open spec fn rust_manifest_warnings(s: RepoSnapshot) -> Seq<(WarningBase, Option<EvidenceDesc>)> {
    if exists_spec(s, "Cargo.toml"@) {
        match document_spec(s, "Cargo.toml"@) {
            Ok(_) => seq![],
            Err(e) => seq![(
                (DetectionSeverity::Error, manifest_warning_category_spec(e), e, Some("Cargo.toml"@)),
                Some(("Cargo.toml"@, "manifest"@, None, "Rust Cargo manifest detected."@)),
            )],
        }
    } else {
        seq![]
    }
}

/// Detects a Cargo package or workspace: its manifest and lockfile, the standard
/// Cargo commands, the package, workspace members and their path dependencies, and
/// the library and binary targets.
pub fn detect_rust(s: &RepoSnapshot, b: &mut RepoGraphBuilder)
    requires
        old(b).wf(),
    ensures
        final(b).wf(),
        final(b).keeps_known(old(b)),
        final(b).extends(old(b)),
        !exists_spec(*s, "Cargo.toml"@) && !exists_spec(*s, "Cargo.lock"@) ==> *final(b) == *old(b),
        rust_recorded(*s, *final(b)),
        cargo_relations_ok(*s, *final(b)),
        match cargo_doc(*s) {
            Some(m) => {
                &&& exists|ms: Seq<Seq<char>>|
                    #[trigger] cargo_manifest_components(*s, m, ms, component_views(old(b).components@)) == component_views(final(b).components@)
                        && strictly_sorted(ms) && ms.to_set() == cargo_workspace_members(m) && members_recorded(*final(b), *s, ms)
                &&& command_views(final(b).commands@) == cargo_command_views(command_views(old(b).commands@))
                &&& test_views(final(b).tests@) == cargo_test_views(test_views(old(b).tests@))
                &&& cites_added(*old(b), *final(b), rust_component_rule(), rust_command_rule(), rust_command_rule())
                &&& exists|ms: Seq<Seq<char>>|
                    strictly_sorted(ms) && ms.to_set() == cargo_workspace_members(m)
                        && #[trigger] warnings_added(old(b).warnings@, final(b).warnings@, final(b).evidence@, member_warnings(*s, ms))
            },
            None => {
                &&& cites_added(*old(b), *final(b), rust_component_rule(), rust_command_rule(), rust_command_rule())
                &&& warnings_added(old(b).warnings@, final(b).warnings@, final(b).evidence@, rust_manifest_warnings(*s))
                &&& final(b).components@ == old(b).components@
                &&& final(b).commands@ == old(b).commands@
                &&& final(b).tests@ == old(b).tests@
            },
        },
{
    proof {
        reveal_strlit("Cargo.toml");
        reveal_strlit("Cargo.lock");
        assert(slashes("Cargo.toml"@) =~= "Cargo.toml"@);
        assert(slashes("Cargo.lock"@) =~= "Cargo.lock"@);
    }
    let ghost w0 = b.warnings@;
    proof {
        lemma_warnings_none(w0, b.evidence@);
        lemma_cites_none(*b, *b, rust_component_rule(), rust_command_rule(), rust_command_rule());
    }
    if path_exists(s, "Cargo.toml") {
        let ghost c0 = component_views(b.components@);
        let me = b.add_detected_file("Cargo.toml", DetectedFileKind::Manifest, "manifest", None, "Rust Cargo manifest detected.");
        b.add_package_manager(PackageManagerKind::Cargo, "cargo", me.clone());
        let ghost pre = *b;
        proof {
            lemma_cites_quiet(*old(b), *old(b), pre, rust_component_rule(), rust_command_rule(), rust_command_rule());
            assert(b.names(me@, cargo_manifest_desc()));
        }
        match read_document(s, "Cargo.toml") {
            Ok(manifest) => {
                detect_cargo_manifest(s, manifest, &me, b);
                proof {
                    lemma_cites_chain(*old(b), pre, *b, rust_component_rule(), rust_command_rule(), rust_command_rule());
                }
                let ghost ms = choose|ms: Seq<Seq<char>>|
                    #[trigger] cargo_manifest_components(*s, *manifest, ms, c0) == component_views(b.components@) && strictly_sorted(ms)
                        && ms.to_set() == cargo_workspace_members(*manifest) && members_recorded(*b, *s, ms)
                        && warnings_added(pre.warnings@, b.warnings@, b.evidence@, member_warnings(*s, ms));
                assert(cargo_manifest_components(*s, *manifest, ms, c0) == component_views(b.components@));
            },
            Err(message) => {
                let category = manifest_warning_category(message.as_str());
                b.warn_with(
                    DetectionSeverity::Error,
                    category,
                    message.as_str(),
                    Some("Cargo.toml"),
                    Some(me),
                    Ghost(Some(("Cargo.toml"@, "manifest"@, None, "Rust Cargo manifest detected."@))),
                );
                proof {
                    lemma_cites_quiet(*old(b), pre, *b, rust_component_rule(), rust_command_rule(), rust_command_rule());
                }
            },
        }
    }
    let ghost before_lock = *b;
    if path_exists(s, "Cargo.lock") {
        let ev = b.add_detected_file("Cargo.lock", DetectedFileKind::Lockfile, "lockfile", None, "Cargo lockfile detected.");
        b.add_package_manager(PackageManagerKind::Cargo, "cargo", ev);
    }
    proof {
        lemma_cites_quiet(*old(b), before_lock, *b, rust_component_rule(), rust_command_rule(), rust_command_rule());
        if cargo_doc(*s) is Some {
            let m = cargo_doc(*s)->0;
            let ms = choose|ms: Seq<Seq<char>>|
                #[trigger] cargo_manifest_components(*s, m, ms, component_views(old(b).components@)) == component_views(before_lock.components@)
                    && strictly_sorted(ms) && ms.to_set() == cargo_workspace_members(m) && members_recorded(before_lock, *s, ms);
            lemma_members_recorded_kept(before_lock, *b, *s, ms);
            assert(cargo_manifest_components(*s, m, ms, component_views(old(b).components@)) == component_views(b.components@));
            assert(members_recorded(*b, *s, ms));
            let ms2 = choose|ms: Seq<Seq<char>>|
                strictly_sorted(ms) && ms.to_set() == cargo_workspace_members(m)
                    && #[trigger] warnings_added(w0, before_lock.warnings@, before_lock.evidence@, member_warnings(*s, ms));
            lemma_warned_quiet(w0, before_lock, member_warnings(*s, ms2), *b);
        } else {
            lemma_warned_quiet(w0, before_lock, rust_manifest_warnings(*s), *b);
        }
    }
}

} // verus!
