use vstd::prelude::*;

use super::types::{
    evidence_id_set, opt_backed, opt_text, Component, DetectedFile, DetectedFileKind,
    DetectionCategory, DetectionIssue, DetectionSeverity, Evidence, PackageManager,
    PackageManagerKind, RepoCommand, RepoCommandKind, RepoInfo, RepoInspection, Relationship,
    RelationshipKind, TestTarget, Workspace, INSPECT_CONTRACT_VERSION,
};
use crate::order::{lemma_same_elements, sort_items, sorted, Ordered};
use crate::text::{
    concat2, concat3, decimal, decimal_text, lemma_seq_lt_total, lemma_seq_lt_transitive,
    normalize_slashes, owned, seq_le, seq_lt, slashes, stable_id, stable_id_spec, text_eq, text_less,
};
use crate::textset::views;

verus! {

/// Collects the facts of a repository inspection.
pub struct RepoGraphBuilder {
    pub repo_root: String,
    pub next_evidence: usize,
    pub next_warning: usize,
    pub detected_files: Vec<DetectedFile>,
    pub package_managers: Vec<PackageManager>,
    pub workspaces: Vec<Workspace>,
    pub components: Vec<Component>,
    pub commands: Vec<RepoCommand>,
    pub tests: Vec<TestTarget>,
    pub relationships: Vec<Relationship>,
    pub evidence: Vec<Evidence>,
    pub warnings: Vec<DetectionIssue>,
}

/// A non-empty evidence identifier that names an evidence item.
pub open spec fn known_id(known: Set<Seq<char>>, id: String) -> bool {
    id@.len() > 0 && known.contains(id@)
}

/// Every fact of an inspection names a non-empty evidence identifier that the
/// inspection holds; every warning that names evidence names a known item.
pub open spec fn inspection_evidence_ok(g: RepoInspection) -> bool {
    let known = evidence_id_set(g.evidence@);
    &&& forall|i: int| 0 <= i < g.detected_files@.len() ==> known_id(known, (#[trigger] g.detected_files@[i]).evidence_id)
    &&& forall|i: int| 0 <= i < g.package_managers@.len() ==> known_id(known, (#[trigger] g.package_managers@[i]).evidence_id)
    &&& forall|i: int| 0 <= i < g.workspaces@.len() ==> known_id(known, (#[trigger] g.workspaces@[i]).evidence_id)
    &&& forall|i: int| 0 <= i < g.components@.len() ==> known_id(known, (#[trigger] g.components@[i]).evidence_id)
    &&& forall|i: int| 0 <= i < g.commands@.len() ==> known_id(known, (#[trigger] g.commands@[i]).evidence_id)
    &&& forall|i: int| 0 <= i < g.tests@.len() ==> known_id(known, (#[trigger] g.tests@[i]).evidence_id)
    &&& forall|i: int| 0 <= i < g.relationships@.len() ==> known_id(known, (#[trigger] g.relationships@[i]).evidence_id)
    &&& forall|i: int| 0 <= i < g.warnings@.len() ==> opt_backed((#[trigger] g.warnings@[i]).evidence_id, known)
}

pub open spec fn relationship_kind_name(k: RelationshipKind) -> Seq<char> {
    match k {
        RelationshipKind::Contains => "contains"@,
        RelationshipKind::BelongsToWorkspace => "belongs_to_workspace"@,
        RelationshipKind::DefinesComponent => "defines_component"@,
        RelationshipKind::HasCommand => "has_command"@,
        RelationshipKind::HasTest => "has_test"@,
        RelationshipKind::Tests => "tests"@,
        RelationshipKind::DependsOn => "depends_on"@,
        RelationshipKind::UsesPackageManager => "uses_package_manager"@,
        RelationshipKind::EvidenceFor => "evidence_for"@,
    }
}

fn relationship_kind_label(k: RelationshipKind) -> (r: &'static str)
    ensures
        r@ == relationship_kind_name(k),
{
    match k {
        RelationshipKind::Contains => "contains",
        RelationshipKind::BelongsToWorkspace => "belongs_to_workspace",
        RelationshipKind::DefinesComponent => "defines_component",
        RelationshipKind::HasCommand => "has_command",
        RelationshipKind::HasTest => "has_test",
        RelationshipKind::Tests => "tests",
        RelationshipKind::DependsOn => "depends_on",
        RelationshipKind::UsesPackageManager => "uses_package_manager",
        RelationshipKind::EvidenceFor => "evidence_for",
    }
}

/// The identifier of a relationship: its kind, source and destination.
pub open spec fn relationship_id_spec(k: RelationshipKind, src: Seq<char>, dst: Seq<char>) -> Seq<char> {
    stable_id_spec("rel"@, relationship_kind_name(k) + "-"@ + src + "-"@ + dst)
}

pub fn stable_relationship_id(k: RelationshipKind, src: &str, dst: &str) -> (r: String)
    ensures
        r@ == relationship_id_spec(k, src@, dst@),
{
    let value = concat3(relationship_kind_label(k), "-", src);
    let value = concat3(value.as_str(), "-", dst);
    stable_id("rel", value.as_str())
}

pub open spec fn has_relationship_id(rels: Seq<Relationship>, id: Seq<char>) -> bool {
    exists|i: int| 0 <= i < rels.len() && (#[trigger] rels[i]).id@ == id
}

/// The relationships after adding one: unchanged when its identifier is taken.
pub open spec fn relationship_added(
    before: Seq<Relationship>,
    after: Seq<Relationship>,
    k: RelationshipKind,
    src: Seq<char>,
    dst: Seq<char>,
    evidence_id: Seq<char>,
) -> bool {
    let id = relationship_id_spec(k, src, dst);
    if has_relationship_id(before, id) {
        after == before
    } else {
        &&& after == before.push(after.last())
        &&& after.last().id@ == id
        &&& after.last().kind == k
        &&& after.last().src_id@ == src
        &&& after.last().dst_id@ == dst
        &&& after.last().evidence_id@ == evidence_id
    }
}

proof fn lemma_evidence_set_push(ev: Seq<Evidence>, e: Evidence)
    ensures
        evidence_id_set(ev.push(e)) == evidence_id_set(ev).insert(e.id@),
{
    let a = ev.map_values(|x: Evidence| x.id@);
    let b = ev.push(e).map_values(|x: Evidence| x.id@);
    assert(b =~= a.push(e.id@));
    crate::text::lemma_push_to_set(a, e.id@);
}

fn relationship_id_taken(rels: &Vec<Relationship>, id: &str) -> (r: bool)
    ensures
        r == has_relationship_id(rels@, id@),
{
    let mut i: usize = 0;
    while i < rels.len()
        invariant
            i <= rels@.len(),
            forall|k: int| 0 <= k < i ==> (#[trigger] rels@[k]).id@ != id@,
        decreases rels@.len() - i,
    {
        if text_eq(rels[i].id.as_str(), id) {
            return true;
        }
        i = i + 1;
    }
    false
}

fn package_manager_present(pms: &Vec<PackageManager>, kind: PackageManagerKind, name: &str) -> (r: bool)
    ensures
        r == exists|i: int| 0 <= i < pms@.len() && (#[trigger] pms@[i]).kind == kind && pms@[i].name@ == name@,
{
    let mut i: usize = 0;
    while i < pms.len()
        invariant
            i <= pms@.len(),
            forall|k: int| 0 <= k < i ==> !((#[trigger] pms@[k]).kind == kind && pms@[k].name@ == name@),
        decreases pms@.len() - i,
    {
        if pms[i].kind == kind && text_eq(pms[i].name.as_str(), name) {
            return true;
        }
        i = i + 1;
    }
    false
}

fn component_id_taken(cs: &Vec<Component>, id: &str) -> (r: bool)
    ensures
        r == exists|i: int| 0 <= i < cs@.len() && (#[trigger] cs@[i]).id@ == id@,
{
    let mut i: usize = 0;
    while i < cs.len()
        invariant
            i <= cs@.len(),
            forall|k: int| 0 <= k < i ==> (#[trigger] cs@[k]).id@ != id@,
        decreases cs@.len() - i,
    {
        if text_eq(cs[i].id.as_str(), id) {
            return true;
        }
        i = i + 1;
    }
    false
}

fn command_taken(cs: &Vec<RepoCommand>, command: &str) -> (r: bool)
    ensures
        r == exists|i: int| 0 <= i < cs@.len() && (#[trigger] cs@[i]).command@ == command@,
{
    let mut i: usize = 0;
    while i < cs.len()
        invariant
            i <= cs@.len(),
            forall|k: int| 0 <= k < i ==> (#[trigger] cs@[k]).command@ != command@,
        decreases cs@.len() - i,
    {
        if text_eq(cs[i].command.as_str(), command) {
            return true;
        }
        i = i + 1;
    }
    false
}

fn test_command_taken(ts: &Vec<TestTarget>, command: &str) -> (r: bool)
    ensures
        r == exists|i: int| 0 <= i < ts@.len() && (#[trigger] ts@[i]).command@ == command@,
{
    let mut i: usize = 0;
    while i < ts.len()
        invariant
            i <= ts@.len(),
            forall|k: int| 0 <= k < i ==> (#[trigger] ts@[k]).command@ != command@,
        decreases ts@.len() - i,
    {
        if text_eq(ts[i].command.as_str(), command) {
            return true;
        }
        i = i + 1;
    }
    false
}

/// `after` keeps every element of `before` in place and may add more at its end.
pub open spec fn seq_extends<T>(before: Seq<T>, after: Seq<T>) -> bool {
    &&& before.len() <= after.len()
    &&& forall|i: int| #![trigger after[i]] #![trigger before[i]] 0 <= i < before.len() ==> after[i] == before[i]
}

/// A component as plain values: identifier, name, kind, path and file patterns.
pub open spec fn component_view(c: Component) -> (Seq<char>, Seq<char>, Seq<char>, Seq<char>, Seq<Seq<char>>) {
    (c.id@, c.name@, c.kind@, c.path@, views(c.file_patterns@))
}

pub open spec fn component_views(cs: Seq<Component>) -> Seq<(Seq<char>, Seq<char>, Seq<char>, Seq<char>, Seq<Seq<char>>)> {
    cs.map_values(|c: Component| component_view(c))
}

/// The components after recording one: unchanged when its identifier is taken, else
/// with it at the end.
pub open spec fn with_component(cs: Seq<(Seq<char>, Seq<char>, Seq<char>, Seq<char>, Seq<Seq<char>>)>, c: (Seq<char>, Seq<char>, Seq<char>, Seq<char>, Seq<Seq<char>>)) -> Seq<(Seq<char>, Seq<char>, Seq<char>, Seq<char>, Seq<Seq<char>>)> {
    if exists|i: int| 0 <= i < cs.len() && (#[trigger] cs[i]).0 == c.0 {
        cs
    } else {
        cs.push(c)
    }
}

/// A command as plain values: identifier, kind, command line, scope, scope
/// reference and confidence.
pub open spec fn command_view(c: RepoCommand) -> (Seq<char>, RepoCommandKind, Seq<char>, Seq<char>, Option<Seq<char>>, u32) {
    (c.id@, c.kind, c.command@, c.scope@, opt_text(c.scope_ref), c.confidence)
}

pub open spec fn command_views(cs: Seq<RepoCommand>) -> Seq<(Seq<char>, RepoCommandKind, Seq<char>, Seq<char>, Option<Seq<char>>, u32)> {
    cs.map_values(|c: RepoCommand| command_view(c))
}

/// The commands after recording one: unchanged when its command line is taken, else
/// with it at the end.
pub open spec fn with_command(cs: Seq<(Seq<char>, RepoCommandKind, Seq<char>, Seq<char>, Option<Seq<char>>, u32)>, c: (Seq<char>, RepoCommandKind, Seq<char>, Seq<char>, Option<Seq<char>>, u32)) -> Seq<(Seq<char>, RepoCommandKind, Seq<char>, Seq<char>, Option<Seq<char>>, u32)> {
    if exists|i: int| 0 <= i < cs.len() && (#[trigger] cs[i]).2 == c.2 {
        cs
    } else {
        cs.push(c)
    }
}

/// A test target as plain values: identifier, name, command line, scope, scope
/// reference and confidence.
pub open spec fn test_view(t: TestTarget) -> (Seq<char>, Seq<char>, Seq<char>, Seq<char>, Option<Seq<char>>, u32) {
    (t.id@, t.name@, t.command@, t.scope@, opt_text(t.scope_ref), t.confidence)
}

pub open spec fn test_views(ts: Seq<TestTarget>) -> Seq<(Seq<char>, Seq<char>, Seq<char>, Seq<char>, Option<Seq<char>>, u32)> {
    ts.map_values(|t: TestTarget| test_view(t))
}

/// The test targets after recording one: unchanged when its command line is taken,
/// else with it at the end.
pub open spec fn with_test(ts: Seq<(Seq<char>, Seq<char>, Seq<char>, Seq<char>, Option<Seq<char>>, u32)>, t: (Seq<char>, Seq<char>, Seq<char>, Seq<char>, Option<Seq<char>>, u32)) -> Seq<(Seq<char>, Seq<char>, Seq<char>, Seq<char>, Option<Seq<char>>, u32)> {
    if exists|i: int| 0 <= i < ts.len() && (#[trigger] ts[i]).2 == t.2 {
        ts
    } else {
        ts.push(t)
    }
}

/// What an evidence item says: its path, kind, field and reason.
pub type EvidenceDesc = (Seq<char>, Seq<char>, Option<Seq<char>>, Seq<char>);

pub open spec fn evidence_desc(e: Evidence) -> EvidenceDesc {
    (e.path@, e.kind@, opt_text(e.field), e.reason@)
}

/// Some evidence item has the identifier and says `d`.
pub open spec fn names_evidence(evs: Seq<Evidence>, id: Seq<char>, d: EvidenceDesc) -> bool {
    exists|j: int| 0 <= j < evs.len() && (#[trigger] evs[j]).id@ == id && evidence_desc(evs[j]) == d
}

/// A detection warning as plain values, without its number: severity, category,
/// message, path.
pub type WarningBase = (DetectionSeverity, DetectionCategory, Seq<char>, Option<Seq<char>>);

pub open spec fn warning_base(w: DetectionIssue) -> WarningBase {
    (w.severity, w.category, w.message@, opt_text(w.path))
}

/// The warning is `x.0`, and names evidence that says `x.1` (or none).
pub open spec fn warning_as(w: DetectionIssue, evs: Seq<Evidence>, x: (WarningBase, Option<EvidenceDesc>)) -> bool {
    &&& warning_base(w) == x.0
    &&& match x.1 {
        Some(d) => w.evidence_id matches Some(e) && names_evidence(evs, e@, d),
        None => w.evidence_id is None,
    }
}

/// The warnings after are those before followed by the expected ones, in order.
pub open spec fn warnings_added(
    before: Seq<DetectionIssue>,
    after: Seq<DetectionIssue>,
    evs: Seq<Evidence>,
    expected: Seq<(WarningBase, Option<EvidenceDesc>)>,
) -> bool {
    &&& after.len() == before.len() + expected.len()
    &&& forall|i: int| 0 <= i < before.len() ==> #[trigger] after[i] == before[i]
    &&& forall|k: int| 0 <= k < expected.len() ==> warning_as(#[trigger] after[before.len() + k], evs, expected[k])
}

pub proof fn lemma_warnings_none(ws: Seq<DetectionIssue>, evs: Seq<Evidence>)
    ensures
        warnings_added(ws, ws, evs, seq![]),
{
}

/// Adding one more warning, and keeping the evidence, keeps the list exact.
pub proof fn lemma_warnings_push(
    before: Seq<DetectionIssue>,
    mid: Seq<DetectionIssue>,
    evs1: Seq<Evidence>,
    x: Seq<(WarningBase, Option<EvidenceDesc>)>,
    after: Seq<DetectionIssue>,
    evs2: Seq<Evidence>,
    y: (WarningBase, Option<EvidenceDesc>),
)
    requires
        warnings_added(before, mid, evs1, x),
        after == mid.push(after.last()),
        warning_as(after.last(), evs2, y),
        forall|t: Seq<char>, d: EvidenceDesc| #[trigger] names_evidence(evs1, t, d) ==> names_evidence(evs2, t, d),
    ensures
        warnings_added(before, after, evs2, x.push(y)),
{
    assert forall|k: int| 0 <= k < x.push(y).len() implies warning_as(#[trigger] after[before.len() + k], evs2, x.push(y)[k]) by {
        if k < x.len() {
            assert(after[before.len() + k] == mid[before.len() + k]);
            assert(warning_as(mid[before.len() + k], evs1, x[k]));
            let w = mid[before.len() + k];
            if let Some(d) = x[k].1 {
                let e = w.evidence_id->0;
                assert(names_evidence(evs1, e@, d));
            }
        } else {
            assert(after[before.len() + k] == after.last());
        }
    }
    assert forall|i: int| 0 <= i < before.len() implies #[trigger] after[i] == before[i] by {
        assert(mid[i] == before[i]);
    }
}

/// Evidence that only grows keeps the list exact.
pub proof fn lemma_warnings_keep(
    before: Seq<DetectionIssue>,
    after: Seq<DetectionIssue>,
    evs1: Seq<Evidence>,
    x: Seq<(WarningBase, Option<EvidenceDesc>)>,
    evs2: Seq<Evidence>,
)
    requires
        warnings_added(before, after, evs1, x),
        forall|t: Seq<char>, d: EvidenceDesc| #[trigger] names_evidence(evs1, t, d) ==> names_evidence(evs2, t, d),
    ensures
        warnings_added(before, after, evs2, x),
{
    lemma_warnings_none(after, evs2);
    lemma_warnings_chain(before, after, evs1, x, after, evs2, seq![]);
    assert(x + seq![] =~= x);
}

/// A step that adds the warnings `step` to a builder whose warnings since `w0` are
/// `acc`: they are then `acc + step`.
pub proof fn lemma_warned_step(
    w0: Seq<DetectionIssue>,
    a: RepoGraphBuilder,
    acc: Seq<(WarningBase, Option<EvidenceDesc>)>,
    b: RepoGraphBuilder,
    step: Seq<(WarningBase, Option<EvidenceDesc>)>,
)
    requires
        warnings_added(w0, a.warnings@, a.evidence@, acc),
        warnings_added(a.warnings@, b.warnings@, b.evidence@, step),
        b.keeps_known(&a),
    ensures
        warnings_added(w0, b.warnings@, b.evidence@, acc + step),
{
    lemma_warnings_chain(w0, a.warnings@, a.evidence@, acc, b.warnings@, b.evidence@, step);
}

/// A step that adds no warning keeps them `acc`.
pub proof fn lemma_warned_quiet(w0: Seq<DetectionIssue>, a: RepoGraphBuilder, acc: Seq<(WarningBase, Option<EvidenceDesc>)>, b: RepoGraphBuilder)
    requires
        warnings_added(w0, a.warnings@, a.evidence@, acc),
        b.warnings@ == a.warnings@,
        b.keeps_known(&a),
    ensures
        warnings_added(w0, b.warnings@, b.evidence@, acc),
{
    lemma_warnings_keep(w0, a.warnings@, a.evidence@, acc, b.evidence@);
}

/// Chaining two exact steps.
pub proof fn lemma_warnings_chain(
    a: Seq<DetectionIssue>,
    b: Seq<DetectionIssue>,
    evs1: Seq<Evidence>,
    x: Seq<(WarningBase, Option<EvidenceDesc>)>,
    c: Seq<DetectionIssue>,
    evs2: Seq<Evidence>,
    y: Seq<(WarningBase, Option<EvidenceDesc>)>,
)
    requires
        warnings_added(a, b, evs1, x),
        warnings_added(b, c, evs2, y),
        forall|t: Seq<char>, d: EvidenceDesc| #[trigger] names_evidence(evs1, t, d) ==> names_evidence(evs2, t, d),
    ensures
        warnings_added(a, c, evs2, x + y),
{
    assert forall|k: int| 0 <= k < (x + y).len() implies warning_as(#[trigger] c[a.len() + k], evs2, (x + y)[k]) by {
        if k < x.len() {
            assert(c[a.len() + k] == b[a.len() + k]);
            assert(warning_as(b[a.len() + k], evs1, x[k]));
            let w = b[a.len() + k];
            if let Some(d) = x[k].1 {
                let e = w.evidence_id->0;
                assert(names_evidence(evs1, e@, d));
            }
        } else {
            assert(c[b.len() + (k - x.len())] == c[a.len() + k]);
            assert(warning_as(c[b.len() + (k - x.len())], evs2, y[k - x.len()]));
        }
    }
    assert forall|i: int| 0 <= i < a.len() implies #[trigger] c[i] == a[i] by {
        assert(c[i] == b[i]);
    }
}

/// Some command with the command line cites evidence that says `d`.
pub open spec fn command_cites(cs: Seq<RepoCommand>, evs: Seq<Evidence>, command: Seq<char>, d: EvidenceDesc) -> bool {
    exists|i: int| 0 <= i < cs.len() && (#[trigger] cs[i]).command@ == command && names_evidence(evs, cs[i].evidence_id@, d)
}

/// Some test target with the command line cites evidence that says `d`.
pub open spec fn test_cites(ts: Seq<TestTarget>, evs: Seq<Evidence>, command: Seq<char>, d: EvidenceDesc) -> bool {
    exists|i: int| 0 <= i < ts.len() && (#[trigger] ts[i]).command@ == command && names_evidence(evs, ts[i].evidence_id@, d)
}

/// What an item (known by its identifier or command line) may cite: the evidence
/// descriptions allowed for it.
pub type CiteRule = spec_fn(Seq<char>, EvidenceDesc) -> bool;

/// Every component added between `before` and `after` cites evidence whose
/// description its rule allows (by the component's identifier).
pub open spec fn components_cite(before: RepoGraphBuilder, after: RepoGraphBuilder, pok: CiteRule) -> bool {
    forall|i: int|
        before.components@.len() <= i < after.components@.len() ==> #[trigger] component_cites_at(after, i, pok)
}

/// The component at `i` cites evidence whose description its rule allows.
pub open spec fn component_cites_at(after: RepoGraphBuilder, i: int, pok: CiteRule) -> bool {
    exists|d: EvidenceDesc| #[trigger] names_evidence(after.evidence@, after.components@[i].evidence_id@, d) && pok(after.components@[i].id@, d)
}

/// Every command added between `before` and `after` cites evidence whose description
/// its rule allows (by the command line).
pub open spec fn commands_cite(before: RepoGraphBuilder, after: RepoGraphBuilder, cok: CiteRule) -> bool {
    forall|i: int|
        before.commands@.len() <= i < after.commands@.len() ==> exists|d: EvidenceDesc|
            #[trigger] names_evidence(after.evidence@, (#[trigger] after.commands@[i]).evidence_id@, d) && cok(after.commands@[i].command@, d)
}

/// Every test target added between `before` and `after` cites evidence whose
/// description its rule allows (by the command line).
pub open spec fn tests_cite(before: RepoGraphBuilder, after: RepoGraphBuilder, tok: CiteRule) -> bool {
    forall|i: int|
        before.tests@.len() <= i < after.tests@.len() ==> exists|d: EvidenceDesc|
            #[trigger] names_evidence(after.evidence@, (#[trigger] after.tests@[i]).evidence_id@, d) && tok(after.tests@[i].command@, d)
}

/// Every component, command and test target added between `before` and `after` cites
/// evidence whose description its rule allows.
pub open spec fn cites_added(before: RepoGraphBuilder, after: RepoGraphBuilder, pok: CiteRule, cok: CiteRule, tok: CiteRule) -> bool {
    &&& components_cite(before, after, pok)
    &&& commands_cite(before, after, cok)
    &&& tests_cite(before, after, tok)
}

/// Nothing added: nothing to cite.
pub proof fn lemma_cites_none(a: RepoGraphBuilder, b: RepoGraphBuilder, pok: CiteRule, cok: CiteRule, tok: CiteRule)
    requires
        b.components@.len() == a.components@.len(),
        b.commands@.len() == a.commands@.len(),
        b.tests@.len() == a.tests@.len(),
    ensures
        cites_added(a, b, pok, cok, tok),
{
}

proof fn lemma_components_chain(a: RepoGraphBuilder, b: RepoGraphBuilder, c: RepoGraphBuilder, pok: CiteRule)
    requires
        components_cite(a, b, pok),
        components_cite(b, c, pok),
        b.extends(&a),
        c.extends(&b),
        c.keeps_known(&b),
    ensures
        components_cite(a, c, pok),
{
    assert forall|i: int| a.components@.len() <= i < c.components@.len() implies #[trigger] component_cites_at(c, i, pok) by {
        if i < b.components@.len() {
            assert(c.components@[i] == b.components@[i]);
            assert(component_cites_at(b, i, pok));
            let d = choose|d: EvidenceDesc| #[trigger] names_evidence(b.evidence@, b.components@[i].evidence_id@, d) && pok(b.components@[i].id@, d);
            assert(names_evidence(c.evidence@, c.components@[i].evidence_id@, d));
        } else {
            assert(component_cites_at(c, i, pok));
        }
    }
}

proof fn lemma_commands_chain(a: RepoGraphBuilder, b: RepoGraphBuilder, c: RepoGraphBuilder, cok: CiteRule)
    requires
        commands_cite(a, b, cok),
        commands_cite(b, c, cok),
        b.extends(&a),
        c.extends(&b),
        c.keeps_known(&b),
    ensures
        commands_cite(a, c, cok),
{
    assert forall|i: int| a.commands@.len() <= i < c.commands@.len() implies exists|d: EvidenceDesc|
        #[trigger] names_evidence(c.evidence@, (#[trigger] c.commands@[i]).evidence_id@, d) && cok(c.commands@[i].command@, d) by {
        if i < b.commands@.len() {
            assert(c.commands@[i] == b.commands@[i]);
            let d = choose|d: EvidenceDesc| #[trigger] names_evidence(b.evidence@, b.commands@[i].evidence_id@, d) && cok(b.commands@[i].command@, d);
            assert(names_evidence(c.evidence@, c.commands@[i].evidence_id@, d));
        }
    }
}

proof fn lemma_tests_chain(a: RepoGraphBuilder, b: RepoGraphBuilder, c: RepoGraphBuilder, tok: CiteRule)
    requires
        tests_cite(a, b, tok),
        tests_cite(b, c, tok),
        b.extends(&a),
        c.extends(&b),
        c.keeps_known(&b),
    ensures
        tests_cite(a, c, tok),
{
    assert forall|i: int| a.tests@.len() <= i < c.tests@.len() implies exists|d: EvidenceDesc|
        #[trigger] names_evidence(c.evidence@, (#[trigger] c.tests@[i]).evidence_id@, d) && tok(c.tests@[i].command@, d) by {
        if i < b.tests@.len() {
            assert(c.tests@[i] == b.tests@[i]);
            let d = choose|d: EvidenceDesc| #[trigger] names_evidence(b.evidence@, b.tests@[i].evidence_id@, d) && tok(b.tests@[i].command@, d);
            assert(names_evidence(c.evidence@, c.tests@[i].evidence_id@, d));
        }
    }
}

/// Two steps that cite as allowed make one.
pub proof fn lemma_cites_chain(a: RepoGraphBuilder, b: RepoGraphBuilder, c: RepoGraphBuilder, pok: CiteRule, cok: CiteRule, tok: CiteRule)
    requires
        cites_added(a, b, pok, cok, tok),
        cites_added(b, c, pok, cok, tok),
        b.extends(&a),
        c.extends(&b),
        c.keeps_known(&b),
    ensures
        cites_added(a, c, pok, cok, tok),
{
    lemma_components_chain(a, b, c, pok);
    lemma_commands_chain(a, b, c, cok);
    lemma_tests_chain(a, b, c, tok);
}

/// A step that adds no component, command or test target keeps what was cited.
pub proof fn lemma_cites_quiet(a: RepoGraphBuilder, b: RepoGraphBuilder, c: RepoGraphBuilder, pok: CiteRule, cok: CiteRule, tok: CiteRule)
    requires
        cites_added(a, b, pok, cok, tok),
        b.extends(&a),
        c.extends(&b),
        c.keeps_known(&b),
        c.components@ == b.components@,
        c.commands@ == b.commands@,
        c.tests@ == b.tests@,
    ensures
        cites_added(a, c, pok, cok, tok),
{
    lemma_cites_none(b, c, pok, cok, tok);
    lemma_cites_chain(a, b, c, pok, cok, tok);
}

/// Citing as one set of rules allows, where those allow no more than a second set,
/// cites as the second allows.
pub proof fn lemma_cites_weaken(
    a: RepoGraphBuilder,
    b: RepoGraphBuilder,
    p1: CiteRule,
    c1: CiteRule,
    t1: CiteRule,
    p2: CiteRule,
    c2: CiteRule,
    t2: CiteRule,
)
    requires
        cites_added(a, b, p1, c1, t1),
        forall|k: Seq<char>, d: EvidenceDesc| #[trigger] p1(k, d) ==> p2(k, d),
        forall|k: Seq<char>, d: EvidenceDesc| #[trigger] c1(k, d) ==> c2(k, d),
        forall|k: Seq<char>, d: EvidenceDesc| #[trigger] t1(k, d) ==> t2(k, d),
    ensures
        cites_added(a, b, p2, c2, t2),
{
    assert forall|i: int| a.components@.len() <= i < b.components@.len() implies #[trigger] component_cites_at(b, i, p2) by {
        assert(component_cites_at(b, i, p1));
    }
}

/// A component added (when its identifier was new) with evidence that says `d`,
/// which its rule allows.
pub proof fn lemma_cites_component(a: RepoGraphBuilder, b: RepoGraphBuilder, id: Seq<char>, ev: Seq<char>, d: EvidenceDesc, pok: CiteRule, cok: CiteRule, tok: CiteRule)
    requires
        b.components@ == a.components@ || (b.components@ == a.components@.push(b.components@.last()) && b.components@.last().id@ == id
            && b.components@.last().evidence_id@ == ev),
        b.commands@ == a.commands@,
        b.tests@ == a.tests@,
        b.names(ev, d),
        pok(id, d),
    ensures
        cites_added(a, b, pok, cok, tok),
{
    if b.components@ != a.components@ {
        let i = a.components@.len() as int;
        assert(b.components@[i] == b.components@.last());
        assert(names_evidence(b.evidence@, b.components@[i].evidence_id@, d));
        assert(component_cites_at(b, i, pok));
    }
}

/// A command added (when its command line was new) with evidence that says `d`,
/// which its rule allows.
pub proof fn lemma_cites_command(a: RepoGraphBuilder, b: RepoGraphBuilder, command: Seq<char>, ev: Seq<char>, d: EvidenceDesc, pok: CiteRule, cok: CiteRule, tok: CiteRule)
    requires
        b.commands@ == a.commands@ || (b.commands@ == a.commands@.push(b.commands@.last()) && b.commands@.last().command@ == command
            && b.commands@.last().evidence_id@ == ev),
        b.components@ == a.components@,
        b.tests@ == a.tests@,
        b.names(ev, d),
        cok(command, d),
    ensures
        cites_added(a, b, pok, cok, tok),
{
    if b.commands@ != a.commands@ {
        let i = a.commands@.len() as int;
        assert(b.commands@[i] == b.commands@.last());
        assert(names_evidence(b.evidence@, b.commands@[i].evidence_id@, d));
    }
}

/// A test target added (when its command line was new) with evidence that says `d`,
/// which its rule allows.
pub proof fn lemma_cites_test(a: RepoGraphBuilder, b: RepoGraphBuilder, command: Seq<char>, ev: Seq<char>, d: EvidenceDesc, pok: CiteRule, cok: CiteRule, tok: CiteRule)
    requires
        b.tests@ == a.tests@ || (b.tests@ == a.tests@.push(b.tests@.last()) && b.tests@.last().command@ == command
            && b.tests@.last().evidence_id@ == ev),
        b.components@ == a.components@,
        b.commands@ == a.commands@,
        b.names(ev, d),
        tok(command, d),
    ensures
        cites_added(a, b, pok, cok, tok),
{
    if b.tests@ != a.tests@ {
        let i = a.tests@.len() as int;
        assert(b.tests@[i] == b.tests@.last());
        assert(names_evidence(b.evidence@, b.tests@[i].evidence_id@, d));
    }
}

/// A detected file with the path and kind.
pub open spec fn has_file(fs: Seq<DetectedFile>, path: Seq<char>, kind: DetectedFileKind) -> bool {
    exists|i: int| 0 <= i < fs.len() && (#[trigger] fs[i]).path@ == path && fs[i].kind == kind
}

/// A package manager with the kind and name.
pub open spec fn has_manager(pms: Seq<PackageManager>, kind: PackageManagerKind, name: Seq<char>) -> bool {
    exists|i: int| 0 <= i < pms.len() && (#[trigger] pms[i]).kind == kind && pms[i].name@ == name
}

/// A component with the identifier.
pub open spec fn has_component(cs: Seq<Component>, id: Seq<char>) -> bool {
    exists|i: int| 0 <= i < cs.len() && (#[trigger] cs[i]).id@ == id
}

/// A workspace with the identifier.
pub open spec fn has_workspace(ws: Seq<Workspace>, id: Seq<char>) -> bool {
    exists|i: int| 0 <= i < ws.len() && (#[trigger] ws[i]).id@ == id
}

/// A command with the command line.
pub open spec fn has_command(cs: Seq<RepoCommand>, command: Seq<char>) -> bool {
    exists|i: int| 0 <= i < cs.len() && (#[trigger] cs[i]).command@ == command
}

/// A test target with the command line.
pub open spec fn has_test(ts: Seq<TestTarget>, command: Seq<char>) -> bool {
    exists|i: int| 0 <= i < ts.len() && (#[trigger] ts[i]).command@ == command
}

/// A warning with the severity, category, message and path.
pub open spec fn has_issue(
    ws: Seq<DetectionIssue>,
    severity: DetectionSeverity,
    category: DetectionCategory,
    message: Seq<char>,
    path: Option<Seq<char>>,
) -> bool {
    exists|i: int|
        0 <= i < ws.len() && (#[trigger] ws[i]).severity == severity && ws[i].category == category && ws[i].message@ == message
            && opt_text(ws[i].path) == path
}

/// The facts of an inspection as the lists of a builder.
pub open spec fn facts_of(g: RepoInspection) -> RepoGraphBuilder {
    RepoGraphBuilder {
        repo_root: g.repo.root,
        next_evidence: 1,
        next_warning: 1,
        detected_files: g.detected_files,
        package_managers: g.package_managers,
        workspaces: g.workspaces,
        components: g.components,
        commands: g.commands,
        tests: g.tests,
        relationships: g.relationships,
        evidence: g.evidence,
        warnings: g.warnings,
    }
}

/// The two builders hold the same facts, in any order.
pub open spec fn same_facts(a: RepoGraphBuilder, b: RepoGraphBuilder) -> bool {
    &&& a.detected_files@.to_multiset() == b.detected_files@.to_multiset()
    &&& a.package_managers@.to_multiset() == b.package_managers@.to_multiset()
    &&& a.workspaces@.to_multiset() == b.workspaces@.to_multiset()
    &&& a.components@.to_multiset() == b.components@.to_multiset()
    &&& a.commands@.to_multiset() == b.commands@.to_multiset()
    &&& a.tests@.to_multiset() == b.tests@.to_multiset()
    &&& a.warnings@.to_multiset() == b.warnings@.to_multiset()
}

proof fn lemma_in_same_elements<T>(a: Seq<T>, b: Seq<T>, i: int) -> (j: int)
    requires
        a.to_multiset() == b.to_multiset(),
        0 <= i < a.len(),
    ensures
        0 <= j < b.len(),
        b[j] == a[i],
{
    a.to_multiset_ensures();
    b.to_multiset_ensures();
    assert(a.contains(a[i]));
    assert(a.to_multiset().count(a[i]) > 0);
    assert(b.contains(a[i]));
    choose|j: int| 0 <= j < b.len() && b[j] == a[i]
}

/// Each kind of fact of one builder is a fact of another with the same facts.
pub proof fn lemma_same_facts_transfer(a: RepoGraphBuilder, b: RepoGraphBuilder)
    requires
        same_facts(a, b),
    ensures
        forall|p: Seq<char>, k: DetectedFileKind| #[trigger] has_file(a.detected_files@, p, k) ==> has_file(b.detected_files@, p, k),
        forall|k: PackageManagerKind, n: Seq<char>| #[trigger] has_manager(a.package_managers@, k, n) ==> has_manager(b.package_managers@, k, n),
        forall|id: Seq<char>| #[trigger] has_workspace(a.workspaces@, id) ==> has_workspace(b.workspaces@, id),
        forall|id: Seq<char>| #[trigger] has_component(a.components@, id) ==> has_component(b.components@, id),
        forall|c: Seq<char>| #[trigger] has_command(a.commands@, c) ==> has_command(b.commands@, c),
        forall|c: Seq<char>| #[trigger] has_test(a.tests@, c) ==> has_test(b.tests@, c),
        forall|sv: DetectionSeverity, c: DetectionCategory, m: Seq<char>, p: Option<Seq<char>>|
            #[trigger] has_issue(a.warnings@, sv, c, m, p) ==> has_issue(b.warnings@, sv, c, m, p),
{
    assert forall|p: Seq<char>, k: DetectedFileKind| #[trigger] has_file(a.detected_files@, p, k) implies has_file(b.detected_files@, p, k) by {
        let i = choose|i: int| 0 <= i < a.detected_files@.len() && (#[trigger] a.detected_files@[i]).path@ == p && a.detected_files@[i].kind == k;
        let j = lemma_in_same_elements(a.detected_files@, b.detected_files@, i);
    }
    assert forall|k: PackageManagerKind, n: Seq<char>| #[trigger] has_manager(a.package_managers@, k, n) implies has_manager(
        b.package_managers@,
        k,
        n,
    ) by {
        let i = choose|i: int| 0 <= i < a.package_managers@.len() && (#[trigger] a.package_managers@[i]).kind == k && a.package_managers@[i].name@ == n;
        let j = lemma_in_same_elements(a.package_managers@, b.package_managers@, i);
    }
    assert forall|id: Seq<char>| #[trigger] has_workspace(a.workspaces@, id) implies has_workspace(b.workspaces@, id) by {
        let i = choose|i: int| 0 <= i < a.workspaces@.len() && (#[trigger] a.workspaces@[i]).id@ == id;
        let j = lemma_in_same_elements(a.workspaces@, b.workspaces@, i);
    }
    assert forall|id: Seq<char>| #[trigger] has_component(a.components@, id) implies has_component(b.components@, id) by {
        let i = choose|i: int| 0 <= i < a.components@.len() && (#[trigger] a.components@[i]).id@ == id;
        let j = lemma_in_same_elements(a.components@, b.components@, i);
    }
    assert forall|c: Seq<char>| #[trigger] has_command(a.commands@, c) implies has_command(b.commands@, c) by {
        let i = choose|i: int| 0 <= i < a.commands@.len() && (#[trigger] a.commands@[i]).command@ == c;
        let j = lemma_in_same_elements(a.commands@, b.commands@, i);
    }
    assert forall|c: Seq<char>| #[trigger] has_test(a.tests@, c) implies has_test(b.tests@, c) by {
        let i = choose|i: int| 0 <= i < a.tests@.len() && (#[trigger] a.tests@[i]).command@ == c;
        let j = lemma_in_same_elements(a.tests@, b.tests@, i);
    }
    assert forall|sv: DetectionSeverity, c: DetectionCategory, m: Seq<char>, p: Option<Seq<char>>|
        #[trigger] has_issue(a.warnings@, sv, c, m, p) implies has_issue(b.warnings@, sv, c, m, p) by {
        let i = choose|i: int|
            0 <= i < a.warnings@.len() && (#[trigger] a.warnings@[i]).severity == sv && a.warnings@[i].category == c
                && a.warnings@[i].message@ == m && opt_text(a.warnings@[i].path) == p;
        let j = lemma_in_same_elements(a.warnings@, b.warnings@, i);
    }
}

/// Evidence identifiers start with `evidence-`, warning identifiers with `warning-`.
pub open spec fn ids_prefixed(ev: Seq<Evidence>, ws: Seq<DetectionIssue>) -> bool {
    &&& forall|i: int| 0 <= i < ev.len() ==> "evidence-"@.is_prefix_of(#[trigger] ev[i].id@)
    &&& forall|i: int| 0 <= i < ws.len() ==> "warning-"@.is_prefix_of(#[trigger] ws[i].id@)
}

impl RepoGraphBuilder {
    /// Every referenced evidence identifier is non-empty and names an evidence item;
    /// the evidence counter is positive.
    pub open spec fn wf(&self) -> bool {
        let known = evidence_id_set(self.evidence@);
        &&& self.next_evidence >= 1
        &&& forall|i: int| 0 <= i < self.detected_files@.len() ==> known_id(known, (#[trigger] self.detected_files@[i]).evidence_id)
        &&& forall|i: int| 0 <= i < self.package_managers@.len() ==> known_id(known, (#[trigger] self.package_managers@[i]).evidence_id)
        &&& forall|i: int| 0 <= i < self.workspaces@.len() ==> known_id(known, (#[trigger] self.workspaces@[i]).evidence_id)
        &&& forall|i: int| 0 <= i < self.components@.len() ==> known_id(known, (#[trigger] self.components@[i]).evidence_id)
        &&& forall|i: int| 0 <= i < self.commands@.len() ==> known_id(known, (#[trigger] self.commands@[i]).evidence_id)
        &&& forall|i: int| 0 <= i < self.tests@.len() ==> known_id(known, (#[trigger] self.tests@[i]).evidence_id)
        &&& forall|i: int| 0 <= i < self.relationships@.len() ==> known_id(known, (#[trigger] self.relationships@[i]).evidence_id)
        &&& forall|i: int| 0 <= i < self.warnings@.len() ==> opt_backed((#[trigger] self.warnings@[i]).evidence_id, known)
        &&& ids_prefixed(self.evidence@, self.warnings@)
    }

    /// The evidence identifier is usable by facts of this builder.
    pub open spec fn knows(&self, id: Seq<char>) -> bool {
        id.len() > 0 && evidence_id_set(self.evidence@).contains(id)
    }

    /// Everything but the evidence list and counter is unchanged, and what was known
    /// stays known.
    pub open spec fn grows_evidence(&self, before: &Self) -> bool {
        &&& self.repo_root == before.repo_root
        &&& self.next_warning == before.next_warning
        &&& self.detected_files@ == before.detected_files@
        &&& self.package_managers@ == before.package_managers@
        &&& self.workspaces@ == before.workspaces@
        &&& self.components@ == before.components@
        &&& self.commands@ == before.commands@
        &&& self.tests@ == before.tests@
        &&& self.relationships@ == before.relationships@
        &&& self.warnings@ == before.warnings@
    }

    /// Every list keeps what it held and may grow at its end; the root is the same.
    pub open spec fn extends(&self, before: &Self) -> bool {
        &&& self.repo_root == before.repo_root
        &&& seq_extends(before.detected_files@, self.detected_files@)
        &&& seq_extends(before.package_managers@, self.package_managers@)
        &&& seq_extends(before.workspaces@, self.workspaces@)
        &&& seq_extends(before.components@, self.components@)
        &&& seq_extends(before.commands@, self.commands@)
        &&& seq_extends(before.tests@, self.tests@)
        &&& seq_extends(before.relationships@, self.relationships@)
        &&& seq_extends(before.evidence@, self.evidence@)
        &&& seq_extends(before.warnings@, self.warnings@)
    }

    /// What was known stays known, and evidence items stay what they said.
    pub open spec fn keeps_known(&self, before: &Self) -> bool {
        &&& forall|t: Seq<char>| #[trigger] before.knows(t) ==> self.knows(t)
        &&& forall|t: Seq<char>, d: EvidenceDesc| #[trigger] names_evidence(before.evidence@, t, d) ==> names_evidence(self.evidence@, t, d)
    }

    /// The evidence identifier names an item that says `d`.
    pub open spec fn names(&self, id: Seq<char>, d: EvidenceDesc) -> bool {
        names_evidence(self.evidence@, id, d)
    }

    pub fn new(repo_root: String) -> (b: Self)
        ensures
            b.wf(),
            b.repo_root == repo_root,
            b.next_evidence == 1,
            b.next_warning == 1,
            b.detected_files@.len() == 0,
            b.package_managers@.len() == 0,
            b.workspaces@.len() == 0,
            b.components@.len() == 0,
            b.commands@.len() == 0,
            b.tests@.len() == 0,
            b.relationships@.len() == 0,
            b.evidence@.len() == 0,
            b.warnings@.len() == 0,
    {
        RepoGraphBuilder {
            repo_root,
            next_evidence: 1,
            next_warning: 1,
            detected_files: Vec::new(),
            package_managers: Vec::new(),
            workspaces: Vec::new(),
            components: Vec::new(),
            commands: Vec::new(),
            tests: Vec::new(),
            relationships: Vec::new(),
            evidence: Vec::new(),
            warnings: Vec::new(),
        }
    }

    pub fn has_detected_files(&self) -> (r: bool)
        ensures
            r == (self.detected_files@.len() > 0),
    {
        self.detected_files.len() > 0
    }

    /// Records an evidence item, numbered in order: `evidence-N`.
    pub fn add_evidence(&mut self, path: &str, kind: &str, field: Option<&str>, reason: &str) -> (id: String)
        requires
            old(self).wf(),
        ensures
            final(self).extends(old(self)),
            final(self).wf(),
            final(self).grows_evidence(old(self)),
            final(self).keeps_known(old(self)),
            final(self).knows(id@),
            id@ == "evidence-"@ + decimal(old(self).next_evidence as nat),
            final(self).evidence@ == old(self).evidence@.push(final(self).evidence@.last()),
            final(self).evidence@.last().id@ == id@,
            final(self).evidence@.last().path@ == slashes(path@),
            final(self).evidence@.last().kind@ == kind@,
            opt_text(final(self).evidence@.last().field) == (match field { Some(f) => Some(f@), None => None }),
            final(self).evidence@.last().reason@ == reason@,
            final(self).names(id@, (slashes(path@), kind@, match field { Some(f) => Some(f@), None => None }, reason@)),
    {
        let number = decimal_text(self.next_evidence);
        let id = concat2("evidence-", number.as_str());
        proof {
            reveal_strlit("evidence-");
        }
        self.next_evidence = self.next_evidence.saturating_add(1);
        let e = Evidence {
            id: id.clone(),
            path: normalize_slashes(path),
            kind: owned(kind),
            field: match field {
                Some(f) => Some(owned(f)),
                None => None,
            },
            reason: owned(reason),
        };
        let ghost before = self.evidence@;
        self.evidence.push(e);
        proof {
            lemma_evidence_set_push(before, e);
            assert(id@.len() > 0);
            assert forall|t: Seq<char>, d: EvidenceDesc| #[trigger] names_evidence(before, t, d) implies names_evidence(self.evidence@, t, d) by {
                let j = choose|j: int| 0 <= j < before.len() && (#[trigger] before[j]).id@ == t && evidence_desc(before[j]) == d;
                assert(self.evidence@[j] == before[j]);
            }
            assert(self.evidence@[before.len() as int] == e);
        }
        id
    }

    /// Records a warning, numbered in order: `warning-N`.
    pub fn add_warning(
        &mut self,
        severity: DetectionSeverity,
        category: DetectionCategory,
        message: &str,
        path: Option<&str>,
        evidence_id: Option<String>,
    )
        requires
            old(self).wf(),
            match evidence_id { Some(e) => old(self).knows(e@), None => true },
        ensures
            final(self).extends(old(self)),
            final(self).wf(),
            final(self).keeps_known(old(self)),
            final(self).warnings@ == old(self).warnings@.push(final(self).warnings@.last()),
            final(self).warnings@.last().id@ == "warning-"@ + decimal(old(self).next_warning as nat),
            final(self).warnings@.last().severity == severity,
            final(self).warnings@.last().category == category,
            final(self).warnings@.last().message@ == message@,
            opt_text(final(self).warnings@.last().path) == (match path { Some(p) => Some(slashes(p@)), None => None }),
            opt_text(final(self).warnings@.last().evidence_id) == opt_text(evidence_id),
            final(self).evidence@ == old(self).evidence@,
            final(self).detected_files@ == old(self).detected_files@,
            final(self).components@ == old(self).components@,
            final(self).workspaces@ == old(self).workspaces@,
            final(self).commands@ == old(self).commands@,
            final(self).tests@ == old(self).tests@,
            final(self).relationships@ == old(self).relationships@,
            final(self).package_managers@ == old(self).package_managers@,
            final(self).repo_root == old(self).repo_root,
            final(self).next_evidence == old(self).next_evidence,
    {
        let number = decimal_text(self.next_warning);
        let id = concat2("warning-", number.as_str());
        self.next_warning = self.next_warning.saturating_add(1);
        let w = DetectionIssue {
            id,
            severity,
            category,
            message: owned(message),
            path: match path {
                Some(p) => Some(normalize_slashes(p)),
                None => None,
            },
            evidence_id,
        };
        self.warnings.push(w);
    }

    /// Records a warning whose evidence, if any, says `desc`.
    pub(crate) fn warn_with(
        &mut self,
        severity: DetectionSeverity,
        category: DetectionCategory,
        message: &str,
        path: Option<&str>,
        evidence_id: Option<String>,
        Ghost(desc): Ghost<Option<EvidenceDesc>>,
    )
        requires
            old(self).wf(),
            match evidence_id {
                Some(e) => old(self).knows(e@) && (desc matches Some(d) && old(self).names(e@, d)),
                None => desc is None,
            },
        ensures
            final(self).extends(old(self)),
            final(self).wf(),
            final(self).keeps_known(old(self)),
            warnings_added(
                old(self).warnings@,
                final(self).warnings@,
                final(self).evidence@,
                seq![((severity, category, message@, match path { Some(p) => Some(slashes(p@)), None => None }), desc)],
            ),
            final(self).warnings@ == old(self).warnings@.push(final(self).warnings@.last()),
            final(self).warnings@.last().severity == severity,
            final(self).warnings@.last().category == category,
            final(self).warnings@.last().message@ == message@,
            opt_text(final(self).warnings@.last().path) == (match path { Some(p) => Some(slashes(p@)), None => None }),
            final(self).evidence@ == old(self).evidence@,
            final(self).detected_files@ == old(self).detected_files@,
            final(self).components@ == old(self).components@,
            final(self).workspaces@ == old(self).workspaces@,
            final(self).commands@ == old(self).commands@,
            final(self).tests@ == old(self).tests@,
            final(self).relationships@ == old(self).relationships@,
            final(self).package_managers@ == old(self).package_managers@,
            final(self).repo_root == old(self).repo_root,
            final(self).next_evidence == old(self).next_evidence,
    {
        let ghost w0 = self.warnings@;
        self.add_warning(severity, category, message, path, evidence_id);
        proof {
            let x = ((severity, category, message@, match path { Some(p) => Some(slashes(p@)), None => None }), desc);
            lemma_warnings_none(w0, self.evidence@);
            assert(warning_as(self.warnings@.last(), self.evidence@, x));
            lemma_warnings_push(w0, w0, self.evidence@, seq![], self.warnings@, self.evidence@, x);
            assert(seq![].push(x) =~= seq![x]);
        }
    }

    /// Records a relationship unless one with the same identifier is there.
    pub fn add_relationship(&mut self, kind: RelationshipKind, src: &str, dst: &str, evidence_id: String)
        requires
            old(self).wf(),
            old(self).knows(evidence_id@),
        ensures
            final(self).extends(old(self)),
            final(self).wf(),
            final(self).keeps_known(old(self)),
            relationship_added(old(self).relationships@, final(self).relationships@, kind, src@, dst@, evidence_id@),
            final(self).evidence@ == old(self).evidence@,
            final(self).detected_files@ == old(self).detected_files@,
            final(self).components@ == old(self).components@,
            final(self).workspaces@ == old(self).workspaces@,
            final(self).commands@ == old(self).commands@,
            final(self).tests@ == old(self).tests@,
            final(self).warnings@ == old(self).warnings@,
            final(self).package_managers@ == old(self).package_managers@,
            final(self).repo_root == old(self).repo_root,
            final(self).next_evidence == old(self).next_evidence,
            final(self).next_warning == old(self).next_warning,
    {
        let id = stable_relationship_id(kind, src, dst);
        if relationship_id_taken(&self.relationships, id.as_str()) {
            return;
        }
        let r = Relationship { id, kind, src_id: owned(src), dst_id: owned(dst), evidence_id };
        self.relationships.push(r);
    }

    /// Records a detected file with its evidence and returns the evidence identifier.
    pub fn add_detected_file(&mut self, path: &str, kind: DetectedFileKind, evidence_kind: &str, field: Option<&str>, reason: &str) -> (id: String)
        requires
            old(self).wf(),
        ensures
            final(self).extends(old(self)),
            final(self).wf(),
            final(self).keeps_known(old(self)),
            final(self).knows(id@),
            final(self).detected_files@ == old(self).detected_files@.push(final(self).detected_files@.last()),
            final(self).detected_files@.last().id@ == stable_id_spec("file"@, slashes(path@)),
            final(self).detected_files@.last().path@ == slashes(path@),
            final(self).detected_files@.last().kind == kind,
            final(self).detected_files@.last().evidence_id@ == id@,
            final(self).names(id@, (slashes(path@), evidence_kind@, match field { Some(f) => Some(f@), None => None }, reason@)),
            final(self).components@ == old(self).components@,
            final(self).workspaces@ == old(self).workspaces@,
            final(self).commands@ == old(self).commands@,
            final(self).tests@ == old(self).tests@,
            final(self).warnings@ == old(self).warnings@,
            final(self).package_managers@ == old(self).package_managers@,
            final(self).repo_root == old(self).repo_root,
            final(self).next_warning == old(self).next_warning,
    {
        let evidence_id = self.add_evidence(path, evidence_kind, field, reason);
        let normalized = normalize_slashes(path);
        let file_id = stable_id("file", normalized.as_str());
        self.detected_files.push(DetectedFile {
            id: file_id.clone(),
            path: normalized,
            kind,
            evidence_id: evidence_id.clone(),
        });
        self.add_relationship(RelationshipKind::EvidenceFor, evidence_id.as_str(), file_id.as_str(), evidence_id.clone());
        evidence_id
    }

    /// Records a package manager unless one of the same kind and name is there.
    pub fn add_package_manager(&mut self, kind: PackageManagerKind, name: &str, evidence_id: String)
        requires
            old(self).wf(),
            old(self).knows(evidence_id@),
        ensures
            final(self).extends(old(self)),
            final(self).wf(),
            final(self).keeps_known(old(self)),
            (exists|i: int| 0 <= i < old(self).package_managers@.len() && (#[trigger] old(self).package_managers@[i]).kind == kind
                && old(self).package_managers@[i].name@ == name@) ==> final(self).package_managers@ == old(self).package_managers@,
            !(exists|i: int| 0 <= i < old(self).package_managers@.len() && (#[trigger] old(self).package_managers@[i]).kind == kind
                && old(self).package_managers@[i].name@ == name@) ==> {
                &&& final(self).package_managers@ == old(self).package_managers@.push(final(self).package_managers@.last())
                &&& final(self).package_managers@.last().id@ == stable_id_spec("package-manager"@, name@)
                &&& final(self).package_managers@.last().kind == kind
                &&& final(self).package_managers@.last().name@ == name@
                &&& final(self).package_managers@.last().evidence_id@ == evidence_id@
            },
            final(self).evidence@ == old(self).evidence@,
            final(self).detected_files@ == old(self).detected_files@,
            final(self).components@ == old(self).components@,
            final(self).workspaces@ == old(self).workspaces@,
            final(self).commands@ == old(self).commands@,
            final(self).tests@ == old(self).tests@,
            final(self).warnings@ == old(self).warnings@,
            final(self).repo_root == old(self).repo_root,
            final(self).next_evidence == old(self).next_evidence,
            final(self).next_warning == old(self).next_warning,
    {
        let id = stable_id("package-manager", name);
        if package_manager_present(&self.package_managers, kind, name) {
            return;
        }
        self.package_managers.push(PackageManager { id: id.clone(), kind, name: owned(name), evidence_id: evidence_id.clone() });
        self.add_relationship(RelationshipKind::EvidenceFor, evidence_id.as_str(), id.as_str(), evidence_id.clone());
    }

    /// Records a workspace.
    pub fn add_workspace(&mut self, id: &str, name: &str, members: Vec<String>, evidence_id: String)
        requires
            old(self).wf(),
            old(self).knows(evidence_id@),
        ensures
            final(self).extends(old(self)),
            final(self).wf(),
            final(self).keeps_known(old(self)),
            final(self).workspaces@ == old(self).workspaces@.push(final(self).workspaces@.last()),
            final(self).workspaces@.last().id@ == id@,
            final(self).workspaces@.last().name@ == name@,
            final(self).workspaces@.last().members@ == members@,
            final(self).workspaces@.last().evidence_id@ == evidence_id@,
            final(self).evidence@ == old(self).evidence@,
            final(self).detected_files@ == old(self).detected_files@,
            final(self).components@ == old(self).components@,
            final(self).commands@ == old(self).commands@,
            final(self).tests@ == old(self).tests@,
            final(self).warnings@ == old(self).warnings@,
            final(self).package_managers@ == old(self).package_managers@,
            final(self).repo_root == old(self).repo_root,
            final(self).next_evidence == old(self).next_evidence,
            final(self).next_warning == old(self).next_warning,
    {
        self.workspaces.push(Workspace { id: owned(id), name: owned(name), members, evidence_id: evidence_id.clone() });
        self.add_relationship(RelationshipKind::EvidenceFor, evidence_id.as_str(), id, evidence_id.clone());
    }

    /// Records a component unless one with the same identifier is there.
    pub fn add_component(&mut self, id: &str, name: &str, kind: &str, path: &str, file_patterns: Vec<String>, evidence_id: String)
        requires
            old(self).wf(),
            old(self).knows(evidence_id@),
        ensures
            final(self).extends(old(self)),
            final(self).wf(),
            final(self).keeps_known(old(self)),
            (exists|i: int| 0 <= i < old(self).components@.len() && (#[trigger] old(self).components@[i]).id@ == id@) ==> final(self).components@
                == old(self).components@,
            !(exists|i: int| 0 <= i < old(self).components@.len() && (#[trigger] old(self).components@[i]).id@ == id@) ==> {
                &&& final(self).components@ == old(self).components@.push(final(self).components@.last())
                &&& final(self).components@.last().id@ == id@
                &&& final(self).components@.last().name@ == name@
                &&& final(self).components@.last().kind@ == kind@
                &&& final(self).components@.last().path@ == path@
                &&& final(self).components@.last().file_patterns@ == file_patterns@
                &&& final(self).components@.last().evidence_id@ == evidence_id@
            },
            component_views(final(self).components@) == with_component(
                component_views(old(self).components@),
                (id@, name@, kind@, path@, views(file_patterns@)),
            ),
            final(self).evidence@ == old(self).evidence@,
            final(self).detected_files@ == old(self).detected_files@,
            final(self).workspaces@ == old(self).workspaces@,
            final(self).commands@ == old(self).commands@,
            final(self).tests@ == old(self).tests@,
            final(self).warnings@ == old(self).warnings@,
            final(self).package_managers@ == old(self).package_managers@,
            final(self).repo_root == old(self).repo_root,
            final(self).next_evidence == old(self).next_evidence,
            final(self).next_warning == old(self).next_warning,
    {
        let ghost before = self.components@;
        if component_id_taken(&self.components, id) {
            proof {
                let i = choose|i: int| 0 <= i < before.len() && (#[trigger] before[i]).id@ == id@;
                assert(component_views(before)[i].0 == id@);
            }
            return;
        }
        proof {
            assert forall|i: int| 0 <= i < before.len() implies (#[trigger] component_views(before)[i]).0 != id@ by {
                assert(component_views(before)[i] == component_view(before[i]));
            }
        }
        self.components.push(Component {
            id: owned(id),
            name: owned(name),
            kind: owned(kind),
            path: owned(path),
            file_patterns,
            evidence_id: evidence_id.clone(),
        });
        proof {
            assert(component_views(self.components@) =~= component_views(before).push(
                (id@, name@, kind@, path@, views(file_patterns@)),
            ));
        }
        self.add_relationship(RelationshipKind::DefinesComponent, "repo", id, evidence_id.clone());
        self.add_relationship(RelationshipKind::EvidenceFor, evidence_id.as_str(), id, evidence_id.clone());
    }

    /// Records a command unless one with the same command line is there; its scope is
    /// the repository root. `confidence` is in hundredths.
    pub fn add_command(&mut self, id: &str, kind: RepoCommandKind, command: &str, scope_ref: Option<&str>, confidence: u32, evidence_id: String)
        requires
            old(self).wf(),
            old(self).knows(evidence_id@),
        ensures
            final(self).extends(old(self)),
            final(self).wf(),
            final(self).keeps_known(old(self)),
            (exists|i: int| 0 <= i < old(self).commands@.len() && (#[trigger] old(self).commands@[i]).command@ == command@) ==> final(self).commands@
                == old(self).commands@,
            !(exists|i: int| 0 <= i < old(self).commands@.len() && (#[trigger] old(self).commands@[i]).command@ == command@) ==> {
                &&& final(self).commands@ == old(self).commands@.push(final(self).commands@.last())
                &&& final(self).commands@.last().id@ == id@
                &&& final(self).commands@.last().kind == kind
                &&& final(self).commands@.last().command@ == command@
                &&& final(self).commands@.last().scope@ == "."@
                &&& opt_text(final(self).commands@.last().scope_ref) == (match scope_ref { Some(s) => Some(s@), None => None })
                &&& final(self).commands@.last().confidence == confidence
                &&& final(self).commands@.last().evidence_id@ == evidence_id@
            },
            command_views(final(self).commands@) == with_command(
                command_views(old(self).commands@),
                (id@, kind, command@, "."@, match scope_ref { Some(s) => Some(s@), None => None }, confidence),
            ),
            final(self).evidence@ == old(self).evidence@,
            final(self).detected_files@ == old(self).detected_files@,
            final(self).workspaces@ == old(self).workspaces@,
            final(self).components@ == old(self).components@,
            final(self).tests@ == old(self).tests@,
            final(self).warnings@ == old(self).warnings@,
            final(self).package_managers@ == old(self).package_managers@,
            final(self).repo_root == old(self).repo_root,
            final(self).next_evidence == old(self).next_evidence,
            final(self).next_warning == old(self).next_warning,
    {
        let ghost before = self.commands@;
        if command_taken(&self.commands, command) {
            proof {
                let i = choose|i: int| 0 <= i < before.len() && (#[trigger] before[i]).command@ == command@;
                assert(command_views(before)[i].2 == command@);
            }
            return;
        }
        proof {
            assert forall|i: int| 0 <= i < before.len() implies (#[trigger] command_views(before)[i]).2 != command@ by {
                assert(command_views(before)[i] == command_view(before[i]));
            }
        }
        self.commands.push(RepoCommand {
            id: owned(id),
            kind,
            command: owned(command),
            scope: owned("."),
            scope_ref: match scope_ref {
                Some(s) => Some(owned(s)),
                None => None,
            },
            confidence,
            evidence_id: evidence_id.clone(),
        });
        proof {
            assert(command_views(self.commands@) =~= command_views(before).push(
                (id@, kind, command@, "."@, match scope_ref { Some(s) => Some(s@), None => None }, confidence),
            ));
        }
        match scope_ref {
            Some(s) => self.add_relationship(RelationshipKind::HasCommand, s, id, evidence_id.clone()),
            None => {},
        }
        self.add_relationship(RelationshipKind::EvidenceFor, evidence_id.as_str(), id, evidence_id.clone());
    }

    /// Records a test target unless one with the same command line is there; its
    /// scope is the repository root. `confidence` is in hundredths.
    pub fn add_test(&mut self, id: &str, name: &str, command: &str, scope_ref: Option<&str>, confidence: u32, evidence_id: String)
        requires
            old(self).wf(),
            old(self).knows(evidence_id@),
        ensures
            final(self).extends(old(self)),
            final(self).wf(),
            final(self).keeps_known(old(self)),
            (exists|i: int| 0 <= i < old(self).tests@.len() && (#[trigger] old(self).tests@[i]).command@ == command@) ==> final(self).tests@
                == old(self).tests@,
            !(exists|i: int| 0 <= i < old(self).tests@.len() && (#[trigger] old(self).tests@[i]).command@ == command@) ==> {
                &&& final(self).tests@ == old(self).tests@.push(final(self).tests@.last())
                &&& final(self).tests@.last().id@ == id@
                &&& final(self).tests@.last().name@ == name@
                &&& final(self).tests@.last().command@ == command@
                &&& final(self).tests@.last().scope@ == "."@
                &&& opt_text(final(self).tests@.last().scope_ref) == (match scope_ref { Some(s) => Some(s@), None => None })
                &&& final(self).tests@.last().confidence == confidence
                &&& final(self).tests@.last().evidence_id@ == evidence_id@
            },
            test_views(final(self).tests@) == with_test(
                test_views(old(self).tests@),
                (id@, name@, command@, "."@, match scope_ref { Some(s) => Some(s@), None => None }, confidence),
            ),
            final(self).evidence@ == old(self).evidence@,
            final(self).detected_files@ == old(self).detected_files@,
            final(self).workspaces@ == old(self).workspaces@,
            final(self).components@ == old(self).components@,
            final(self).commands@ == old(self).commands@,
            final(self).warnings@ == old(self).warnings@,
            final(self).package_managers@ == old(self).package_managers@,
            final(self).repo_root == old(self).repo_root,
            final(self).next_evidence == old(self).next_evidence,
            final(self).next_warning == old(self).next_warning,
    {
        let ghost before = self.tests@;
        if test_command_taken(&self.tests, command) {
            proof {
                let i = choose|i: int| 0 <= i < before.len() && (#[trigger] before[i]).command@ == command@;
                assert(test_views(before)[i].2 == command@);
            }
            return;
        }
        proof {
            assert forall|i: int| 0 <= i < before.len() implies (#[trigger] test_views(before)[i]).2 != command@ by {
                assert(test_views(before)[i] == test_view(before[i]));
            }
        }
        self.tests.push(TestTarget {
            id: owned(id),
            name: owned(name),
            command: owned(command),
            scope: owned("."),
            scope_ref: match scope_ref {
                Some(s) => Some(owned(s)),
                None => None,
            },
            confidence,
            evidence_id: evidence_id.clone(),
        });
        proof {
            assert(test_views(self.tests@) =~= test_views(before).push(
                (id@, name@, command@, "."@, match scope_ref { Some(s) => Some(s@), None => None }, confidence),
            ));
        }
        match scope_ref {
            Some(s) => {
                self.add_relationship(RelationshipKind::HasTest, s, id, evidence_id.clone());
                self.add_relationship(RelationshipKind::Tests, id, s, evidence_id.clone());
            },
            None => {},
        }
        self.add_relationship(RelationshipKind::EvidenceFor, evidence_id.as_str(), id, evidence_id.clone());
    }
}

impl Ordered for DetectedFile {
    open spec fn le(self, other: Self) -> bool {
        seq_le(self.id@, other.id@)
    }

    proof fn lemma_le_transitive(a: Self, b: Self, c: Self) {
        if seq_lt(a.id@, b.id@) && seq_lt(b.id@, c.id@) {
            lemma_seq_lt_transitive(a.id@, b.id@, c.id@);
        }
    }

    proof fn lemma_le_total(a: Self, b: Self) {
        lemma_seq_lt_total(a.id@, b.id@);
    }

    fn le_exec(&self, other: &Self) -> (r: bool) {
        text_less(self.id.as_str(), other.id.as_str()) || text_eq(self.id.as_str(), other.id.as_str())
    }
}

impl Ordered for PackageManager {
    open spec fn le(self, other: Self) -> bool {
        seq_le(self.id@, other.id@)
    }

    proof fn lemma_le_transitive(a: Self, b: Self, c: Self) {
        if seq_lt(a.id@, b.id@) && seq_lt(b.id@, c.id@) {
            lemma_seq_lt_transitive(a.id@, b.id@, c.id@);
        }
    }

    proof fn lemma_le_total(a: Self, b: Self) {
        lemma_seq_lt_total(a.id@, b.id@);
    }

    fn le_exec(&self, other: &Self) -> (r: bool) {
        text_less(self.id.as_str(), other.id.as_str()) || text_eq(self.id.as_str(), other.id.as_str())
    }
}

impl Ordered for Workspace {
    open spec fn le(self, other: Self) -> bool {
        seq_le(self.id@, other.id@)
    }

    proof fn lemma_le_transitive(a: Self, b: Self, c: Self) {
        if seq_lt(a.id@, b.id@) && seq_lt(b.id@, c.id@) {
            lemma_seq_lt_transitive(a.id@, b.id@, c.id@);
        }
    }

    proof fn lemma_le_total(a: Self, b: Self) {
        lemma_seq_lt_total(a.id@, b.id@);
    }

    fn le_exec(&self, other: &Self) -> (r: bool) {
        text_less(self.id.as_str(), other.id.as_str()) || text_eq(self.id.as_str(), other.id.as_str())
    }
}

impl Ordered for Component {
    open spec fn le(self, other: Self) -> bool {
        seq_le(self.id@, other.id@)
    }

    proof fn lemma_le_transitive(a: Self, b: Self, c: Self) {
        if seq_lt(a.id@, b.id@) && seq_lt(b.id@, c.id@) {
            lemma_seq_lt_transitive(a.id@, b.id@, c.id@);
        }
    }

    proof fn lemma_le_total(a: Self, b: Self) {
        lemma_seq_lt_total(a.id@, b.id@);
    }

    fn le_exec(&self, other: &Self) -> (r: bool) {
        text_less(self.id.as_str(), other.id.as_str()) || text_eq(self.id.as_str(), other.id.as_str())
    }
}

impl Ordered for RepoCommand {
    open spec fn le(self, other: Self) -> bool {
        seq_le(self.id@, other.id@)
    }

    proof fn lemma_le_transitive(a: Self, b: Self, c: Self) {
        if seq_lt(a.id@, b.id@) && seq_lt(b.id@, c.id@) {
            lemma_seq_lt_transitive(a.id@, b.id@, c.id@);
        }
    }

    proof fn lemma_le_total(a: Self, b: Self) {
        lemma_seq_lt_total(a.id@, b.id@);
    }

    fn le_exec(&self, other: &Self) -> (r: bool) {
        text_less(self.id.as_str(), other.id.as_str()) || text_eq(self.id.as_str(), other.id.as_str())
    }
}

impl Ordered for TestTarget {
    open spec fn le(self, other: Self) -> bool {
        seq_le(self.id@, other.id@)
    }

    proof fn lemma_le_transitive(a: Self, b: Self, c: Self) {
        if seq_lt(a.id@, b.id@) && seq_lt(b.id@, c.id@) {
            lemma_seq_lt_transitive(a.id@, b.id@, c.id@);
        }
    }

    proof fn lemma_le_total(a: Self, b: Self) {
        lemma_seq_lt_total(a.id@, b.id@);
    }

    fn le_exec(&self, other: &Self) -> (r: bool) {
        text_less(self.id.as_str(), other.id.as_str()) || text_eq(self.id.as_str(), other.id.as_str())
    }
}

impl Ordered for Relationship {
    open spec fn le(self, other: Self) -> bool {
        seq_le(self.id@, other.id@)
    }

    proof fn lemma_le_transitive(a: Self, b: Self, c: Self) {
        if seq_lt(a.id@, b.id@) && seq_lt(b.id@, c.id@) {
            lemma_seq_lt_transitive(a.id@, b.id@, c.id@);
        }
    }

    proof fn lemma_le_total(a: Self, b: Self) {
        lemma_seq_lt_total(a.id@, b.id@);
    }

    fn le_exec(&self, other: &Self) -> (r: bool) {
        text_less(self.id.as_str(), other.id.as_str()) || text_eq(self.id.as_str(), other.id.as_str())
    }
}

impl RepoGraphBuilder {
    /// The inspection: every list but the evidence ordered by identifier.
    pub fn finish(self) -> (g: RepoInspection)
        ensures
            g.contract_version@ == INSPECT_CONTRACT_VERSION@,
            g.repo == (RepoInfo { root: self.repo_root, read_only: true }),
            sorted(g.detected_files@),
            g.detected_files@.to_multiset() == self.detected_files@.to_multiset(),
            sorted(g.package_managers@),
            g.package_managers@.to_multiset() == self.package_managers@.to_multiset(),
            sorted(g.workspaces@),
            g.workspaces@.to_multiset() == self.workspaces@.to_multiset(),
            sorted(g.components@),
            g.components@.to_multiset() == self.components@.to_multiset(),
            sorted(g.commands@),
            g.commands@.to_multiset() == self.commands@.to_multiset(),
            sorted(g.tests@),
            g.tests@.to_multiset() == self.tests@.to_multiset(),
            sorted(g.relationships@),
            g.relationships@.to_multiset() == self.relationships@.to_multiset(),
            g.evidence@ == self.evidence@,
            sorted(g.warnings@),
            g.warnings@.to_multiset() == self.warnings@.to_multiset(),
            self.wf() ==> inspection_evidence_ok(g),
    {
        let ghost b = self;
        let RepoGraphBuilder {
            repo_root,
            next_evidence,
            next_warning,
            detected_files,
            package_managers,
            workspaces,
            components,
            commands,
            tests,
            relationships,
            evidence,
            warnings,
        } = self;
        let g = RepoInspection {
            contract_version: owned(INSPECT_CONTRACT_VERSION),
            repo: RepoInfo { root: repo_root, read_only: true },
            detected_files: sort_items(detected_files),
            package_managers: sort_items(package_managers),
            workspaces: sort_items(workspaces),
            components: sort_items(components),
            commands: sort_items(commands),
            tests: sort_items(tests),
            relationships: sort_items(relationships),
            evidence,
            warnings: sort_items(warnings),
        };
        proof {
            if b.wf() {
                let known = evidence_id_set(b.evidence@);
                lemma_same_elements(g.detected_files@, b.detected_files@);
                lemma_same_elements(g.package_managers@, b.package_managers@);
                lemma_same_elements(g.workspaces@, b.workspaces@);
                lemma_same_elements(g.components@, b.components@);
                lemma_same_elements(g.commands@, b.commands@);
                lemma_same_elements(g.tests@, b.tests@);
                lemma_same_elements(g.relationships@, b.relationships@);
                lemma_same_elements(g.warnings@, b.warnings@);
                assert forall|i: int| 0 <= i < g.detected_files@.len() implies known_id(known, (#[trigger] g.detected_files@[i]).evidence_id) by {
                    assert(g.detected_files@.contains(g.detected_files@[i]));
                    let j = choose|j: int| 0 <= j < b.detected_files@.len() && b.detected_files@[j] == g.detected_files@[i];
                    assert(known_id(known, b.detected_files@[j].evidence_id));
                }
                assert forall|i: int| 0 <= i < g.package_managers@.len() implies known_id(known, (#[trigger] g.package_managers@[i]).evidence_id) by {
                    assert(g.package_managers@.contains(g.package_managers@[i]));
                    let j = choose|j: int| 0 <= j < b.package_managers@.len() && b.package_managers@[j] == g.package_managers@[i];
                    assert(known_id(known, b.package_managers@[j].evidence_id));
                }
                assert forall|i: int| 0 <= i < g.workspaces@.len() implies known_id(known, (#[trigger] g.workspaces@[i]).evidence_id) by {
                    assert(g.workspaces@.contains(g.workspaces@[i]));
                    let j = choose|j: int| 0 <= j < b.workspaces@.len() && b.workspaces@[j] == g.workspaces@[i];
                    assert(known_id(known, b.workspaces@[j].evidence_id));
                }
                assert forall|i: int| 0 <= i < g.components@.len() implies known_id(known, (#[trigger] g.components@[i]).evidence_id) by {
                    assert(g.components@.contains(g.components@[i]));
                    let j = choose|j: int| 0 <= j < b.components@.len() && b.components@[j] == g.components@[i];
                    assert(known_id(known, b.components@[j].evidence_id));
                }
                assert forall|i: int| 0 <= i < g.commands@.len() implies known_id(known, (#[trigger] g.commands@[i]).evidence_id) by {
                    assert(g.commands@.contains(g.commands@[i]));
                    let j = choose|j: int| 0 <= j < b.commands@.len() && b.commands@[j] == g.commands@[i];
                    assert(known_id(known, b.commands@[j].evidence_id));
                }
                assert forall|i: int| 0 <= i < g.tests@.len() implies known_id(known, (#[trigger] g.tests@[i]).evidence_id) by {
                    assert(g.tests@.contains(g.tests@[i]));
                    let j = choose|j: int| 0 <= j < b.tests@.len() && b.tests@[j] == g.tests@[i];
                    assert(known_id(known, b.tests@[j].evidence_id));
                }
                assert forall|i: int| 0 <= i < g.relationships@.len() implies known_id(known, (#[trigger] g.relationships@[i]).evidence_id) by {
                    assert(g.relationships@.contains(g.relationships@[i]));
                    let j = choose|j: int| 0 <= j < b.relationships@.len() && b.relationships@[j] == g.relationships@[i];
                    assert(known_id(known, b.relationships@[j].evidence_id));
                }
                assert forall|i: int| 0 <= i < g.warnings@.len() implies opt_backed((#[trigger] g.warnings@[i]).evidence_id, known) by {
                    assert(g.warnings@.contains(g.warnings@[i]));
                    let j = choose|j: int| 0 <= j < b.warnings@.len() && b.warnings@[j] == g.warnings@[i];
                    assert(opt_backed(b.warnings@[j].evidence_id, known));
                }
            }
        }
        g
    }
}

} // verus!
