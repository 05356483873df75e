use vstd::prelude::*;

use super::impact_roots::single_ids;
use super::paths::{is_test_path, is_test_path_spec};
use super::types::{
    opt_text, ImpactConfidence, ImpactedComponent, RecommendedCommand, RecommendedTest,
    RepoCommand, RepoCommandKind, RepoInspection, TestTarget, copy_opt_string,
};
use crate::order::{key_le, key_le_exec, lemma_key_le_total, lemma_key_le_transitive, lemma_map_multiset, sort_items, sorted, Ordered};
use crate::text::{owned, text_eq};
use crate::textset::{single_id_set, views};

verus! {

// ---------------------------------------------------------------------------
// Scopes
// ---------------------------------------------------------------------------

/// Some impacted component has identifier `s`.
pub open spec fn has_component(comps: Seq<ImpactedComponent>, s: Seq<char>) -> bool {
    exists|i: int| 0 <= i < comps.len() && (#[trigger] comps[i]).component_id@ == s
}

/// A command or test with this scope applies to the impacted components: a
/// repository-wide scope applies when anything is impacted, a component scope when
/// that component is.
pub open spec fn scope_applies(scope_ref: Option<String>, comps: Seq<ImpactedComponent>) -> bool {
    match scope_ref {
        Some(s) => if s@ == "repo"@ {
            comps.len() > 0
        } else {
            has_component(comps, s@)
        },
        None => comps.len() > 0,
    }
}

/// The scope names one of the impacted components.
pub open spec fn scope_matches(scope_ref: Option<String>, comps: Seq<ImpactedComponent>) -> bool {
    match scope_ref {
        Some(s) => s@ != "repo"@ && has_component(comps, s@),
        None => false,
    }
}

/// One of the changed files is a test path.
pub open spec fn any_test_path(files: Seq<String>) -> bool {
    exists|i: int| 0 <= i < files.len() && is_test_path_spec(#[trigger] files[i]@)
}

/// Confidence of a recommendation: high when scoped to an impacted component, low
/// when nothing is impacted.
pub open spec fn recommendation_confidence(scoped: bool, comps: Seq<ImpactedComponent>) -> ImpactConfidence {
    if scoped {
        ImpactConfidence::High
    } else if comps.len() == 0 {
        ImpactConfidence::Low
    } else {
        ImpactConfidence::Medium
    }
}

pub fn has_component_exec(comps: &Vec<ImpactedComponent>, s: &str) -> (r: bool)
    ensures
        r == has_component(comps@, s@),
{
    let mut i: usize = 0;
    while i < comps.len()
        invariant
            i <= comps@.len(),
            forall|j: int| 0 <= j < i ==> (#[trigger] comps@[j]).component_id@ != s@,
        decreases comps@.len() - i,
    {
        if text_eq(comps[i].component_id.as_str(), s) {
            return true;
        }
        i = i + 1;
    }
    false
}

pub fn scope_applies_exec(scope_ref: &Option<String>, comps: &Vec<ImpactedComponent>) -> (r: bool)
    ensures
        r == scope_applies(*scope_ref, comps@),
{
    match scope_ref {
        Some(s) => if text_eq(s.as_str(), "repo") {
            comps.len() > 0
        } else {
            has_component_exec(comps, s.as_str())
        },
        None => comps.len() > 0,
    }
}

pub fn scope_matches_exec(scope_ref: &Option<String>, comps: &Vec<ImpactedComponent>) -> (r: bool)
    ensures
        r == scope_matches(*scope_ref, comps@),
{
    match scope_ref {
        Some(s) => !text_eq(s.as_str(), "repo") && has_component_exec(comps, s.as_str()),
        None => false,
    }
}

pub fn any_test_path_exec(files: &Vec<String>) -> (r: bool)
    ensures
        r == any_test_path(files@),
{
    let mut i: usize = 0;
    while i < files.len()
        invariant
            i <= files@.len(),
            forall|j: int| 0 <= j < i ==> !is_test_path_spec(#[trigger] files@[j]@),
        decreases files@.len() - i,
    {
        if is_test_path(files[i].as_str()) {
            return true;
        }
        i = i + 1;
    }
    false
}

fn recommendation_confidence_exec(scoped: bool, comps: &Vec<ImpactedComponent>) -> (r: ImpactConfidence)
    ensures
        r == recommendation_confidence(scoped, comps@),
{
    if scoped {
        ImpactConfidence::High
    } else if comps.len() == 0 {
        ImpactConfidence::Low
    } else {
        ImpactConfidence::Medium
    }
}

// ---------------------------------------------------------------------------
// Tests
// ---------------------------------------------------------------------------

/// What a recommended test says, as plain values.
pub open spec fn test_view(t: RecommendedTest) -> (Seq<char>, Seq<char>, Option<Seq<char>>, u32, Seq<char>, ImpactConfidence, Seq<Seq<char>>) {
    (t.test_id@, t.command@, opt_text(t.scope_ref), t.rank, t.reason@, t.confidence, views(t.evidence_ids@))
}

pub open spec fn test_views(s: Seq<RecommendedTest>) -> Seq<(Seq<char>, Seq<char>, Option<Seq<char>>, u32, Seq<char>, ImpactConfidence, Seq<Seq<char>>)> {
    s.map_values(|t: RecommendedTest| test_view(t))
}

/// Rank of a test: scoped tests and tests after a broad change first, then
/// repository-wide tests, then tests scoped to other components.
pub open spec fn test_rank_spec(t: TestTarget, broad: bool, scoped: bool) -> u32 {
    if broad || scoped {
        10
    } else {
        match t.scope_ref {
            Some(s) => if s@ == "repo"@ {
                20
            } else {
                30
            },
            None => 20,
        }
    }
}

pub open spec fn test_reason_spec(broad: bool, scoped: bool, test_file_changed: bool) -> Seq<char> {
    if broad {
        "broad_change_requires_test_command"@
    } else if scoped {
        "test_scope_matches_impacted_component"@
    } else if test_file_changed {
        "changed_file_is_test_path"@
    } else {
        "generic_test_command_for_impacted_component"@
    }
}

/// A test is recommended after a broad change, when its scope applies, or when a
/// changed file is a test path.
pub open spec fn test_selected(t: TestTarget, files: Seq<String>, comps: Seq<ImpactedComponent>, broad: bool) -> bool {
    broad || scope_applies(t.scope_ref, comps) || any_test_path(files)
}

/// The recommendation made of a selected test.
pub open spec fn expected_test(t: TestTarget, files: Seq<String>, comps: Seq<ImpactedComponent>, broad: bool) -> (Seq<char>, Seq<char>, Option<Seq<char>>, u32, Seq<char>, ImpactConfidence, Seq<Seq<char>>) {
    let scoped = scope_matches(t.scope_ref, comps);
    (
        t.id@,
        t.command@,
        opt_text(t.scope_ref),
        test_rank_spec(t, broad, scoped),
        test_reason_spec(broad, scoped, any_test_path(files)),
        recommendation_confidence(scoped, comps),
        single_ids(t.evidence_id@),
    )
}

/// The recommendations for the selected tests, in the order of the tests.
pub open spec fn expected_tests(tests: Seq<TestTarget>, files: Seq<String>, comps: Seq<ImpactedComponent>, broad: bool) -> Seq<(Seq<char>, Seq<char>, Option<Seq<char>>, u32, Seq<char>, ImpactConfidence, Seq<Seq<char>>)>
    decreases tests.len(),
{
    if tests.len() == 0 {
        seq![]
    } else {
        let prev = expected_tests(tests.drop_last(), files, comps, broad);
        if test_selected(tests.last(), files, comps, broad) {
            prev.push(expected_test(tests.last(), files, comps, broad))
        } else {
            prev
        }
    }
}

impl Ordered for RecommendedTest {
    open spec fn le(self, other: Self) -> bool {
        key_le(self.rank, self.test_id@, self.command@, other.rank, other.test_id@, other.command@)
    }

    proof fn lemma_le_transitive(a: Self, b: Self, c: Self) {
        lemma_key_le_transitive(a.rank, a.test_id@, a.command@, b.rank, b.test_id@, b.command@, c.rank, c.test_id@, c.command@);
    }

    proof fn lemma_le_total(a: Self, b: Self) {
        lemma_key_le_total(a.rank, a.test_id@, a.command@, b.rank, b.test_id@, b.command@);
    }

    fn le_exec(&self, other: &Self) -> (r: bool) {
        key_le_exec(self.rank, self.test_id.as_str(), self.command.as_str(), other.rank, other.test_id.as_str(), other.command.as_str())
    }
}

fn test_rank(t: &TestTarget, broad: bool, scoped: bool) -> (r: u32)
    ensures
        r == test_rank_spec(*t, broad, scoped),
{
    if broad || scoped {
        return 10;
    }
    match &t.scope_ref {
        Some(s) => if text_eq(s.as_str(), "repo") {
            20
        } else {
            30
        },
        None => 20,
    }
}

fn test_reason(broad: bool, scoped: bool, test_file_changed: bool) -> (r: String)
    ensures
        r@ == test_reason_spec(broad, scoped, test_file_changed),
{
    if broad {
        owned("broad_change_requires_test_command")
    } else if scoped {
        owned("test_scope_matches_impacted_component")
    } else if test_file_changed {
        owned("changed_file_is_test_path")
    } else {
        owned("generic_test_command_for_impacted_component")
    }
}

/// Tests worth running for the impacted components, ordered by rank, identifier and
/// command.
pub fn recommend_tests(
    g: &RepoInspection,
    files: &Vec<String>,
    comps: &Vec<ImpactedComponent>,
    broad: bool,
) -> (r: Vec<RecommendedTest>)
    ensures
        sorted(r@),
        test_views(r@).to_multiset() == expected_tests(g.tests@, files@, comps@, broad).to_multiset(),
{
    let test_file_changed = any_test_path_exec(files);
    let mut pre: Vec<RecommendedTest> = Vec::new();
    let mut i: usize = 0;
    while i < g.tests.len()
        invariant
            i <= g.tests@.len(),
            test_file_changed == any_test_path(files@),
            test_views(pre@) == expected_tests(g.tests@.take(i as int), files@, comps@, broad),
        decreases g.tests@.len() - i,
    {
        let t = &g.tests[i];
        let ghost before = pre@;
        assert(g.tests@.take(i + 1).drop_last() =~= g.tests@.take(i as int));
        assert(g.tests@.take(i + 1).last() == *t);
        if broad || scope_applies_exec(&t.scope_ref, comps) || test_file_changed {
            let scoped = scope_matches_exec(&t.scope_ref, comps);
            let rec = RecommendedTest {
                test_id: t.id.clone(),
                command: t.command.clone(),
                scope_ref: copy_opt_string(&t.scope_ref),
                rank: test_rank(t, broad, scoped),
                reason: test_reason(broad, scoped, test_file_changed),
                confidence: recommendation_confidence_exec(scoped, comps),
                evidence_ids: single_id_set(&t.evidence_id),
            };
            pre.push(rec);
            assert(views(rec.evidence_ids@) == single_ids(t.evidence_id@));
            assert(test_views(pre@) =~= test_views(before).push(test_view(rec)));
        } else {
            assert(test_views(pre@) == test_views(before));
        }
        i = i + 1;
    }
    assert(g.tests@.take(g.tests@.len() as int) =~= g.tests@);
    let r = sort_items(pre);
    proof {
        lemma_map_multiset(r@, pre@, |t: RecommendedTest| test_view(t));
    }
    r
}

// ---------------------------------------------------------------------------
// Commands
// ---------------------------------------------------------------------------

/// What a recommended command says, as plain values.
pub open spec fn command_view(c: RecommendedCommand) -> (Seq<char>, Seq<char>, RepoCommandKind, Option<Seq<char>>, u32, Seq<char>, ImpactConfidence, Seq<Seq<char>>) {
    (c.command_id@, c.command@, c.kind, opt_text(c.scope_ref), c.rank, c.reason@, c.confidence, views(c.evidence_ids@))
}

pub open spec fn command_views(s: Seq<RecommendedCommand>) -> Seq<(Seq<char>, Seq<char>, RepoCommandKind, Option<Seq<char>>, u32, Seq<char>, ImpactConfidence, Seq<Seq<char>>)> {
    s.map_values(|c: RecommendedCommand| command_view(c))
}

/// Base rank of a command kind: after a broad change checks come first; otherwise a
/// test command comes first when no test target was recommended.
pub open spec fn command_base_rank(kind: RepoCommandKind, broad: bool, has_tests: bool) -> u32 {
    if broad {
        match kind {
            RepoCommandKind::Check => 10,
            RepoCommandKind::Test => 20,
            RepoCommandKind::Build => 30,
            RepoCommandKind::Lint | RepoCommandKind::Typecheck => 40,
            RepoCommandKind::Format => 50,
            RepoCommandKind::Other => 90,
        }
    } else {
        match kind {
            RepoCommandKind::Test => if has_tests {
                30
            } else {
                10
            },
            RepoCommandKind::Check => 20,
            RepoCommandKind::Lint | RepoCommandKind::Typecheck => 40,
            RepoCommandKind::Build => 50,
            RepoCommandKind::Format => 60,
            RepoCommandKind::Other => 90,
        }
    }
}

/// Unscoped commands rank five places lower.
pub open spec fn command_rank_spec(kind: RepoCommandKind, broad: bool, scoped: bool, has_tests: bool) -> u32 {
    if scoped {
        command_base_rank(kind, broad, has_tests)
    } else {
        (command_base_rank(kind, broad, has_tests) + 5) as u32
    }
}

pub open spec fn command_reason_spec(kind: RepoCommandKind, broad: bool, scoped: bool) -> Seq<char> {
    if broad {
        match kind {
            RepoCommandKind::Check => "manifest_change_may_affect_compile_graph"@,
            RepoCommandKind::Test => "manifest_change_may_affect_test_graph"@,
            RepoCommandKind::Build => "manifest_change_may_affect_build_graph"@,
            RepoCommandKind::Lint | RepoCommandKind::Typecheck => "manifest_change_may_affect_static_analysis"@,
            RepoCommandKind::Format | RepoCommandKind::Other => "broad_change_matches_command_scope"@,
        }
    } else if scoped {
        "command_scope_matches_impacted_component"@
    } else {
        "generic_command_for_impacted_component"@
    }
}

/// A command is recommended after a broad change or when its scope applies.
pub open spec fn command_selected(c: RepoCommand, comps: Seq<ImpactedComponent>, broad: bool) -> bool {
    broad || scope_applies(c.scope_ref, comps)
}

pub open spec fn expected_command(c: RepoCommand, comps: Seq<ImpactedComponent>, broad: bool, has_tests: bool) -> (Seq<char>, Seq<char>, RepoCommandKind, Option<Seq<char>>, u32, Seq<char>, ImpactConfidence, Seq<Seq<char>>) {
    let scoped = scope_matches(c.scope_ref, comps);
    (
        c.id@,
        c.command@,
        c.kind,
        opt_text(c.scope_ref),
        command_rank_spec(c.kind, broad, scoped, has_tests),
        command_reason_spec(c.kind, broad, scoped),
        recommendation_confidence(scoped, comps),
        single_ids(c.evidence_id@),
    )
}

/// The recommendations for the selected commands, in the order of the commands.
pub open spec fn expected_commands(cmds: Seq<RepoCommand>, comps: Seq<ImpactedComponent>, broad: bool, has_tests: bool) -> Seq<(Seq<char>, Seq<char>, RepoCommandKind, Option<Seq<char>>, u32, Seq<char>, ImpactConfidence, Seq<Seq<char>>)>
    decreases cmds.len(),
{
    if cmds.len() == 0 {
        seq![]
    } else {
        let prev = expected_commands(cmds.drop_last(), comps, broad, has_tests);
        if command_selected(cmds.last(), comps, broad) {
            prev.push(expected_command(cmds.last(), comps, broad, has_tests))
        } else {
            prev
        }
    }
}

impl Ordered for RecommendedCommand {
    open spec fn le(self, other: Self) -> bool {
        key_le(self.rank, self.command_id@, self.command@, other.rank, other.command_id@, other.command@)
    }

    proof fn lemma_le_transitive(a: Self, b: Self, c: Self) {
        lemma_key_le_transitive(a.rank, a.command_id@, a.command@, b.rank, b.command_id@, b.command@, c.rank, c.command_id@, c.command@);
    }

    proof fn lemma_le_total(a: Self, b: Self) {
        lemma_key_le_total(a.rank, a.command_id@, a.command@, b.rank, b.command_id@, b.command@);
    }

    fn le_exec(&self, other: &Self) -> (r: bool) {
        key_le_exec(self.rank, self.command_id.as_str(), self.command.as_str(), other.rank, other.command_id.as_str(), other.command.as_str())
    }
}

fn command_rank(kind: RepoCommandKind, broad: bool, scoped: bool, has_tests: bool) -> (r: u32)
    ensures
        r == command_rank_spec(kind, broad, scoped, has_tests),
{
    let base: u32 = if broad {
        match kind {
            RepoCommandKind::Check => 10,
            RepoCommandKind::Test => 20,
            RepoCommandKind::Build => 30,
            RepoCommandKind::Lint | RepoCommandKind::Typecheck => 40,
            RepoCommandKind::Format => 50,
            RepoCommandKind::Other => 90,
        }
    } else {
        match kind {
            RepoCommandKind::Test => if has_tests {
                30
            } else {
                10
            },
            RepoCommandKind::Check => 20,
            RepoCommandKind::Lint | RepoCommandKind::Typecheck => 40,
            RepoCommandKind::Build => 50,
            RepoCommandKind::Format => 60,
            RepoCommandKind::Other => 90,
        }
    };
    if scoped {
        base
    } else {
        base + 5
    }
}

fn command_reason(kind: RepoCommandKind, broad: bool, scoped: bool) -> (r: String)
    ensures
        r@ == command_reason_spec(kind, broad, scoped),
{
    if broad {
        match kind {
            RepoCommandKind::Check => owned("manifest_change_may_affect_compile_graph"),
            RepoCommandKind::Test => owned("manifest_change_may_affect_test_graph"),
            RepoCommandKind::Build => owned("manifest_change_may_affect_build_graph"),
            RepoCommandKind::Lint | RepoCommandKind::Typecheck => owned("manifest_change_may_affect_static_analysis"),
            RepoCommandKind::Format | RepoCommandKind::Other => owned("broad_change_matches_command_scope"),
        }
    } else if scoped {
        owned("command_scope_matches_impacted_component")
    } else {
        owned("generic_command_for_impacted_component")
    }
}

/// Commands worth running for the impacted components, ordered by rank, identifier
/// and command.
pub fn recommend_commands(
    g: &RepoInspection,
    comps: &Vec<ImpactedComponent>,
    has_tests: bool,
    broad: bool,
) -> (r: Vec<RecommendedCommand>)
    ensures
        sorted(r@),
        command_views(r@).to_multiset() == expected_commands(g.commands@, comps@, broad, has_tests).to_multiset(),
{
    let mut pre: Vec<RecommendedCommand> = Vec::new();
    let mut i: usize = 0;
    while i < g.commands.len()
        invariant
            i <= g.commands@.len(),
            command_views(pre@) == expected_commands(g.commands@.take(i as int), comps@, broad, has_tests),
        decreases g.commands@.len() - i,
    {
        let c = &g.commands[i];
        let ghost before = pre@;
        assert(g.commands@.take(i + 1).drop_last() =~= g.commands@.take(i as int));
        assert(g.commands@.take(i + 1).last() == *c);
        if broad || scope_applies_exec(&c.scope_ref, comps) {
            let scoped = scope_matches_exec(&c.scope_ref, comps);
            let rec = RecommendedCommand {
                command_id: c.id.clone(),
                command: c.command.clone(),
                kind: c.kind,
                scope_ref: copy_opt_string(&c.scope_ref),
                rank: command_rank(c.kind, broad, scoped, has_tests),
                reason: command_reason(c.kind, broad, scoped),
                confidence: recommendation_confidence_exec(scoped, comps),
                evidence_ids: single_id_set(&c.evidence_id),
            };
            pre.push(rec);
            assert(views(rec.evidence_ids@) == single_ids(c.evidence_id@));
            assert(command_views(pre@) =~= command_views(before).push(command_view(rec)));
        } else {
            assert(command_views(pre@) == command_views(before));
        }
        i = i + 1;
    }
    assert(g.commands@.take(g.commands@.len() as int) =~= g.commands@);
    let r = sort_items(pre);
    proof {
        lemma_map_multiset(r@, pre@, |c: RecommendedCommand| command_view(c));
    }
    r
}

} // verus!
