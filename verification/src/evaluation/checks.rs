use vstd::prelude::*;

use super::render::{render_list, render_list_exec, render_set, render_set_exec};
use super::{failure_text, failure_views, inc, EvalCounters, EvalFailure, FailureText};
use crate::repo_graph::types::{
    evidence_has_id, evidence_id_set, ids_backed, ids_backed_exec, opt_backed, opt_backed_exec, DetectionCategory,
    DetectionIssue, Evidence, ImpactReport, RepoInspection,
};
use crate::text::{concat2, concat3, decimal, decimal_text, owned, text_eq};
use crate::textset::{insert_sorted_unique, strictly_sorted, views};

verus! {

// ---------------------------------------------------------------------------
// The state that checks change
// ---------------------------------------------------------------------------

/// The counters and the failures recorded so far.
pub struct EvalState {
    pub counters: EvalCounters,
    pub failures: Seq<FailureText>,
}

pub open spec fn state_of(c: EvalCounters, f: Seq<EvalFailure>) -> EvalState {
    EvalState { counters: c, failures: failure_views(f) }
}

/// Which counter a failed item check adds to.
#[derive(Debug, Clone, Copy, PartialEq, Eq, Structural)]
pub enum Tally {
    Narrow,
    Broad,
    MissingWarning,
    UnexpectedWarning,
}

/// One more expected check, and one more passed when it passed.
pub open spec fn counted(c: EvalCounters, passed: bool) -> EvalCounters {
    EvalCounters {
        expected_checks: inc(c.expected_checks),
        expected_checks_passed: if passed { inc(c.expected_checks_passed) } else { c.expected_checks_passed },
        ..c
    }
}

pub open spec fn tallied(c: EvalCounters, which: Tally) -> EvalCounters {
    match which {
        Tally::Narrow => EvalCounters { false_narrow_count: inc(c.false_narrow_count), ..c },
        Tally::Broad => EvalCounters { false_broad_count: inc(c.false_broad_count), ..c },
        Tally::MissingWarning => EvalCounters { missing_expected_warning_count: inc(c.missing_expected_warning_count), ..c },
        Tally::UnexpectedWarning => EvalCounters { unexpected_warning_count: inc(c.unexpected_warning_count), ..c },
    }
}

/// Checks, item by item, that each item is (or, with `want_present` false, is not)
/// in `pool`; a failed check adds to `which` and records a failure that shows the
/// item (or `not` and the item) and `rendered`.
pub open spec fn items_effect(
    st: EvalState,
    name: Seq<char>,
    field: Seq<char>,
    items: Seq<Seq<char>>,
    pool: Seq<Seq<char>>,
    rendered: Seq<char>,
    want_present: bool,
    which: Tally,
    category: Seq<char>,
) -> EvalState
    decreases items.len(),
{
    if items.len() == 0 {
        st
    } else {
        let s0 = items_effect(st, name, field, items.drop_last(), pool, rendered, want_present, which, category);
        let item = items.last();
        let passed = pool.contains(item) == want_present;
        let c = counted(s0.counters, passed);
        if passed {
            EvalState { counters: c, failures: s0.failures }
        } else {
            let value = if want_present { item } else { "not "@ + item };
            EvalState {
                counters: tallied(c, which),
                failures: s0.failures.push(failure_text(name, field, value, rendered, category)),
            }
        }
    }
}

/// A value check: counted, and a mismatch recorded when it failed.
pub open spec fn value_effect(st: EvalState, name: Seq<char>, field: Seq<char>, expected: Seq<char>, actual: Seq<char>, passed: bool) -> EvalState {
    EvalState {
        counters: counted(st.counters, passed),
        failures: if passed {
            st.failures
        } else {
            st.failures.push(failure_text(name, field, expected, actual, "mismatch"@))
        },
    }
}

/// The check that at most `max` components are impacted.
pub open spec fn max_effect(st: EvalState, name: Seq<char>, max: usize, count: nat) -> EvalState {
    let passed = count <= max;
    let c = counted(st.counters, passed);
    if passed {
        EvalState { counters: c, failures: st.failures }
    } else {
        EvalState {
            counters: tallied(c, Tally::Broad),
            failures: st.failures.push(failure_text(name, "max_impacted_components"@, "at most "@ + decimal(max as nat), decimal(count), "false_broad"@)),
        }
    }
}

/// The check that every fact rests on evidence the output holds.
pub open spec fn evidence_effect(st: EvalState, name: Seq<char>, what: Seq<char>, valid: bool) -> EvalState {
    let c = EvalCounters {
        evidence_cases: inc(st.counters.evidence_cases),
        evidence_passed: if valid { inc(st.counters.evidence_passed) } else { st.counters.evidence_passed },
        ..st.counters
    };
    EvalState {
        counters: c,
        failures: if valid {
            st.failures
        } else {
            st.failures.push(failure_text(
                name,
                "evidence_coverage"@,
                "all "@ + what + " facts have valid evidence"@,
                "missing or invalid evidence reference"@,
                "evidence_coverage"@,
            ))
        },
    }
}

/// The check that two runs gave the same output.
pub open spec fn deterministic_effect(st: EvalState, name: Seq<char>, same: bool) -> EvalState {
    let c = EvalCounters {
        deterministic_cases: inc(st.counters.deterministic_cases),
        deterministic_passed: if same { inc(st.counters.deterministic_passed) } else { st.counters.deterministic_passed },
        ..st.counters
    };
    EvalState {
        counters: c,
        failures: if same {
            st.failures
        } else {
            st.failures.push(failure_text(
                name,
                "deterministic_output"@,
                "same output across repeated runs"@,
                "outputs differed"@,
                "determinism"@,
            ))
        },
    }
}

fn inc_exec(x: usize) -> (r: usize)
    ensures
        r == inc(x),
{
    if x == usize::MAX {
        x
    } else {
        x + 1
    }
}

fn failure(name: &str, field: &str, value: &str, actual: &str, category: &str) -> (f: EvalFailure)
    ensures
        f@ == failure_text(name@, field@, value@, actual@, category@),
{
    proof {
        reveal_strlit(": ");
        reveal_strlit("error");
    }
    EvalFailure {
        case_name: owned(name),
        expected: concat3(field, ": ", value),
        actual: owned(actual),
        severity: owned("error"),
        category: owned(category),
    }
}

pub fn push_failure(failures: &mut Vec<EvalFailure>, f: EvalFailure)
    ensures
        failure_views(final(failures)@) == failure_views(old(failures)@).push(f@),
{
    let ghost before = failures@;
    failures.push(f);
    assert(failure_views(failures@) =~= failure_views(before).push(f@));
}

fn count_check(counters: &mut EvalCounters, passed: bool)
    ensures
        *final(counters) == counted(*old(counters), passed),
{
    counters.expected_checks = inc_exec(counters.expected_checks);
    if passed {
        counters.expected_checks_passed = inc_exec(counters.expected_checks_passed);
    }
}

fn tally(counters: &mut EvalCounters, which: Tally)
    ensures
        *final(counters) == tallied(*old(counters), which),
{
    match which {
        Tally::Narrow => counters.false_narrow_count = inc_exec(counters.false_narrow_count),
        Tally::Broad => counters.false_broad_count = inc_exec(counters.false_broad_count),
        Tally::MissingWarning => counters.missing_expected_warning_count = inc_exec(counters.missing_expected_warning_count),
        Tally::UnexpectedWarning => counters.unexpected_warning_count = inc_exec(counters.unexpected_warning_count),
    }
}

fn contains_text(pool: &Vec<String>, item: &str) -> (r: bool)
    ensures
        r == views(pool@).contains(item@),
{
    let mut i: usize = 0;
    while i < pool.len()
        invariant
            i <= pool@.len(),
            forall|k: int| 0 <= k < i ==> views(pool@)[k] != item@,
        decreases pool@.len() - i,
    {
        if text_eq(pool[i].as_str(), item) {
            assert(views(pool@)[i as int] == item@);
            return true;
        }
        i = i + 1;
    }
    false
}

/// Checks each item against `pool`, as `items_effect` says.
pub fn check_items(
    name: &str,
    field: &str,
    items: &Vec<String>,
    pool: &Vec<String>,
    rendered: &str,
    want_present: bool,
    which: Tally,
    category: &str,
    counters: &mut EvalCounters,
    failures: &mut Vec<EvalFailure>,
)
    ensures
        state_of(*final(counters), final(failures)@) == items_effect(
            state_of(*old(counters), old(failures)@),
            name@,
            field@,
            views(items@),
            views(pool@),
            rendered@,
            want_present,
            which,
            category@,
        ),
{
    let ghost st0 = state_of(*counters, failures@);
    let mut i: usize = 0;
    assert(views(items@).take(0) =~= Seq::<Seq<char>>::empty());
    while i < items.len()
        invariant
            i <= items@.len(),
            state_of(*counters, failures@) == items_effect(st0, name@, field@, views(items@).take(i as int), views(pool@), rendered@, want_present, which, category@),
        decreases items@.len() - i,
    {
        let item = items[i].as_str();
        let ghost t = views(items@).take(i + 1);
        assert(t.drop_last() =~= views(items@).take(i as int));
        assert(t.last() == items@[i as int]@);
        let present = contains_text(pool, item);
        let passed = present == want_present;
        count_check(counters, passed);
        if !passed {
            tally(counters, which);
            let value = if want_present {
                owned(item)
            } else {
                proof {
                    reveal_strlit("not ");
                }
                concat2("not ", item)
            };
            push_failure(failures, failure(name, field, value.as_str(), rendered, category));
        }
        i = i + 1;
    }
    assert(views(items@).take(items@.len() as int) =~= views(items@));
}

/// Checks that a value is the expected one.
pub fn check_value(
    name: &str,
    field: &str,
    expected: &str,
    actual: &str,
    passed: bool,
    counters: &mut EvalCounters,
    failures: &mut Vec<EvalFailure>,
)
    ensures
        state_of(*final(counters), final(failures)@) == value_effect(state_of(*old(counters), old(failures)@), name@, field@, expected@, actual@, passed),
{
    count_check(counters, passed);
    if !passed {
        proof {
            reveal_strlit("mismatch");
        }
        push_failure(failures, failure(name, field, expected, actual, "mismatch"));
    }
}

/// Checks that at most `max` components were impacted.
pub fn check_max(name: &str, max: usize, count: usize, counters: &mut EvalCounters, failures: &mut Vec<EvalFailure>)
    ensures
        state_of(*final(counters), final(failures)@) == max_effect(state_of(*old(counters), old(failures)@), name@, max, count as nat),
{
    let passed = count <= max;
    count_check(counters, passed);
    if !passed {
        tally(counters, Tally::Broad);
        let m = decimal_text(max);
        let value = concat2("at most ", m.as_str());
        let actual = decimal_text(count);
        proof {
            reveal_strlit("at most ");
            reveal_strlit("max_impacted_components");
            reveal_strlit("false_broad");
        }
        push_failure(failures, failure(name, "max_impacted_components", value.as_str(), actual.as_str(), "false_broad"));
    }
}

/// Counts an evidence check, recording a failure when the evidence is not valid.
pub fn check_evidence(name: &str, what: &str, valid: bool, counters: &mut EvalCounters, failures: &mut Vec<EvalFailure>)
    ensures
        state_of(*final(counters), final(failures)@) == evidence_effect(state_of(*old(counters), old(failures)@), name@, what@, valid),
{
    counters.evidence_cases = inc_exec(counters.evidence_cases);
    if valid {
        counters.evidence_passed = inc_exec(counters.evidence_passed);
    } else {
        let expected = concat3("all ", what, " facts have valid evidence");
        proof {
            reveal_strlit("all ");
            reveal_strlit(" facts have valid evidence");
            reveal_strlit("evidence_coverage");
            reveal_strlit("missing or invalid evidence reference");
        }
        push_failure(
            failures,
            failure(name, "evidence_coverage", expected.as_str(), "missing or invalid evidence reference", "evidence_coverage"),
        );
    }
}

/// Counts a determinism check, recording a failure when the outputs differed.
pub fn check_deterministic(name: &str, same: bool, counters: &mut EvalCounters, failures: &mut Vec<EvalFailure>)
    ensures
        state_of(*final(counters), final(failures)@) == deterministic_effect(state_of(*old(counters), old(failures)@), name@, same),
{
    counters.deterministic_cases = inc_exec(counters.deterministic_cases);
    if same {
        counters.deterministic_passed = inc_exec(counters.deterministic_passed);
    } else {
        proof {
            reveal_strlit("deterministic_output");
            reveal_strlit("same output across repeated runs");
            reveal_strlit("outputs differed");
            reveal_strlit("determinism");
        }
        push_failure(
            failures,
            failure(name, "deterministic_output", "same output across repeated runs", "outputs differed", "determinism"),
        );
    }
}

// ---------------------------------------------------------------------------
// Evidence of the outputs
// ---------------------------------------------------------------------------

/// Every fact of an inspection names evidence the inspection holds.
pub open spec fn inspect_facts_backed(g: RepoInspection) -> bool {
    let known = evidence_id_set(g.evidence@);
    &&& forall|i: int| 0 <= i < g.detected_files@.len() ==> known.contains((#[trigger] g.detected_files@[i]).evidence_id@)
    &&& forall|i: int| 0 <= i < g.package_managers@.len() ==> known.contains((#[trigger] g.package_managers@[i]).evidence_id@)
    &&& forall|i: int| 0 <= i < g.workspaces@.len() ==> known.contains((#[trigger] g.workspaces@[i]).evidence_id@)
    &&& forall|i: int| 0 <= i < g.components@.len() ==> known.contains((#[trigger] g.components@[i]).evidence_id@)
    &&& forall|i: int| 0 <= i < g.commands@.len() ==> known.contains((#[trigger] g.commands@[i]).evidence_id@)
    &&& forall|i: int| 0 <= i < g.tests@.len() ==> known.contains((#[trigger] g.tests@[i]).evidence_id@)
    &&& forall|i: int| 0 <= i < g.relationships@.len() ==> known.contains((#[trigger] g.relationships@[i]).evidence_id@)
    &&& forall|i: int| 0 <= i < g.warnings@.len() ==> opt_backed((#[trigger] g.warnings@[i]).evidence_id, known)
}

/// Every impacted component and workspace and every recommendation names at least
/// one evidence item, and only ones the report holds.
pub open spec fn impact_facts_backed(r: ImpactReport) -> bool {
    let known = evidence_id_set(r.evidence@);
    &&& forall|i: int| 0 <= i < r.impacted_components@.len() ==> ids_backed((#[trigger] r.impacted_components@[i]).evidence_ids@, known)
    &&& forall|i: int| 0 <= i < r.impacted_workspaces@.len() ==> ids_backed((#[trigger] r.impacted_workspaces@[i]).evidence_ids@, known)
    &&& forall|i: int| 0 <= i < r.recommended_commands@.len() ==> ids_backed((#[trigger] r.recommended_commands@[i]).evidence_ids@, known)
    &&& forall|i: int| 0 <= i < r.recommended_tests@.len() ==> ids_backed((#[trigger] r.recommended_tests@[i]).evidence_ids@, known)
}

/// Checks `inspect_facts_backed`.
pub fn inspect_evidence_valid(g: &RepoInspection) -> (r: bool)
    ensures
        r == inspect_facts_backed(*g),
{
    let ghost known = evidence_id_set(g.evidence@);
    let mut i: usize = 0;
    while i < g.detected_files.len()
        invariant
            i <= g.detected_files@.len(),
            known == evidence_id_set(g.evidence@),
            forall|k: int| 0 <= k < i ==> known.contains((#[trigger] g.detected_files@[k]).evidence_id@),
        decreases g.detected_files@.len() - i,
    {
        if !evidence_has_id(&g.evidence, g.detected_files[i].evidence_id.as_str()) {
            return false;
        }
        i = i + 1;
    }
    let mut i: usize = 0;
    while i < g.package_managers.len()
        invariant
            i <= g.package_managers@.len(),
            known == evidence_id_set(g.evidence@),
            forall|k: int| 0 <= k < i ==> known.contains((#[trigger] g.package_managers@[k]).evidence_id@),
        decreases g.package_managers@.len() - i,
    {
        if !evidence_has_id(&g.evidence, g.package_managers[i].evidence_id.as_str()) {
            return false;
        }
        i = i + 1;
    }
    let mut i: usize = 0;
    while i < g.workspaces.len()
        invariant
            i <= g.workspaces@.len(),
            known == evidence_id_set(g.evidence@),
            forall|k: int| 0 <= k < i ==> known.contains((#[trigger] g.workspaces@[k]).evidence_id@),
        decreases g.workspaces@.len() - i,
    {
        if !evidence_has_id(&g.evidence, g.workspaces[i].evidence_id.as_str()) {
            return false;
        }
        i = i + 1;
    }
    let mut i: usize = 0;
    while i < g.components.len()
        invariant
            i <= g.components@.len(),
            known == evidence_id_set(g.evidence@),
            forall|k: int| 0 <= k < i ==> known.contains((#[trigger] g.components@[k]).evidence_id@),
        decreases g.components@.len() - i,
    {
        if !evidence_has_id(&g.evidence, g.components[i].evidence_id.as_str()) {
            return false;
        }
        i = i + 1;
    }
    let mut i: usize = 0;
    while i < g.commands.len()
        invariant
            i <= g.commands@.len(),
            known == evidence_id_set(g.evidence@),
            forall|k: int| 0 <= k < i ==> known.contains((#[trigger] g.commands@[k]).evidence_id@),
        decreases g.commands@.len() - i,
    {
        if !evidence_has_id(&g.evidence, g.commands[i].evidence_id.as_str()) {
            return false;
        }
        i = i + 1;
    }
    let mut i: usize = 0;
    while i < g.tests.len()
        invariant
            i <= g.tests@.len(),
            known == evidence_id_set(g.evidence@),
            forall|k: int| 0 <= k < i ==> known.contains((#[trigger] g.tests@[k]).evidence_id@),
        decreases g.tests@.len() - i,
    {
        if !evidence_has_id(&g.evidence, g.tests[i].evidence_id.as_str()) {
            return false;
        }
        i = i + 1;
    }
    let mut i: usize = 0;
    while i < g.relationships.len()
        invariant
            i <= g.relationships@.len(),
            known == evidence_id_set(g.evidence@),
            forall|k: int| 0 <= k < i ==> known.contains((#[trigger] g.relationships@[k]).evidence_id@),
        decreases g.relationships@.len() - i,
    {
        if !evidence_has_id(&g.evidence, g.relationships[i].evidence_id.as_str()) {
            return false;
        }
        i = i + 1;
    }
    let mut i: usize = 0;
    while i < g.warnings.len()
        invariant
            i <= g.warnings@.len(),
            known == evidence_id_set(g.evidence@),
            forall|k: int| 0 <= k < i ==> opt_backed((#[trigger] g.warnings@[k]).evidence_id, known),
        decreases g.warnings@.len() - i,
    {
        if !opt_backed_exec(&g.warnings[i].evidence_id, &g.evidence) {
            return false;
        }
        i = i + 1;
    }
    true
}

/// Checks `impact_facts_backed`.
pub fn impact_evidence_valid(r: &ImpactReport) -> (b: bool)
    ensures
        b == impact_facts_backed(*r),
{
    let ghost known = evidence_id_set(r.evidence@);
    let mut i: usize = 0;
    while i < r.impacted_components.len()
        invariant
            i <= r.impacted_components@.len(),
            known == evidence_id_set(r.evidence@),
            forall|k: int| 0 <= k < i ==> ids_backed((#[trigger] r.impacted_components@[k]).evidence_ids@, known),
        decreases r.impacted_components@.len() - i,
    {
        if !ids_backed_exec(&r.impacted_components[i].evidence_ids, &r.evidence) {
            return false;
        }
        i = i + 1;
    }
    let mut i: usize = 0;
    while i < r.impacted_workspaces.len()
        invariant
            i <= r.impacted_workspaces@.len(),
            known == evidence_id_set(r.evidence@),
            forall|k: int| 0 <= k < i ==> ids_backed((#[trigger] r.impacted_workspaces@[k]).evidence_ids@, known),
        decreases r.impacted_workspaces@.len() - i,
    {
        if !ids_backed_exec(&r.impacted_workspaces[i].evidence_ids, &r.evidence) {
            return false;
        }
        i = i + 1;
    }
    let mut i: usize = 0;
    while i < r.recommended_commands.len()
        invariant
            i <= r.recommended_commands@.len(),
            known == evidence_id_set(r.evidence@),
            forall|k: int| 0 <= k < i ==> ids_backed((#[trigger] r.recommended_commands@[k]).evidence_ids@, known),
        decreases r.recommended_commands@.len() - i,
    {
        if !ids_backed_exec(&r.recommended_commands[i].evidence_ids, &r.evidence) {
            return false;
        }
        i = i + 1;
    }
    let mut i: usize = 0;
    while i < r.recommended_tests.len()
        invariant
            i <= r.recommended_tests@.len(),
            known == evidence_id_set(r.evidence@),
            forall|k: int| 0 <= k < i ==> ids_backed((#[trigger] r.recommended_tests@[k]).evidence_ids@, known),
        decreases r.recommended_tests@.len() - i,
    {
        if !ids_backed_exec(&r.recommended_tests[i].evidence_ids, &r.evidence) {
            return false;
        }
        i = i + 1;
    }
    true
}

// ---------------------------------------------------------------------------
// Warning categories
// ---------------------------------------------------------------------------

/// The name a warning category has in expectations.
pub open spec fn detection_category_name(c: DetectionCategory) -> Seq<char> {
    match c {
        DetectionCategory::AmbiguousDetection => "ambiguous_detection"@,
        DetectionCategory::IgnoredPath => "ignored_path"@,
        DetectionCategory::MalformedManifest => "malformed_manifest"@,
        DetectionCategory::MissingCommand => "missing_command"@,
        DetectionCategory::NoSupportedManifests => "no_supported_manifests"@,
        DetectionCategory::PartialSupport => "partial_support"@,
        DetectionCategory::RepoGraphOnly => "repo_graph_only"@,
        DetectionCategory::UnmappedChange => "unmapped_change"@,
        DetectionCategory::UnreadableManifest => "unreadable_manifest"@,
        DetectionCategory::UnsupportedPattern => "unsupported_pattern"@,
    }
}

fn detection_category_label(c: DetectionCategory) -> (r: &'static str)
    ensures
        r@ == detection_category_name(c),
{
    match c {
        DetectionCategory::AmbiguousDetection => "ambiguous_detection",
        DetectionCategory::IgnoredPath => "ignored_path",
        DetectionCategory::MalformedManifest => "malformed_manifest",
        DetectionCategory::MissingCommand => "missing_command",
        DetectionCategory::NoSupportedManifests => "no_supported_manifests",
        DetectionCategory::PartialSupport => "partial_support",
        DetectionCategory::RepoGraphOnly => "repo_graph_only",
        DetectionCategory::UnmappedChange => "unmapped_change",
        DetectionCategory::UnreadableManifest => "unreadable_manifest",
        DetectionCategory::UnsupportedPattern => "unsupported_pattern",
    }
}

/// The category names of the warnings, in order, repetitions kept.
pub open spec fn issue_category_names(ws: Seq<DetectionIssue>) -> Seq<Seq<char>> {
    ws.map_values(|w: DetectionIssue| detection_category_name(w.category))
}

/// `cats` is the ordered set of the warnings' category names.
pub open spec fn category_set_of(cats: Seq<Seq<char>>, ws: Seq<DetectionIssue>) -> bool {
    strictly_sorted(cats) && cats.to_set() == issue_category_names(ws).to_set()
}

/// The warning categories, ordered and without repetitions.
pub fn warning_categories(ws: &Vec<DetectionIssue>) -> (r: Vec<String>)
    ensures
        category_set_of(views(r@), ws@),
{
    let mut r: Vec<String> = Vec::new();
    let mut i: usize = 0;
    assert(views(r@).to_set() =~= issue_category_names(ws@.take(0)).to_set());
    while i < ws.len()
        invariant
            i <= ws@.len(),
            strictly_sorted(views(r@)),
            views(r@).to_set() == issue_category_names(ws@.take(i as int)).to_set(),
        decreases ws@.len() - i,
    {
        let name = owned(detection_category_label(ws[i].category));
        insert_sorted_unique(&mut r, name);
        proof {
            let prev = issue_category_names(ws@.take(i as int));
            assert(issue_category_names(ws@.take(i + 1)) =~= prev.push(detection_category_name(ws@[i as int].category)));
            crate::text::lemma_push_to_set(prev, detection_category_name(ws@[i as int].category));
        }
        i = i + 1;
    }
    assert(ws@.take(ws@.len() as int) =~= ws@);
    r
}

/// Renders the ordered category names as `Debug` prints a set.
pub fn render_categories(cats: &Vec<String>) -> (r: String)
    ensures
        r@ == render_set(views(cats@)),
{
    render_set_exec(cats)
}

/// Renders names as `Debug` prints a slice.
pub fn render_names(names: &Vec<String>) -> (r: String)
    ensures
        r@ == render_list(views(names@)),
{
    render_list_exec(names)
}

} // verus!
