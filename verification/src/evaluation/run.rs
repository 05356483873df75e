use vstd::prelude::*;

use super::checks::{
    category_set_of, check_deterministic, check_evidence, check_items, check_max, push_failure, check_value, deterministic_effect,
    evidence_effect, impact_evidence_valid, impact_facts_backed, inspect_evidence_valid, inspect_facts_backed,
    items_effect, max_effect, render_categories, render_names, state_of, value_effect, warning_categories, EvalState,
    Tally,
};
use super::render::{render_list, render_set};
use super::{
    confidence_name, failure_views, scope_name, status_name, zero_counters, EvalCase, EvalCaseKind, EvalCaseResult,
    EvalCounters, EvalExpect, EvalFailure, FailureText,
};
use crate::repo_graph::types::{
    Component, DetectionIssue, ImpactConfidence, ImpactReport, ImpactScope, ImpactStatus, ImpactedComponent,
    RecommendedCommand, RecommendedTest, RepoCommand, RepoInspection, TestTarget,
};
use crate::text::owned;
use crate::textset::views;

verus! {

// ---------------------------------------------------------------------------
// What the outputs name
// ---------------------------------------------------------------------------

pub open spec fn component_names(g: RepoInspection) -> Seq<Seq<char>> {
    g.components@.map_values(|c: Component| c.name@)
}

pub open spec fn command_names(g: RepoInspection) -> Seq<Seq<char>> {
    g.commands@.map_values(|c: RepoCommand| c.command@)
}

pub open spec fn test_names(g: RepoInspection) -> Seq<Seq<char>> {
    g.tests@.map_values(|t: TestTarget| t.command@)
}

pub open spec fn impacted_names(r: ImpactReport) -> Seq<Seq<char>> {
    r.impacted_components@.map_values(|c: ImpactedComponent| c.name@)
}

pub open spec fn recommended_command_names(r: ImpactReport) -> Seq<Seq<char>> {
    r.recommended_commands@.map_values(|c: RecommendedCommand| c.command@)
}

pub open spec fn recommended_test_names(r: ImpactReport) -> Seq<Seq<char>> {
    r.recommended_tests@.map_values(|t: RecommendedTest| t.command@)
}

fn names_of_components(v: &Vec<Component>) -> (r: Vec<String>)
    ensures
        views(r@) == v@.map_values(|c: Component| c.name@),
{
    let mut r: Vec<String> = Vec::new();
    let mut i: usize = 0;
    while i < v.len()
        invariant
            i <= v@.len(),
            views(r@) == v@.take(i as int).map_values(|c: Component| c.name@),
        decreases v@.len() - i,
    {
        r.push(v[i].name.clone());
        assert(v@.take(i + 1).map_values(|c: Component| c.name@) =~= v@.take(i as int).map_values(|c: Component| c.name@).push(v@[i as int].name@));
        assert(views(r@) =~= v@.take(i + 1).map_values(|c: Component| c.name@));
        i = i + 1;
    }
    assert(v@.take(v@.len() as int) =~= v@);
    r
}

fn names_of_commands(v: &Vec<RepoCommand>) -> (r: Vec<String>)
    ensures
        views(r@) == v@.map_values(|c: RepoCommand| c.command@),
{
    let mut r: Vec<String> = Vec::new();
    let mut i: usize = 0;
    while i < v.len()
        invariant
            i <= v@.len(),
            views(r@) == v@.take(i as int).map_values(|c: RepoCommand| c.command@),
        decreases v@.len() - i,
    {
        r.push(v[i].command.clone());
        assert(v@.take(i + 1).map_values(|c: RepoCommand| c.command@) =~= v@.take(i as int).map_values(|c: RepoCommand| c.command@).push(v@[i as int].command@));
        assert(views(r@) =~= v@.take(i + 1).map_values(|c: RepoCommand| c.command@));
        i = i + 1;
    }
    assert(v@.take(v@.len() as int) =~= v@);
    r
}

fn names_of_tests(v: &Vec<TestTarget>) -> (r: Vec<String>)
    ensures
        views(r@) == v@.map_values(|t: TestTarget| t.command@),
{
    let mut r: Vec<String> = Vec::new();
    let mut i: usize = 0;
    while i < v.len()
        invariant
            i <= v@.len(),
            views(r@) == v@.take(i as int).map_values(|t: TestTarget| t.command@),
        decreases v@.len() - i,
    {
        r.push(v[i].command.clone());
        assert(v@.take(i + 1).map_values(|t: TestTarget| t.command@) =~= v@.take(i as int).map_values(|t: TestTarget| t.command@).push(v@[i as int].command@));
        assert(views(r@) =~= v@.take(i + 1).map_values(|t: TestTarget| t.command@));
        i = i + 1;
    }
    assert(v@.take(v@.len() as int) =~= v@);
    r
}

fn names_of_impacted(v: &Vec<ImpactedComponent>) -> (r: Vec<String>)
    ensures
        views(r@) == v@.map_values(|c: ImpactedComponent| c.name@),
{
    let mut r: Vec<String> = Vec::new();
    let mut i: usize = 0;
    while i < v.len()
        invariant
            i <= v@.len(),
            views(r@) == v@.take(i as int).map_values(|c: ImpactedComponent| c.name@),
        decreases v@.len() - i,
    {
        r.push(v[i].name.clone());
        assert(v@.take(i + 1).map_values(|c: ImpactedComponent| c.name@) =~= v@.take(i as int).map_values(|c: ImpactedComponent| c.name@).push(v@[i as int].name@));
        assert(views(r@) =~= v@.take(i + 1).map_values(|c: ImpactedComponent| c.name@));
        i = i + 1;
    }
    assert(v@.take(v@.len() as int) =~= v@);
    r
}

fn names_of_recommended_commands(v: &Vec<RecommendedCommand>) -> (r: Vec<String>)
    ensures
        views(r@) == v@.map_values(|c: RecommendedCommand| c.command@),
{
    let mut r: Vec<String> = Vec::new();
    let mut i: usize = 0;
    while i < v.len()
        invariant
            i <= v@.len(),
            views(r@) == v@.take(i as int).map_values(|c: RecommendedCommand| c.command@),
        decreases v@.len() - i,
    {
        r.push(v[i].command.clone());
        assert(v@.take(i + 1).map_values(|c: RecommendedCommand| c.command@) =~= v@.take(i as int).map_values(|c: RecommendedCommand| c.command@).push(v@[i as int].command@));
        assert(views(r@) =~= v@.take(i + 1).map_values(|c: RecommendedCommand| c.command@));
        i = i + 1;
    }
    assert(v@.take(v@.len() as int) =~= v@);
    r
}

fn names_of_recommended_tests(v: &Vec<RecommendedTest>) -> (r: Vec<String>)
    ensures
        views(r@) == v@.map_values(|t: RecommendedTest| t.command@),
{
    let mut r: Vec<String> = Vec::new();
    let mut i: usize = 0;
    while i < v.len()
        invariant
            i <= v@.len(),
            views(r@) == v@.take(i as int).map_values(|t: RecommendedTest| t.command@),
        decreases v@.len() - i,
    {
        r.push(v[i].command.clone());
        assert(v@.take(i + 1).map_values(|t: RecommendedTest| t.command@) =~= v@.take(i as int).map_values(|t: RecommendedTest| t.command@).push(v@[i as int].command@));
        assert(views(r@) =~= v@.take(i + 1).map_values(|t: RecommendedTest| t.command@));
        i = i + 1;
    }
    assert(v@.take(v@.len() as int) =~= v@);
    r
}

// ---------------------------------------------------------------------------
// Expectations
// ---------------------------------------------------------------------------

/// The warning checks: expected categories present, unexpected ones absent, both
/// shown against the ordered set `cats` of reported categories.
pub open spec fn warnings_effect(st: EvalState, n: Seq<char>, e: EvalExpect, cats: Seq<Seq<char>>) -> EvalState {
    let s1 = items_effect(st, n, "warnings_contains_categories"@, views(e.warnings_contains_categories@), cats, render_set(cats), true, Tally::MissingWarning, "missing_expected_warning"@);
    items_effect(s1, n, "warnings_not_contains_categories"@, views(e.warnings_not_contains_categories@), cats, render_set(cats), false, Tally::UnexpectedWarning, "unexpected_warning"@)
}

/// The list checks of an expectation against the component, command and test names
/// of an output, with the field names given.
pub open spec fn lists_effect(
    st: EvalState,
    n: Seq<char>,
    e: EvalExpect,
    comps: Seq<Seq<char>>,
    cmds: Seq<Seq<char>>,
    tests: Seq<Seq<char>>,
    cats: Seq<Seq<char>>,
    fields: Seq<Seq<char>>,
) -> EvalState {
    let s1 = items_effect(st, n, fields[0], views(e.components_contains@), comps, render_list(comps), true, Tally::Narrow, "false_narrow"@);
    let s2 = items_effect(s1, n, fields[1], views(e.commands_contains@), cmds, render_list(cmds), true, Tally::Narrow, "false_narrow"@);
    let s3 = items_effect(s2, n, fields[2], views(e.tests_contains@), tests, render_list(tests), true, Tally::Narrow, "false_narrow"@);
    let s4 = warnings_effect(s3, n, e, cats);
    let s5 = items_effect(s4, n, fields[3], views(e.forbidden_components_contains@), comps, render_list(comps), false, Tally::Broad, "false_broad"@);
    let s6 = items_effect(s5, n, fields[4], views(e.forbidden_commands_contains@), cmds, render_list(cmds), false, Tally::Broad, "false_broad"@);
    items_effect(s6, n, fields[5], views(e.forbidden_tests_contains@), tests, render_list(tests), false, Tally::Broad, "false_broad"@)
}

pub open spec fn inspect_fields() -> Seq<Seq<char>> {
    seq![
        "components_contains"@,
        "commands_contains"@,
        "tests_contains"@,
        "forbidden_components_contains"@,
        "forbidden_commands_contains"@,
        "forbidden_tests_contains"@,
    ]
}

pub open spec fn impact_fields() -> Seq<Seq<char>> {
    seq![
        "impacted_components_contains"@,
        "recommended_commands_contains"@,
        "recommended_tests_contains"@,
        "forbidden_impacted_components_contains"@,
        "forbidden_recommended_commands_contains"@,
        "forbidden_recommended_tests_contains"@,
    ]
}

/// The expectation checks of an inspect case.
pub open spec fn inspect_expect_effect(st: EvalState, case: EvalCase, g: RepoInspection, cats: Seq<Seq<char>>) -> EvalState {
    lists_effect(st, case.name@, case.expect, component_names(g), command_names(g), test_names(g), cats, inspect_fields())
}

/// The value checks of an impact case: status, confidence and scope, where expected.
pub open spec fn impact_values_effect(st: EvalState, n: Seq<char>, e: EvalExpect, r: ImpactReport) -> EvalState {
    let s1 = match e.status {
        Some(x) => value_effect(st, n, "status"@, status_name(x), status_name(r.status), r.status == x),
        None => st,
    };
    let s2 = match e.confidence {
        Some(x) => value_effect(s1, n, "confidence"@, confidence_name(x), confidence_name(r.confidence), r.confidence == x),
        None => s1,
    };
    match e.impact_scope {
        Some(x) => value_effect(s2, n, "impact_scope"@, scope_name(x), scope_name(r.impact_scope), r.impact_scope == x),
        None => s2,
    }
}

/// The expectation checks of an impact case.
pub open spec fn impact_expect_effect(st: EvalState, case: EvalCase, r: ImpactReport, cats: Seq<Seq<char>>) -> EvalState {
    let n = case.name@;
    let e = case.expect;
    let s1 = impact_values_effect(st, n, e, r);
    let s2 = lists_effect(s1, n, e, impacted_names(r), recommended_command_names(r), recommended_test_names(r), cats, impact_fields());
    match e.max_impacted_components {
        Some(m) => max_effect(s2, n, m, r.impacted_components@.len()),
        None => s2,
    }
}

fn status_label(s: ImpactStatus) -> (r: &'static str)
    ensures
        r@ == status_name(s),
{
    match s {
        ImpactStatus::Complete => "Ok",
        ImpactStatus::Partial => "Partial",
        ImpactStatus::InsufficientEvidence => "InsufficientEvidence",
    }
}

fn confidence_label(c: ImpactConfidence) -> (r: &'static str)
    ensures
        r@ == confidence_name(c),
{
    match c {
        ImpactConfidence::High => "High",
        ImpactConfidence::Medium => "Medium",
        ImpactConfidence::Low => "Low",
        ImpactConfidence::Insufficient => "Insufficient",
    }
}

fn scope_label(s: ImpactScope) -> (r: &'static str)
    ensures
        r@ == scope_name(s),
{
    match s {
        ImpactScope::Targeted => "Targeted",
        ImpactScope::Broad => "Broad",
        ImpactScope::Mixed => "Mixed",
        ImpactScope::Unknown => "Unknown",
    }
}

fn check_lists(
    name: &str,
    e: &EvalExpect,
    comps: &Vec<String>,
    cmds: &Vec<String>,
    tests: &Vec<String>,
    cats: &Vec<String>,
    fields: [&str; 6],
    counters: &mut EvalCounters,
    failures: &mut Vec<EvalFailure>,
)
    ensures
        state_of(*final(counters), final(failures)@) == lists_effect(
            state_of(*old(counters), old(failures)@),
            name@,
            *e,
            views(comps@),
            views(cmds@),
            views(tests@),
            views(cats@),
            seq![fields[0]@, fields[1]@, fields[2]@, fields[3]@, fields[4]@, fields[5]@],
        ),
{
    let shown_comps = render_names(comps);
    let shown_cmds = render_names(cmds);
    let shown_tests = render_names(tests);
    let shown_cats = render_categories(cats);
    proof {
        reveal_strlit("false_narrow");
        reveal_strlit("false_broad");
        reveal_strlit("missing_expected_warning");
        reveal_strlit("unexpected_warning");
        reveal_strlit("warnings_contains_categories");
        reveal_strlit("warnings_not_contains_categories");
    }
    check_items(name, fields[0], &e.components_contains, comps, shown_comps.as_str(), true, Tally::Narrow, "false_narrow", counters, failures);
    check_items(name, fields[1], &e.commands_contains, cmds, shown_cmds.as_str(), true, Tally::Narrow, "false_narrow", counters, failures);
    check_items(name, fields[2], &e.tests_contains, tests, shown_tests.as_str(), true, Tally::Narrow, "false_narrow", counters, failures);
    check_items(
        name,
        "warnings_contains_categories",
        &e.warnings_contains_categories,
        cats,
        shown_cats.as_str(),
        true,
        Tally::MissingWarning,
        "missing_expected_warning",
        counters,
        failures,
    );
    check_items(
        name,
        "warnings_not_contains_categories",
        &e.warnings_not_contains_categories,
        cats,
        shown_cats.as_str(),
        false,
        Tally::UnexpectedWarning,
        "unexpected_warning",
        counters,
        failures,
    );
    check_items(name, fields[3], &e.forbidden_components_contains, comps, shown_comps.as_str(), false, Tally::Broad, "false_broad", counters, failures);
    check_items(name, fields[4], &e.forbidden_commands_contains, cmds, shown_cmds.as_str(), false, Tally::Broad, "false_broad", counters, failures);
    check_items(name, fields[5], &e.forbidden_tests_contains, tests, shown_tests.as_str(), false, Tally::Broad, "false_broad", counters, failures);
}

/// Checks an inspection against the expectations of a case.
pub fn check_inspect_expectations(case: &EvalCase, graph: &RepoInspection, counters: &mut EvalCounters, failures: &mut Vec<EvalFailure>)
    ensures
        exists|cats: Seq<Seq<char>>| #[trigger] category_set_of(cats, graph.warnings@)
            && state_of(*final(counters), final(failures)@) == inspect_expect_effect(state_of(*old(counters), old(failures)@), *case, *graph, cats),
{
    let comps = names_of_components(&graph.components);
    let cmds = names_of_commands(&graph.commands);
    let tests = names_of_tests(&graph.tests);
    let cats = warning_categories(&graph.warnings);
    let fields = [
        "components_contains",
        "commands_contains",
        "tests_contains",
        "forbidden_components_contains",
        "forbidden_commands_contains",
        "forbidden_tests_contains",
    ];
    check_lists(case.name.as_str(), &case.expect, &comps, &cmds, &tests, &cats, fields, counters, failures);
    assert(seq![fields[0]@, fields[1]@, fields[2]@, fields[3]@, fields[4]@, fields[5]@] =~= inspect_fields());
    assert(category_set_of(views(cats@), graph.warnings@));
}

/// Checks an impact report against the expectations of a case.
pub fn check_impact_expectations(case: &EvalCase, report: &ImpactReport, counters: &mut EvalCounters, failures: &mut Vec<EvalFailure>)
    ensures
        exists|cats: Seq<Seq<char>>| #[trigger] category_set_of(cats, report.warnings@)
            && state_of(*final(counters), final(failures)@) == impact_expect_effect(state_of(*old(counters), old(failures)@), *case, *report, cats),
{
    let name = case.name.as_str();
    let e = &case.expect;
    proof {
        reveal_strlit("status");
        reveal_strlit("confidence");
        reveal_strlit("impact_scope");
    }
    match e.status {
        Some(x) => check_value(name, "status", status_label(x), status_label(report.status), report.status == x, counters, failures),
        None => {},
    }
    match e.confidence {
        Some(x) => check_value(name, "confidence", confidence_label(x), confidence_label(report.confidence), report.confidence == x, counters, failures),
        None => {},
    }
    match e.impact_scope {
        Some(x) => check_value(name, "impact_scope", scope_label(x), scope_label(report.impact_scope), report.impact_scope == x, counters, failures),
        None => {},
    }
    let comps = names_of_impacted(&report.impacted_components);
    let cmds = names_of_recommended_commands(&report.recommended_commands);
    let tests = names_of_recommended_tests(&report.recommended_tests);
    let cats = warning_categories(&report.warnings);
    let fields = [
        "impacted_components_contains",
        "recommended_commands_contains",
        "recommended_tests_contains",
        "forbidden_impacted_components_contains",
        "forbidden_recommended_commands_contains",
        "forbidden_recommended_tests_contains",
    ];
    check_lists(name, e, &comps, &cmds, &tests, &cats, fields, counters, failures);
    assert(seq![fields[0]@, fields[1]@, fields[2]@, fields[3]@, fields[4]@, fields[5]@] =~= impact_fields());
    match e.max_impacted_components {
        Some(m) => check_max(name, m, report.impacted_components.len(), counters, failures),
        None => {},
    }
    assert(category_set_of(views(cats@), report.warnings@));
}

// ---------------------------------------------------------------------------
// Cases
// ---------------------------------------------------------------------------

/// What running a case gave: the inspection of its fixture, or the impact report for
/// its changed files.
pub enum CaseOutput {
    Inspect { graph: RepoInspection },
    Impact { report: ImpactReport },
}

/// The output of a case's first run, and whether a second run gave the same output.
pub struct CaseRun {
    pub output: CaseOutput,
    pub deterministic: bool,
}

/// The run is of the case's kind.
pub open spec fn run_fits(kind: EvalCaseKind, run: CaseRun) -> bool {
    match run.output {
        CaseOutput::Inspect { .. } => kind == EvalCaseKind::Inspect,
        CaseOutput::Impact { .. } => kind == EvalCaseKind::Impact,
    }
}

/// The warnings of a run's output.
pub open spec fn run_warnings(run: CaseRun) -> Seq<DetectionIssue> {
    match run.output {
        CaseOutput::Inspect { graph } => graph.warnings@,
        CaseOutput::Impact { report } => report.warnings@,
    }
}

/// All checks of a case: determinism, evidence, then the expectations.
pub open spec fn case_effect(st: EvalState, case: EvalCase, run: CaseRun, cats: Seq<Seq<char>>) -> EvalState {
    let n = case.name@;
    let s1 = deterministic_effect(st, n, run.deterministic);
    match run.output {
        CaseOutput::Inspect { graph } => {
            let s2 = evidence_effect(s1, n, "inspect"@, inspect_facts_backed(graph));
            inspect_expect_effect(s2, case, graph, cats)
        },
        CaseOutput::Impact { report } => {
            let s2 = evidence_effect(s1, n, "impact"@, impact_facts_backed(report));
            impact_expect_effect(s2, case, report, cats)
        },
    }
}

/// The failures of one case: those its checks record, from none.
pub open spec fn case_result_ok(before: EvalCounters, after: EvalCounters, case: EvalCase, run: CaseRun, r: EvalCaseResult) -> bool {
    &&& r.name@ == case.name@
    &&& r.kind == case.kind
    &&& r.passed == (r.failures@.len() == 0)
    &&& exists|cats: Seq<Seq<char>>| #[trigger] category_set_of(cats, run_warnings(run))
        && state_of(after, r.failures@) == case_effect(state_of(before, Seq::empty()), case, run, cats)
}

/// Evaluates one case on what its runs gave.
pub fn evaluate_case(case: &EvalCase, run: &CaseRun, counters: &mut EvalCounters) -> (r: EvalCaseResult)
    requires
        run_fits(case.kind, *run),
    ensures
        case_result_ok(*old(counters), *final(counters), *case, *run, r),
{
    let mut failures: Vec<EvalFailure> = Vec::new();
    let name = case.name.as_str();
    assert(failure_views(failures@) =~= Seq::<FailureText>::empty());
    check_deterministic(name, run.deterministic, counters, &mut failures);
    proof {
        reveal_strlit("inspect");
        reveal_strlit("impact");
    }
    match &run.output {
        CaseOutput::Inspect { graph } => {
            check_evidence(name, "inspect", inspect_evidence_valid(graph), counters, &mut failures);
            let ghost mid = state_of(*counters, failures@);
            check_inspect_expectations(case, graph, counters, &mut failures);
            proof {
                let cats = choose|cats: Seq<Seq<char>>| #[trigger] category_set_of(cats, graph.warnings@)
                    && state_of(*counters, failures@) == inspect_expect_effect(mid, *case, *graph, cats);
                assert(run_warnings(*run) == graph.warnings@);
                assert(category_set_of(cats, run_warnings(*run)));
            }
        },
        CaseOutput::Impact { report } => {
            check_evidence(name, "impact", impact_evidence_valid(report), counters, &mut failures);
            let ghost mid = state_of(*counters, failures@);
            check_impact_expectations(case, report, counters, &mut failures);
            proof {
                let cats = choose|cats: Seq<Seq<char>>| #[trigger] category_set_of(cats, report.warnings@)
                    && state_of(*counters, failures@) == impact_expect_effect(mid, *case, *report, cats);
                assert(run_warnings(*run) == report.warnings@);
                assert(category_set_of(cats, run_warnings(*run)));
            }
        },
    }
    let passed = failures.len() == 0;
    EvalCaseResult { name: owned(name), kind: case.kind, passed, failures }
}

/// The numbers and results of an evaluation run.
pub struct EvalTally {
    pub total_cases: usize,
    pub passed_cases: usize,
    pub failed_cases: usize,
    pub inspect_cases: usize,
    pub impact_cases: usize,
    pub counters: EvalCounters,
    pub cases: Vec<EvalCaseResult>,
    pub failures: Vec<EvalFailure>,
}

pub open spec fn passed_count(rs: Seq<EvalCaseResult>) -> nat
    decreases rs.len(),
{
    if rs.len() == 0 {
        0
    } else {
        passed_count(rs.drop_last()) + if rs.last().passed { 1nat } else { 0nat }
    }
}

pub open spec fn kind_count(cases: Seq<EvalCase>, kind: EvalCaseKind) -> nat
    decreases cases.len(),
{
    if cases.len() == 0 {
        0
    } else {
        kind_count(cases.drop_last(), kind) + if cases.last().kind == kind { 1nat } else { 0nat }
    }
}

/// The failures of the results, in order.
pub open spec fn all_failures(rs: Seq<EvalCaseResult>) -> Seq<FailureText>
    decreases rs.len(),
{
    if rs.len() == 0 {
        seq![]
    } else {
        all_failures(rs.drop_last()) + failure_views(rs.last().failures@)
    }
}

/// Each result is its case's, evaluated with the counters the earlier cases left.
pub open spec fn results_ok(cases: Seq<EvalCase>, runs: Seq<CaseRun>, rs: Seq<EvalCaseResult>, cs: Seq<EvalCounters>) -> bool {
    &&& rs.len() == cases.len()
    &&& cs.len() == cases.len() + 1
    &&& cs[0] == zero_counters()
    &&& forall|i: int| 0 <= i < cases.len() ==> #[trigger] case_result_ok(cs[i], cs[i + 1], cases[i], runs[i], rs[i])
}

/// Evaluates the cases, one run for each, in order.
pub fn evaluate_cases(cases: Vec<EvalCase>, runs: Vec<CaseRun>) -> (t: EvalTally)
    requires
        runs@.len() == cases@.len(),
        forall|i: int| 0 <= i < cases@.len() ==> #[trigger] run_fits(cases@[i].kind, runs@[i]),
    ensures
        t.total_cases == cases@.len(),
        t.passed_cases == passed_count(t.cases@),
        t.failed_cases == t.total_cases - t.passed_cases,
        t.inspect_cases == kind_count(cases@, EvalCaseKind::Inspect),
        t.impact_cases == kind_count(cases@, EvalCaseKind::Impact),
        failure_views(t.failures@) == all_failures(t.cases@),
        exists|cs: Seq<EvalCounters>| #[trigger] results_ok(cases@, runs@, t.cases@, cs) && cs.last() == t.counters,
{
    let mut counters = EvalCounters::new();
    let mut results: Vec<EvalCaseResult> = Vec::new();
    let mut failures: Vec<EvalFailure> = Vec::new();
    let mut inspect_cases: usize = 0;
    let mut impact_cases: usize = 0;
    let mut passed_cases: usize = 0;
    let ghost mut cs: Seq<EvalCounters> = seq![counters];
    let mut i: usize = 0;
    while i < cases.len()
        invariant
            i <= cases@.len(),
            runs@.len() == cases@.len(),
            forall|k: int| 0 <= k < cases@.len() ==> #[trigger] run_fits(cases@[k].kind, runs@[k]),
            results@.len() == i,
            cs.len() == i + 1,
            cs[0] == zero_counters(),
            cs[i as int] == counters,
            forall|k: int| 0 <= k < i ==> #[trigger] case_result_ok(cs[k], cs[k + 1], cases@[k], runs@[k], results@[k]),
            inspect_cases == kind_count(cases@.take(i as int), EvalCaseKind::Inspect),
            impact_cases == kind_count(cases@.take(i as int), EvalCaseKind::Impact),
            inspect_cases + impact_cases == i,
            passed_cases == passed_count(results@),
            passed_cases <= i,
            failure_views(failures@) == all_failures(results@),
        decreases cases@.len() - i,
    {
        let case = &cases[i];
        assert(cases@.take(i + 1).drop_last() =~= cases@.take(i as int));
        match case.kind {
            EvalCaseKind::Inspect => inspect_cases = inspect_cases + 1,
            EvalCaseKind::Impact => impact_cases = impact_cases + 1,
        }
        let ghost before = counters;
        let result = evaluate_case(case, &runs[i], &mut counters);
        proof {
            cs = cs.push(counters);
        }
        let mut k: usize = 0;
        let ghost f0 = failure_views(failures@);
        while k < result.failures.len()
            invariant
                k <= result.failures@.len(),
                failure_views(failures@) == f0 + failure_views(result.failures@.take(k as int)),
            decreases result.failures@.len() - k,
        {
            let f = &result.failures[k];
            let copy = EvalFailure {
                case_name: f.case_name.clone(),
                expected: f.expected.clone(),
                actual: f.actual.clone(),
                severity: f.severity.clone(),
                category: f.category.clone(),
            };
            assert(copy@ == f@);
            push_failure(&mut failures, copy);
            assert(failure_views(result.failures@.take(k + 1)) =~= failure_views(result.failures@.take(k as int)).push(f@));
            assert(failure_views(failures@) =~= f0 + failure_views(result.failures@.take(k + 1)));
            k = k + 1;
        }
        assert(result.failures@.take(result.failures@.len() as int) =~= result.failures@);
        if result.passed {
            passed_cases = passed_cases + 1;
        }
        let ghost rs0 = results@;
        results.push(result);
        proof {
            assert(results@.drop_last() =~= rs0);
            assert forall|k: int| 0 <= k < i + 1 implies #[trigger] case_result_ok(cs[k], cs[k + 1], cases@[k], runs@[k], results@[k]) by {
                if k < i {
                    assert(results@[k] == rs0[k]);
                }
            }
        }
        i = i + 1;
    }
    assert(cases@.take(cases@.len() as int) =~= cases@);
    assert(results_ok(cases@, runs@, results@, cs));
    assert(cs.last() == counters);
    let total_cases = results.len();
    let t = EvalTally {
        total_cases,
        passed_cases,
        failed_cases: total_cases - passed_cases,
        inspect_cases,
        impact_cases,
        counters,
        cases: results,
        failures,
    };
    assert(results_ok(cases@, runs@, t.cases@, cs) && cs.last() == t.counters);
    t
}

} // verus!
