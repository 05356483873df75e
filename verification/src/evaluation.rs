pub mod checks;
pub mod render;
pub mod run;

use vstd::prelude::*;

use crate::repo_graph::types::{ImpactConfidence, ImpactScope, ImpactStatus};

verus! {

pub const EVAL_CONTRACT_VERSION: &'static str = "0.1";

#[derive(Debug, Clone, Copy, PartialEq, Eq, Structural)]
pub enum EvalCaseKind {
    Inspect,
    Impact,
}

/// A fixture-based evaluation case: a repository, what to run on it, and what the
/// output is expected to hold.
#[derive(Debug, Clone, PartialEq, Eq)]
pub struct EvalCase {
    pub name: String,
    pub fixture: String,
    pub kind: EvalCaseKind,
    pub changed_files: Vec<String>,
    pub expect: EvalExpect,
}

/// Expected facts: values that must match, items that must (or must not) appear,
/// warning categories that must (or must not) be reported, and an upper bound.
#[derive(Debug, Clone, PartialEq, Eq)]
pub struct EvalExpect {
    pub status: Option<ImpactStatus>,
    pub confidence: Option<ImpactConfidence>,
    pub impact_scope: Option<ImpactScope>,
    pub components_contains: Vec<String>,
    pub commands_contains: Vec<String>,
    pub tests_contains: Vec<String>,
    pub warnings_contains_categories: Vec<String>,
    pub warnings_not_contains_categories: Vec<String>,
    pub forbidden_components_contains: Vec<String>,
    pub forbidden_commands_contains: Vec<String>,
    pub forbidden_tests_contains: Vec<String>,
    pub max_impacted_components: Option<usize>,
}

impl Default for EvalExpect {
    fn default() -> (r: Self)
        ensures
            r.status is None,
            r.confidence is None,
            r.impact_scope is None,
            r.components_contains@.len() == 0,
            r.commands_contains@.len() == 0,
            r.tests_contains@.len() == 0,
            r.warnings_contains_categories@.len() == 0,
            r.warnings_not_contains_categories@.len() == 0,
            r.forbidden_components_contains@.len() == 0,
            r.forbidden_commands_contains@.len() == 0,
            r.forbidden_tests_contains@.len() == 0,
            r.max_impacted_components is None,
    {
        EvalExpect {
            status: None,
            confidence: None,
            impact_scope: None,
            components_contains: Vec::new(),
            commands_contains: Vec::new(),
            tests_contains: Vec::new(),
            warnings_contains_categories: Vec::new(),
            warnings_not_contains_categories: Vec::new(),
            forbidden_components_contains: Vec::new(),
            forbidden_commands_contains: Vec::new(),
            forbidden_tests_contains: Vec::new(),
            max_impacted_components: None,
        }
    }
}

#[derive(Debug, Clone, PartialEq, Eq)]
pub struct EvalCaseResult {
    pub name: String,
    pub kind: EvalCaseKind,
    pub passed: bool,
    pub failures: Vec<EvalFailure>,
}

#[derive(Debug, Clone, PartialEq, Eq)]
pub struct EvalFailure {
    pub case_name: String,
    pub expected: String,
    pub actual: String,
    pub severity: String,
    pub category: String,
}

/// What the checks of a run have counted so far.
#[derive(Debug, Clone, Copy, PartialEq, Eq, Structural)]
pub struct EvalCounters {
    pub evidence_cases: usize,
    pub evidence_passed: usize,
    pub deterministic_cases: usize,
    pub deterministic_passed: usize,
    pub expected_checks: usize,
    pub expected_checks_passed: usize,
    pub unexpected_warning_count: usize,
    pub missing_expected_warning_count: usize,
    pub false_broad_count: usize,
    pub false_narrow_count: usize,
}

impl EvalCounters {
    pub fn new() -> (r: Self)
        ensures
            r == zero_counters(),
    {
        EvalCounters {
            evidence_cases: 0,
            evidence_passed: 0,
            deterministic_cases: 0,
            deterministic_passed: 0,
            expected_checks: 0,
            expected_checks_passed: 0,
            unexpected_warning_count: 0,
            missing_expected_warning_count: 0,
            false_broad_count: 0,
            false_narrow_count: 0,
        }
    }
}

pub open spec fn zero_counters() -> EvalCounters {
    EvalCounters {
        evidence_cases: 0,
        evidence_passed: 0,
        deterministic_cases: 0,
        deterministic_passed: 0,
        expected_checks: 0,
        expected_checks_passed: 0,
        unexpected_warning_count: 0,
        missing_expected_warning_count: 0,
        false_broad_count: 0,
        false_narrow_count: 0,
    }
}

/// The texts of a failure.
pub struct FailureText {
    pub case_name: Seq<char>,
    pub expected: Seq<char>,
    pub actual: Seq<char>,
    pub severity: Seq<char>,
    pub category: Seq<char>,
}

impl View for EvalFailure {
    type V = FailureText;

    open spec fn view(&self) -> FailureText {
        FailureText {
            case_name: self.case_name@,
            expected: self.expected@,
            actual: self.actual@,
            severity: self.severity@,
            category: self.category@,
        }
    }
}

pub open spec fn failure_views(v: Seq<EvalFailure>) -> Seq<FailureText> {
    v.map_values(|f: EvalFailure| f@)
}

/// The failure recorded for a check of `field` that expected `value` and saw `actual`.
pub open spec fn failure_text(case_name: Seq<char>, field: Seq<char>, value: Seq<char>, actual: Seq<char>, category: Seq<char>) -> FailureText {
    FailureText { case_name, expected: field + ": "@ + value, actual, severity: "error"@, category }
}

/// One more, unless the count is already at its largest.
pub open spec fn inc(x: usize) -> usize {
    if x == usize::MAX {
        x
    } else {
        (x + 1) as usize
    }
}

/// The name `Debug` gives an impact status.
pub open spec fn status_name(s: ImpactStatus) -> Seq<char> {
    match s {
        ImpactStatus::Complete => "Ok"@,
        ImpactStatus::Partial => "Partial"@,
        ImpactStatus::InsufficientEvidence => "InsufficientEvidence"@,
    }
}

pub open spec fn confidence_name(c: ImpactConfidence) -> Seq<char> {
    match c {
        ImpactConfidence::High => "High"@,
        ImpactConfidence::Medium => "Medium"@,
        ImpactConfidence::Low => "Low"@,
        ImpactConfidence::Insufficient => "Insufficient"@,
    }
}

pub open spec fn scope_name(s: ImpactScope) -> Seq<char> {
    match s {
        ImpactScope::Targeted => "Targeted"@,
        ImpactScope::Broad => "Broad"@,
        ImpactScope::Mixed => "Mixed"@,
        ImpactScope::Unknown => "Unknown"@,
    }
}

} // verus!
