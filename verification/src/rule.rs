//! Declarative detection rules: match criteria plus severity/confidence
//! metadata. Rules are loaded and pre-sorted by id by the caller; the core
//! treats them as immutable values.
use vstd::prelude::*;

verus! {

/// How serious a matched artifact is considered.
#[derive(Debug, Clone, Copy, PartialEq, Eq, Structural)]
pub enum Severity {
    Low,
    Medium,
    High,
}

/// How confident the rule author is that a match is a real signal.
#[derive(Debug, Clone, Copy, PartialEq, Eq, Structural)]
pub enum Confidence {
    Low,
    Medium,
    High,
}

/// Which artifact kind a rule applies to; `scope` is reserved and unused by
/// matching.
#[derive(Debug, Clone)]
pub struct Check {
    pub kind: String,
    pub scope: Option<String>,
}

/// The five optional criteria lists of a rule. All lists are OR'ed: any one
/// satisfied entry makes the rule match. A rule with no entries at all is a
/// catch-all for its kind: it matches every artifact of that kind. Rule
/// authors must keep this default-match-all policy in mind: an accidentally
/// empty match block flags every artifact of the kind.
#[derive(Debug, Clone)]
pub struct Match {
    pub any_path_contains: Vec<String>,
    pub any_path_prefix: Vec<String>,
    pub any_command_contains: Vec<String>,
    pub regex_command: Vec<String>,
    pub regex_path: Vec<String>,
}

/// A declarative detection unit.
#[derive(Debug, Clone)]
pub struct Rule {
    pub id: String,
    pub title: String,
    pub os: String,
    pub severity: Severity,
    pub confidence: Confidence,
    pub tags: Vec<String>,
    pub rationale: String,
    pub check: Check,
    pub matching: Match,
}

/// Severity points used by scoring: Low = 5, Medium = 15, High = 30.
pub open spec fn spec_points(s: Severity) -> int {
    match s {
        Severity::Low => 5,
        Severity::Medium => 15,
        Severity::High => 30,
    }
}

/// Confidence multiplier in tenths: Low = 0.7, Medium = 1.0, High = 1.2.
/// Scores are carried in tenths of a point so that all arithmetic is exact.
pub open spec fn spec_multiplier_tenths(c: Confidence) -> int {
    match c {
        Confidence::Low => 7,
        Confidence::Medium => 10,
        Confidence::High => 12,
    }
}

impl Severity {
    /// Base points contributed by a finding of this severity.
    pub fn points(self) -> (r: i32)
        ensures
            r == spec_points(self),
    {
        match self {
            Severity::Low => 5,
            Severity::Medium => 15,
            Severity::High => 30,
        }
    }
}

impl Confidence {
    /// Score multiplier for this confidence, in tenths (7 means 0.7).
    pub fn multiplier_tenths(self) -> (r: u32)
        ensures
            r == spec_multiplier_tenths(self),
    {
        match self {
            Confidence::Low => 7,
            Confidence::Medium => 10,
            Confidence::High => 12,
        }
    }
}

} // verus!
