//! Findings and reports: one finding per (rule, artifact) match, an ordered
//! finding list, per-severity counts, and a bounded aggregate risk score.
use vstd::prelude::*;
use vstd::seq_lib::*;

use crate::engine::{now_utc_seconds, Artifact, TargetOs};
use crate::rule::{spec_multiplier_tenths, spec_points, Confidence, Rule, Severity};
use crate::snapshot::SnapshotDelta;
use crate::strops::{
    dec_str, join_comma, join_comma_strings, lemma_lex_le_antisymmetric, lemma_lex_le_total,
    lemma_lex_le_transitive, lex_le, str_le, u64_to_string, views_of,
};

verus! {

/// The result of one rule matching one artifact: rule metadata copied next
/// to the artifact descriptors it fired on.
#[derive(Debug)]
pub struct Finding {
    pub rule_id: String,
    pub title: String,
    pub severity: Severity,
    pub confidence: Confidence,
    pub tags: Vec<String>,
    pub rationale: String,
    pub artifact_kind: String,
    pub source: String,
    pub name: String,
    pub command: Option<String>,
    pub path: Option<String>,
}

/// The mathematical content of a finding: every text field as a character
/// sequence.
pub struct FindingModel {
    pub rule_id: Seq<char>,
    pub title: Seq<char>,
    pub severity: Severity,
    pub confidence: Confidence,
    pub tags: Seq<Seq<char>>,
    pub rationale: Seq<char>,
    pub artifact_kind: Seq<char>,
    pub source: Seq<char>,
    pub name: Seq<char>,
    pub command: Option<Seq<char>>,
    pub path: Option<Seq<char>>,
}

/// An optional string as an optional character sequence.
pub open spec fn opt_view(o: Option<String>) -> Option<Seq<char>> {
    match o {
        Option::Some(s) => Option::Some(s@),
        Option::None => Option::None,
    }
}

impl View for Finding {
    type V = FindingModel;

    open spec fn view(&self) -> FindingModel {
        FindingModel {
            rule_id: self.rule_id@,
            title: self.title@,
            severity: self.severity,
            confidence: self.confidence,
            tags: views_of(self.tags@),
            rationale: self.rationale@,
            artifact_kind: self.artifact_kind@,
            source: self.source@,
            name: self.name@,
            command: opt_view(self.command),
            path: opt_view(self.path),
        }
    }
}

/// The finding a (rule, artifact) match produces.
pub open spec fn finding_of(rule: Rule, art: Artifact) -> FindingModel {
    FindingModel {
        rule_id: rule.id@,
        title: rule.title@,
        severity: rule.severity,
        confidence: rule.confidence,
        tags: views_of(rule.tags@),
        rationale: rule.rationale@,
        artifact_kind: art.kind@,
        source: art.source@,
        name: art.name@,
        command: opt_view(art.command),
        path: opt_view(art.path),
    }
}

/// The models of a list of findings.
pub open spec fn fmodels(s: Seq<Finding>) -> Seq<FindingModel> {
    s.map_values(|f: Finding| f@)
}

impl Finding {
    /// Copy rule metadata and artifact descriptors into a finding.
    pub fn from_match(rule: &Rule, art: &Artifact) -> (r: Self)
        ensures
            r@ == finding_of(*rule, *art),
    {
        Finding {
            rule_id: rule.id.clone(),
            title: rule.title.clone(),
            severity: rule.severity,
            confidence: rule.confidence,
            tags: crate::strops::clone_strings(&rule.tags),
            rationale: rule.rationale.clone(),
            artifact_kind: art.kind.clone(),
            source: art.source.clone(),
            name: art.name.clone(),
            command: crate::strops::clone_opt_string(&art.command),
            path: crate::strops::clone_opt_string(&art.path),
        }
    }

    /// The score of one finding, in tenths of a point: severity points times
    /// the confidence multiplier.
    pub fn score_tenths(&self) -> (r: u32)
        ensures
            r == score_tenths_model(self@),
    {
        (self.severity.points() as u32) * self.confidence.multiplier_tenths()
    }
}

/// Severity rank used for ordering findings: High above Medium above Low.
pub open spec fn spec_sev_rank(s: Severity) -> int {
    match s {
        Severity::High => 3,
        Severity::Medium => 2,
        Severity::Low => 1,
    }
}

fn sev_rank(s: Severity) -> (r: i32)
    ensures
        r == spec_sev_rank(s),
{
    match s {
        Severity::High => 3,
        Severity::Medium => 2,
        Severity::Low => 1,
    }
}

/// The report ordering of findings: severity descending and, within one
/// severity, rule id ascending.
pub open spec fn finding_le(a: FindingModel, b: FindingModel) -> bool {
    ||| spec_sev_rank(b.severity) < spec_sev_rank(a.severity)
    ||| (spec_sev_rank(a.severity) == spec_sev_rank(b.severity) && lex_le(a.rule_id, b.rule_id))
}

/// A finding list in report order.
pub open spec fn sorted_findings(s: Seq<FindingModel>) -> bool {
    forall|i: int, j: int| 0 <= i < j < s.len() ==> finding_le(#[trigger] s[i], #[trigger] s[j])
}

proof fn lemma_finding_le_total(a: FindingModel, b: FindingModel)
    ensures
        finding_le(a, b) || finding_le(b, a),
{
    lemma_lex_le_total(a.rule_id, b.rule_id);
}

proof fn lemma_finding_le_transitive(a: FindingModel, b: FindingModel, c: FindingModel)
    requires
        finding_le(a, b),
        finding_le(b, c),
    ensures
        finding_le(a, c),
{
    if spec_sev_rank(a.severity) == spec_sev_rank(b.severity) && spec_sev_rank(b.severity)
        == spec_sev_rank(c.severity) {
        lemma_lex_le_transitive(a.rule_id, b.rule_id, c.rule_id);
    }
}

fn finding_le_exec(a: &Finding, b: &Finding) -> (r: bool)
    ensures
        r == finding_le(a@, b@),
{
    let ra = sev_rank(a.severity);
    let rb = sev_rank(b.severity);
    if rb < ra {
        true
    } else if ra < rb {
        false
    } else {
        str_le(a.rule_id.as_str(), b.rule_id.as_str())
    }
}

fn sort_findings(mut findings: Vec<Finding>) -> (r: Vec<Finding>)
    ensures
        sorted_findings(fmodels(r@)),
        fmodels(r@).to_multiset() == fmodels(findings@).to_multiset(),
{
    let ghost orig = fmodels(findings@).to_multiset();
    let mut out: Vec<Finding> = Vec::new();
    proof {
        broadcast use vstd::seq_lib::group_to_multiset_ensures;

        assert(fmodels(out@) =~= Seq::<FindingModel>::empty());
        assert(fmodels(out@).to_multiset().add(fmodels(findings@).to_multiset()) =~= orig);
    }
    while findings.len() > 0
        invariant
            sorted_findings(fmodels(out@)),
            fmodels(out@).to_multiset().add(fmodels(findings@).to_multiset()) == orig,
        decreases findings@.len(),
    {
        let ghost pre = findings@;
        let x = findings.remove(0);
        proof {
            broadcast use vstd::seq_lib::group_to_multiset_ensures;

            assert(fmodels(pre.remove(0)) =~= fmodels(pre).remove(0));
            assert(fmodels(pre)[0] == x@);
            assert(fmodels(findings@).to_multiset() =~= fmodels(pre).to_multiset().remove(x@));
            assert(fmodels(pre).contains(x@));
        }
        // Insertion after all entries less-or-equal keeps the sort stable.
        let mut pos: usize = 0;
        while pos < out.len() && finding_le_exec(&out[pos], &x)
            invariant
                pos <= out@.len(),
                forall|k: int| 0 <= k < pos ==> finding_le(#[trigger] fmodels(out@)[k], x@),
            decreases out@.len() - pos,
        {
            proof {
                assert(fmodels(out@)[pos as int] == out@[pos as int]@);
            }
            pos = pos + 1;
        }
        proof {
            if pos < out@.len() {
                assert(fmodels(out@)[pos as int] == out@[pos as int]@);
                lemma_finding_le_total(out@[pos as int]@, x@);
            }
        }
        let ghost s = fmodels(out@);
        let ghost sv = out@;
        let ghost p = pos as int;
        out.insert(pos, x);
        proof {
            broadcast use vstd::seq_lib::group_to_multiset_ensures;

            sv.insert_ensures(p, x);
            s.insert_ensures(p, x@);
            assert(fmodels(out@) =~= s.insert(p, x@));
            to_multiset_insert(s, p, x@);
            assert(s.to_multiset().insert(x@).add(fmodels(pre).to_multiset().remove(x@)) =~= s
                .to_multiset().add(fmodels(pre).to_multiset()));
            let s2 = fmodels(out@);
            assert forall|i: int, j: int| 0 <= i < j < s2.len() implies finding_le(
                #[trigger] s2[i],
                #[trigger] s2[j],
            ) by {
                if j < p {
                } else if i < p && j == p {
                } else if i < p && j > p {
                    assert(s2[j] == s[j - 1]);
                } else if i == p {
                    assert(s2[j] == s[j - 1]);
                    if p < j - 1 {
                        lemma_finding_le_transitive(x@, s[p], s[j - 1]);
                    }
                } else {
                    assert(s2[i] == s[i - 1]);
                    assert(s2[j] == s[j - 1]);
                }
            }
        }
    }
    out
}

/// How many findings of a list carry the given severity.
pub open spec fn count_sev(s: Seq<FindingModel>, sev: Severity) -> nat {
    s.filter(|f: FindingModel| f.severity == sev).len()
}

/// The score of a finding in tenths of a point. With points 5/15/30 and
/// multiplier tenths 7/10/12, every value lies between 35 and 360.
pub open spec fn score_tenths_model(f: FindingModel) -> int {
    spec_points(f.severity) * spec_multiplier_tenths(f.confidence)
}

/// The total score of a finding list, in tenths of a point.
pub open spec fn sum_tenths(s: Seq<FindingModel>) -> int
    decreases s.len(),
{
    if s.len() == 0 {
        0
    } else {
        sum_tenths(s.drop_last()) + score_tenths_model(s.last())
    }
}

proof fn lemma_sum_tenths_bounds(s: Seq<FindingModel>)
    ensures
        0 <= sum_tenths(s) <= 360 * s.len(),
    decreases s.len(),
{
    if s.len() > 0 {
        lemma_sum_tenths_bounds(s.drop_last());
    }
}

/// The aggregate risk score for a given total in tenths: round half away
/// from zero to whole points, then clamp into [0, 100]. Totals are never
/// negative, so rounding is plain half-up and the lower clamp is a no-op.
pub open spec fn spec_risk_score(total: int) -> int
    recommends
        total >= 0,
{
    let rounded = (total + 5) / 10;
    if rounded > 100 {
        100
    } else {
        rounded
    }
}

/// The aggregate risk score lies in [0, 100] for every finite, non-negative
/// total; large totals saturate to 100 instead of overflowing.
pub proof fn lemma_risk_score_bounded(total: int)
    requires
        total >= 0,
    ensures
        0 <= spec_risk_score(total) <= 100,
{
}

/// Per-severity finding tallies.
#[derive(Debug, Clone, Copy, PartialEq, Eq, Structural)]
pub struct Counts {
    pub high: usize,
    pub medium: usize,
    pub low: usize,
}

impl Default for Counts {
    /// All tallies start at zero.
    fn default() -> (r: Self)
        ensures
            r.high == 0 && r.medium == 0 && r.low == 0,
    {
        Counts { high: 0, medium: 0, low: 0 }
    }
}

/// The top-level scan output: the ordered findings with their aggregate
/// score and tallies, the number of artifacts scanned, and, for diff runs
/// only, the delta the artifact list came from.
#[derive(Debug)]
pub struct Report {
    pub os: TargetOs,
    /// Unix seconds, UTC, captured when the report was built.
    pub generated_at_utc: i64,
    pub risk_score_0_100: i32,
    pub counts: Counts,
    pub findings: Vec<Finding>,
    pub artifacts_scanned: usize,
    pub delta: Option<SnapshotDelta>,
}

/// Everything `Report::new` promises: findings in report order and multiset-
/// preserved, tallies and risk score computed from them, the artifact count
/// recorded, no delta attached.
pub open spec fn report_built_from(
    r: Report,
    os: TargetOs,
    artifacts: Seq<Artifact>,
    findings: Seq<Finding>,
) -> bool {
    &&& r.os == os
    &&& sorted_findings(fmodels(r.findings@))
    &&& fmodels(r.findings@).to_multiset() == fmodels(findings).to_multiset()
    &&& r.counts.high == count_sev(fmodels(r.findings@), Severity::High)
    &&& r.counts.medium == count_sev(fmodels(r.findings@), Severity::Medium)
    &&& r.counts.low == count_sev(fmodels(r.findings@), Severity::Low)
    &&& r.risk_score_0_100 == spec_risk_score(sum_tenths(fmodels(r.findings@)))
    &&& 0 <= r.risk_score_0_100 <= 100
    &&& r.artifacts_scanned == artifacts.len()
    &&& r.delta is None
}

impl Report {
    /// Build a report: order the findings by severity descending then rule
    /// id ascending, tally them per severity, and compute the clamped risk
    /// score. The timestamp is the current UTC time.
    pub fn new(os: TargetOs, artifacts: Vec<Artifact>, findings: Vec<Finding>) -> (r: Self)
        ensures
            report_built_from(r, os, artifacts@, findings@),
    {
        let sorted = sort_findings(findings);
        let ghost m = fmodels(sorted@);

        let mut high: usize = 0;
        let mut medium: usize = 0;
        let mut low: usize = 0;
        let mut total: u128 = 0;
        let mut i: usize = 0;
        proof {
            reveal(Seq::filter);
            assert(m.take(0) =~= Seq::<FindingModel>::empty());
        }
        while i < sorted.len()
            invariant
                i <= sorted@.len(),
                m == fmodels(sorted@),
                high + medium + low == i,
                high == count_sev(m.take(i as int), Severity::High),
                medium == count_sev(m.take(i as int), Severity::Medium),
                low == count_sev(m.take(i as int), Severity::Low),
                total == sum_tenths(m.take(i as int)),
                total <= 360 * i,
            decreases sorted@.len() - i,
        {
            let f = &sorted[i];
            proof {
                reveal(Seq::filter);
                assert(m.take(i as int + 1).drop_last() =~= m.take(i as int));
                assert(m.take(i as int + 1).last() == f@);
            }
            match f.severity {
                Severity::High => {
                    high = high + 1;
                },
                Severity::Medium => {
                    medium = medium + 1;
                },
                Severity::Low => {
                    low = low + 1;
                },
            }
            let t = f.score_tenths();
            assert(t <= 360);
            total = total + t as u128;
            i = i + 1;
        }
        proof {
            assert(m.take(sorted@.len() as int) =~= m);
            lemma_sum_tenths_bounds(m);
        }
        let rounded: u128 = (total + 5) / 10;
        let score: i32 = if rounded > 100 {
            100
        } else {
            rounded as i32
        };
        Report {
            os,
            generated_at_utc: now_utc_seconds(),
            risk_score_0_100: score,
            counts: Counts { high, medium, low },
            artifacts_scanned: artifacts.len(),
            findings: sorted,
            delta: None,
        }
    }

    /// Attach the delta a diff run was scoped to; every other field stays.
    pub fn with_delta(self, delta: SnapshotDelta) -> (r: Self)
        ensures
            r.os == self.os,
            r.generated_at_utc == self.generated_at_utc,
            r.risk_score_0_100 == self.risk_score_0_100,
            r.counts == self.counts,
            r.findings == self.findings,
            r.artifacts_scanned == self.artifacts_scanned,
            r.delta == Some(delta),
    {
        Report {
            os: self.os,
            generated_at_utc: self.generated_at_utc,
            risk_score_0_100: self.risk_score_0_100,
            counts: self.counts,
            findings: self.findings,
            artifacts_scanned: self.artifacts_scanned,
            delta: Some(delta),
        }
    }
}

/// Wrap a scan's inputs into a report.
pub fn build_report(os: TargetOs, artifacts: Vec<Artifact>, findings: Vec<Finding>) -> (r: Report)
    ensures
        report_built_from(r, os, artifacts@, findings@),
{
    Report::new(os, artifacts, findings)
}

/// The display name of a severity.
pub open spec fn sev_label(s: Severity) -> Seq<char> {
    match s {
        Severity::High => "High"@,
        Severity::Medium => "Medium"@,
        Severity::Low => "Low"@,
    }
}

/// The display name of a confidence level.
pub open spec fn conf_label(c: Confidence) -> Seq<char> {
    match c {
        Confidence::High => "High"@,
        Confidence::Medium => "Medium"@,
        Confidence::Low => "Low"@,
    }
}

fn sev_label_str(s: Severity) -> (r: &'static str)
    ensures
        r@ == sev_label(s),
{
    match s {
        Severity::High => "High",
        Severity::Medium => "Medium",
        Severity::Low => "Low",
    }
}

fn conf_label_str(c: Confidence) -> (r: &'static str)
    ensures
        r@ == conf_label(c),
{
    match c {
        Confidence::High => "High",
        Confidence::Medium => "Medium",
        Confidence::Low => "Low",
    }
}

/// An optional labelled line of the finding block; absent fields render
/// nothing.
pub open spec fn opt_part(prefix: Seq<char>, o: Option<Seq<char>>) -> Seq<char> {
    match o {
        Option::Some(t) => prefix + t + "\n"@,
        Option::None => Seq::empty(),
    }
}

/// One finding block of the human-readable report: severity tag, rule id,
/// title, source, name, then optional command and path lines, then
/// confidence, comma-joined tags and rationale.
pub open spec fn render_finding(f: FindingModel) -> Seq<char> {
    "\n["@ + sev_label(f.severity) + "] "@ + f.rule_id + " ("@ + f.title + ")\n  Source: "@
        + f.source + "\n  Name: "@ + f.name + "\n"@ + opt_part("  Command: "@, f.command)
        + opt_part("  Path: "@, f.path) + "  Confidence: "@ + conf_label(f.confidence)
        + "   Tags: "@ + join_comma(f.tags) + "\n  Why: "@ + f.rationale + "\n"@
}

/// The finding blocks of a report, in list order.
pub open spec fn render_findings(s: Seq<FindingModel>) -> Seq<char>
    decreases s.len(),
{
    if s.len() == 0 {
        Seq::empty()
    } else {
        render_findings(s.drop_last()) + render_finding(s.last())
    }
}

/// The delta summary line; a report without a delta renders none.
pub open spec fn render_delta(d: Option<SnapshotDelta>) -> Seq<char> {
    match d {
        Option::Some(d) => "Delta: +"@ + dec_str(d.added@.len() as int) + " added, -"@ + dec_str(
            d.removed@.len() as int,
        ) + " removed\n"@,
        Option::None => Seq::empty(),
    }
}

/// The whole human-readable report: risk score line, finding tallies,
/// artifact count, the delta summary when one is attached, then one block
/// per finding.
pub open spec fn render_report(r: Report) -> Seq<char> {
    "Risk score: "@ + dec_str(r.risk_score_0_100 as int) + " / 100\nFindings: "@ + dec_str(
        r.counts.high as int,
    ) + " high, "@ + dec_str(r.counts.medium as int) + " medium, "@ + dec_str(r.counts.low as int)
        + " low\nArtifacts scanned: "@ + dec_str(r.artifacts_scanned as int) + "\n"@ + render_delta(
        r.delta,
    ) + render_findings(fmodels(r.findings@))
}

fn render_finding_exec(f: &Finding) -> (r: String)
    ensures
        r@ == render_finding(f@),
{
    let mut s = "\n[".to_owned();
    s.append(sev_label_str(f.severity));
    s.append("] ");
    s.append(f.rule_id.as_str());
    s.append(" (");
    s.append(f.title.as_str());
    s.append(")\n  Source: ");
    s.append(f.source.as_str());
    s.append("\n  Name: ");
    s.append(f.name.as_str());
    s.append("\n");
    match &f.command {
        Option::Some(c) => {
            s.append("  Command: ");
            s.append(c.as_str());
            s.append("\n");
        },
        Option::None => {},
    }
    match &f.path {
        Option::Some(p) => {
            s.append("  Path: ");
            s.append(p.as_str());
            s.append("\n");
        },
        Option::None => {},
    }
    s.append("  Confidence: ");
    s.append(conf_label_str(f.confidence));
    s.append("   Tags: ");
    let tags = join_comma_strings(&f.tags);
    s.append(tags.as_str());
    s.append("\n  Why: ");
    s.append(f.rationale.as_str());
    s.append("\n");
    proof {
        assert(s@ =~= render_finding(f@));
    }
    s
}

impl Report {
    /// Render the report in its human-readable text form. A report's risk
    /// score is never negative; rendering relies on that.
    pub fn to_human_readable(&self) -> (r: String)
        requires
            self.risk_score_0_100 >= 0,
        ensures
            r@ == render_report(*self),
    {
        let mut s = "Risk score: ".to_owned();
        let risk = u64_to_string(self.risk_score_0_100 as u64);
        s.append(risk.as_str());
        s.append(" / 100\nFindings: ");
        let h = u64_to_string(self.counts.high as u64);
        s.append(h.as_str());
        s.append(" high, ");
        let m = u64_to_string(self.counts.medium as u64);
        s.append(m.as_str());
        s.append(" medium, ");
        let l = u64_to_string(self.counts.low as u64);
        s.append(l.as_str());
        s.append(" low\nArtifacts scanned: ");
        let n = u64_to_string(self.artifacts_scanned as u64);
        s.append(n.as_str());
        s.append("\n");
        match &self.delta {
            Option::Some(d) => {
                s.append("Delta: +");
                let a = u64_to_string(d.added.len() as u64);
                s.append(a.as_str());
                s.append(" added, -");
                let rm = u64_to_string(d.removed.len() as u64);
                s.append(rm.as_str());
                s.append(" removed\n");
            },
            Option::None => {},
        }
        let ghost head = "Risk score: "@ + dec_str(self.risk_score_0_100 as int)
            + " / 100\nFindings: "@ + dec_str(self.counts.high as int) + " high, "@ + dec_str(
            self.counts.medium as int,
        ) + " medium, "@ + dec_str(self.counts.low as int) + " low\nArtifacts scanned: "@ + dec_str(
            self.artifacts_scanned as int,
        ) + "\n"@ + render_delta(self.delta);
        proof {
            assert(s@ =~= head);
        }
        let ghost fm = fmodels(self.findings@);
        let mut i: usize = 0;
        proof {
            assert(fm.take(0) =~= Seq::<FindingModel>::empty());
            assert(s@ =~= head + render_findings(fm.take(0)));
        }
        while i < self.findings.len()
            invariant
                i <= self.findings@.len(),
                fm == fmodels(self.findings@),
                head == "Risk score: "@ + dec_str(self.risk_score_0_100 as int)
                    + " / 100\nFindings: "@ + dec_str(self.counts.high as int) + " high, "@
                    + dec_str(self.counts.medium as int) + " medium, "@ + dec_str(
                    self.counts.low as int,
                ) + " low\nArtifacts scanned: "@ + dec_str(self.artifacts_scanned as int) + "\n"@
                    + render_delta(self.delta),
                s@ == head + render_findings(fm.take(i as int)),
            decreases self.findings@.len() - i,
        {
            let block = render_finding_exec(&self.findings[i]);
            s.append(block.as_str());
            proof {
                assert(fm.take(i as int + 1).drop_last() =~= fm.take(i as int));
                assert(fm.take(i as int + 1).last() == self.findings@[i as int]@);
                assert(s@ =~= head + render_findings(fm.take(i as int + 1)));
            }
            i = i + 1;
        }
        proof {
            assert(fm.take(self.findings@.len() as int) =~= fm);
        }
        s
    }
}

} // verus!
