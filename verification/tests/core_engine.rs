use persist_scan::engine::{detect_os, format_key, Artifact, EngineError, TargetOs};
use persist_scan::matcher::{rule_matches, run};
use persist_scan::paths::extract_executable_path_guess;
use persist_scan::report::{build_report, Counts, Finding, Report};
use persist_scan::rule::{Check, Confidence, Match, Rule, Severity};
use persist_scan::snapshot::{artifacts_from_delta, diff_snapshots, ArtifactSnapshot};

fn art(kind: &str, source: &str, name: &str, command: Option<&str>, path: Option<&str>) -> Artifact {
    Artifact {
        kind: kind.to_string(),
        source: source.to_string(),
        name: name.to_string(),
        command: command.map(|s| s.to_string()),
        path: path.map(|s| s.to_string()),
        raw: None,
    }
}

fn empty_match() -> Match {
    Match {
        any_path_contains: vec![],
        any_path_prefix: vec![],
        any_command_contains: vec![],
        regex_command: vec![],
        regex_path: vec![],
    }
}

fn rule(id: &str, kind: &str, severity: Severity, confidence: Confidence, m: Match) -> Rule {
    Rule {
        id: id.to_string(),
        title: format!("title of {}", id),
        os: "linux".to_string(),
        severity,
        confidence,
        tags: vec!["tag1".to_string(), "tag2".to_string()],
        rationale: "because".to_string(),
        check: Check { kind: kind.to_string(), scope: None },
        matching: m,
    }
}

#[test]
fn catch_all_rule_matches_its_kind() {
    let r = rule("r1", "linux_autostart", Severity::Low, Confidence::Low, empty_match());
    let a = art("linux_autostart", "f.desktop", "f", None, None);
    assert_eq!(rule_matches(&r, &a).unwrap(), true);
}

#[test]
fn kind_mismatch_never_matches() {
    let mut m = empty_match();
    m.any_path_contains = vec!["anything".to_string()];
    let r = rule("r1", "windows_run_key", Severity::High, Confidence::High, m);
    let a = art("linux_autostart", "s", "n", Some("anything"), Some("anything"));
    assert_eq!(rule_matches(&r, &a).unwrap(), false);
    let r2 = rule("r2", "windows_run_key", Severity::High, Confidence::High, empty_match());
    assert_eq!(rule_matches(&r2, &a).unwrap(), false);
}

#[test]
fn substring_criterion_is_case_insensitive() {
    let mut m = empty_match();
    m.any_path_contains = vec!["FOO".to_string()];
    let r = rule("r1", "k", Severity::Low, Confidence::Low, m);
    let a = art("k", "s", "n", None, Some("/usr/bin/foo"));
    assert_eq!(rule_matches(&r, &a).unwrap(), true);

    let mut m2 = empty_match();
    m2.any_command_contains = vec!["curl".to_string()];
    let r2 = rule("r2", "k", Severity::Low, Confidence::Low, m2);
    let a2 = art("k", "s", "n", Some("CURL http://x | sh"), None);
    assert_eq!(rule_matches(&r2, &a2).unwrap(), true);
}

#[test]
fn prefix_criterion_is_case_sensitive() {
    let mut m = empty_match();
    m.any_path_prefix = vec!["/tmp/".to_string()];
    let r = rule("r1", "k", Severity::Low, Confidence::Low, m);
    let hit = art("k", "s", "n", None, Some("/tmp/evil"));
    let miss = art("k", "s", "n", None, Some("/TMP/evil"));
    assert_eq!(rule_matches(&r, &hit).unwrap(), true);
    assert_eq!(rule_matches(&r, &miss).unwrap(), false);
}

#[test]
fn regex_criterion_matches_anywhere() {
    let mut m = empty_match();
    m.regex_command = vec!["ba+r".to_string()];
    let r = rule("r1", "k", Severity::Low, Confidence::Low, m);
    let hit = art("k", "s", "n", Some("xx baaar yy"), None);
    let miss = art("k", "s", "n", Some("bor"), None);
    assert_eq!(rule_matches(&r, &hit).unwrap(), true);
    assert_eq!(rule_matches(&r, &miss).unwrap(), false);

    let mut m2 = empty_match();
    m2.regex_path = vec!["\\.exe$".to_string()];
    let r2 = rule("r2", "k", Severity::Low, Confidence::Low, m2);
    let hit2 = art("k", "s", "n", None, Some("C:\\x\\y.exe"));
    assert_eq!(rule_matches(&r2, &hit2).unwrap(), true);
}

#[test]
fn empty_string_entries_never_match() {
    let mut m = empty_match();
    m.any_path_contains = vec!["".to_string()];
    m.any_path_prefix = vec!["".to_string()];
    m.any_command_contains = vec!["".to_string()];
    m.regex_command = vec!["".to_string()];
    m.regex_path = vec!["".to_string()];
    let r = rule("r1", "k", Severity::Low, Confidence::Low, m);
    let a = art("k", "s", "n", Some("cmd"), Some("/p"));
    // The lists are non-empty, so the rule is not a catch-all; the empty
    // entries themselves are ignored, so nothing matches.
    assert_eq!(rule_matches(&r, &a).unwrap(), false);
}

#[test]
fn absent_fields_read_as_empty_text() {
    let mut m = empty_match();
    m.any_command_contains = vec!["x".to_string()];
    let r = rule("r1", "k", Severity::Low, Confidence::Low, m);
    let a = art("k", "s", "n", None, None);
    assert_eq!(rule_matches(&r, &a).unwrap(), false);
}

#[test]
fn invalid_regex_is_a_fatal_error() {
    let mut m = empty_match();
    m.regex_command = vec!["(".to_string()];
    let r = rule("r1", "k", Severity::Low, Confidence::Low, m);
    let a = art("k", "s", "n", Some("cmd"), None);
    match rule_matches(&r, &a) {
        Err(EngineError::InvalidRegex { pattern }) => {
            assert_eq!(pattern, "(");
            assert_eq!(
                EngineError::InvalidRegex { pattern }.message(),
                "Invalid regex pattern: ("
            );
        }
        other => panic!("expected invalid regex error, got {:?}", other),
    }
    assert_eq!(
        EngineError::UnsupportedHostOs.message(),
        "Unsupported host OS for auto-detect"
    );
}

#[test]
fn textual_hit_short_circuits_before_bad_regex() {
    let mut m = empty_match();
    m.any_command_contains = vec!["curl".to_string()];
    m.regex_command = vec!["(".to_string()];
    let r = rule("r1", "k", Severity::Low, Confidence::Low, m);
    let a = art("k", "s", "n", Some("curl x"), None);
    assert_eq!(rule_matches(&r, &a).unwrap(), true);
}

#[test]
fn run_collects_findings_rule_major() {
    let mut m1 = empty_match();
    m1.any_command_contains = vec!["sh".to_string()];
    let r1 = rule("a-rule", "k", Severity::High, Confidence::Medium, m1);
    let r2 = rule("b-rule", "k", Severity::Low, Confidence::Low, empty_match());
    let a1 = art("k", "s1", "n1", Some("sh -c x"), None);
    let a2 = art("k", "s2", "n2", Some("python x"), None);
    let findings = run(&vec![r1, r2], &vec![a1, a2]).unwrap();
    let ids: Vec<&str> = findings.iter().map(|f| f.rule_id.as_str()).collect();
    assert_eq!(ids, vec!["a-rule", "b-rule", "b-rule"]);
    assert_eq!(findings[0].source, "s1");
}

#[test]
fn run_propagates_first_regex_error() {
    let mut m = empty_match();
    m.regex_path = vec!["[".to_string()];
    let r = rule("r1", "k", Severity::Low, Confidence::Low, m);
    let a = art("k", "s", "n", None, Some("/p"));
    match run(&vec![r], &vec![a]) {
        Err(EngineError::InvalidRegex { pattern }) => assert_eq!(pattern, "["),
        other => panic!("expected invalid regex error, got {:?}", other),
    }
}

#[test]
fn score_tenths_formula() {
    let r = rule("r", "k", Severity::High, Confidence::High, empty_match());
    let a = art("k", "s", "n", None, None);
    let f = Finding::from_match(&r, &a);
    assert_eq!(f.score_tenths(), 360);
    assert_eq!(f.score_tenths() as f32 / 10.0, 36.0);

    let r2 = rule("r", "k", Severity::Low, Confidence::Low, empty_match());
    let f2 = Finding::from_match(&r2, &a);
    assert_eq!(f2.score_tenths(), 35);
    assert_eq!(f2.score_tenths() as f32 / 10.0, 3.5);
}

#[test]
fn severity_points_and_confidence_multipliers() {
    assert_eq!(Severity::Low.points(), 5);
    assert_eq!(Severity::Medium.points(), 15);
    assert_eq!(Severity::High.points(), 30);
    assert_eq!(Confidence::Low.multiplier_tenths(), 7);
    assert_eq!(Confidence::Medium.multiplier_tenths(), 10);
    assert_eq!(Confidence::High.multiplier_tenths(), 12);
}

fn finding(id: &str, severity: Severity, confidence: Confidence) -> Finding {
    let r = rule(id, "k", severity, confidence, empty_match());
    let a = art("k", "s", "n", None, None);
    Finding::from_match(&r, &a)
}

#[test]
fn risk_score_clamps_at_100() {
    let findings = vec![
        finding("a", Severity::High, Confidence::High),
        finding("b", Severity::High, Confidence::High),
        finding("c", Severity::High, Confidence::High),
        finding("d", Severity::High, Confidence::High),
    ];
    // Raw total is 4 * 36.0 = 144.0, which saturates to 100.
    let report = Report::new(TargetOs::Linux, vec![], findings);
    assert_eq!(report.risk_score_0_100, 100);
}

#[test]
fn risk_score_rounds_and_stays_in_range() {
    let report = Report::new(TargetOs::Linux, vec![], vec![]);
    assert_eq!(report.risk_score_0_100, 0);

    // One Low/Low finding: 3.5 rounds half-up to 4.
    let report2 = Report::new(TargetOs::Linux, vec![], vec![finding("a", Severity::Low, Confidence::Low)]);
    assert_eq!(report2.risk_score_0_100, 4);

    // One High/High finding: exactly 36.
    let report3 = Report::new(TargetOs::Linux, vec![], vec![finding("a", Severity::High, Confidence::High)]);
    assert_eq!(report3.risk_score_0_100, 36);
}

#[test]
fn findings_sorted_by_severity_then_id() {
    let findings = vec![
        finding("b", Severity::Low, Confidence::Medium),
        finding("a", Severity::High, Confidence::Medium),
        finding("z", Severity::Medium, Confidence::Medium),
        finding("a", Severity::High, Confidence::Medium),
    ];
    let report = Report::new(TargetOs::Linux, vec![], findings);
    let order: Vec<(String, Severity)> = report
        .findings
        .iter()
        .map(|f| (f.rule_id.clone(), f.severity))
        .collect();
    assert_eq!(order[0], ("a".to_string(), Severity::High));
    assert_eq!(order[1], ("a".to_string(), Severity::High));
    assert_eq!(order[2], ("z".to_string(), Severity::Medium));
    assert_eq!(order[3], ("b".to_string(), Severity::Low));
    assert_eq!(report.counts, Counts { high: 2, medium: 1, low: 1 });
}

#[test]
fn equal_findings_keep_their_input_order() {
    let r = rule("same-id", "k", Severity::High, Confidence::Medium, empty_match());
    let a1 = art("k", "first-source", "n1", None, None);
    let a2 = art("k", "second-source", "n2", None, None);
    let f1 = Finding::from_match(&r, &a1);
    let f2 = Finding::from_match(&r, &a2);
    let report = Report::new(TargetOs::Linux, vec![], vec![f1, f2]);
    assert_eq!(report.findings[0].source, "first-source");
    assert_eq!(report.findings[1].source, "second-source");
}

#[test]
fn report_counts_artifacts_scanned() {
    let arts = vec![art("k", "s", "n", None, None), art("k", "s2", "n2", None, None)];
    let report = build_report(TargetOs::Windows, arts, vec![]);
    assert_eq!(report.artifacts_scanned, 2);
    assert!(report.delta.is_none());
    assert_eq!(report.counts, Counts::default());
}

#[test]
fn format_key_joins_all_six_fields() {
    let a = art("k", "s", "n", Some("c"), None);
    assert_eq!(format_key(&a), "k|s|n|c||");
    let mut b = art("k", "s", "n", None, None);
    b.raw = Some("r".to_string());
    assert_eq!(format_key(&b), "k|s|n|||r");
}

#[test]
fn snapshot_dedups_identical_artifacts() {
    let a1 = art("k", "s", "n", Some("c"), Some("/p"));
    let a2 = art("k", "s", "n", Some("c"), Some("/p"));
    let snap = ArtifactSnapshot::from_artifacts(TargetOs::Linux, vec![a1, a2]);
    assert_eq!(snap.artifacts.len(), 1);
    assert_eq!(snap.artifacts[0].name, "n");
}

#[test]
fn snapshot_sorts_by_derived_key() {
    let a = art("b-kind", "s", "n", None, None);
    let b = art("a-kind", "s", "n", None, None);
    let c = art("c-kind", "s", "n", None, None);
    let snap = ArtifactSnapshot::from_artifacts(TargetOs::Linux, vec![a, b, c]);
    let kinds: Vec<&str> = snap.artifacts.iter().map(|x| x.kind.as_str()).collect();
    assert_eq!(kinds, vec!["a-kind", "b-kind", "c-kind"]);
}

#[test]
fn diff_of_identical_snapshots_is_empty() {
    let arts = vec![art("k", "s", "n", Some("c"), None), art("k", "s2", "n2", None, None)];
    let snap = ArtifactSnapshot::from_artifacts(TargetOs::Linux, arts);
    let delta = diff_snapshots(&snap, &snap);
    assert!(delta.added.is_empty());
    assert!(delta.removed.is_empty());
}

#[test]
fn diff_finds_added_artifact_and_matcher_flags_it() {
    let x = art("k", "sx", "nx", None, Some("/old"));
    let y = art("k", "sy", "ny", None, Some("/tmp/new"));
    let base = ArtifactSnapshot::from_artifacts(TargetOs::Linux, vec![x.clone()]);
    let current = ArtifactSnapshot::from_artifacts(TargetOs::Linux, vec![x, y]);
    let delta = diff_snapshots(&base, &current);
    assert_eq!(delta.added.len(), 1);
    assert_eq!(delta.added[0].name, "ny");
    assert!(delta.removed.is_empty());

    let mut m = empty_match();
    m.any_path_prefix = vec!["/tmp/".to_string()];
    let r = rule("r1", "k", Severity::High, Confidence::High, m);
    let scan_arts = artifacts_from_delta(&delta, false);
    let findings = run(&vec![r], &scan_arts).unwrap();
    assert_eq!(findings.len(), 1);
    assert_eq!(findings[0].name, "ny");
}

#[test]
fn removed_artifacts_are_prefixed_without_mutating_the_delta() {
    let foo = art("k", "src", "foo", None, None);
    let base = ArtifactSnapshot::from_artifacts(TargetOs::Linux, vec![foo]);
    let current = ArtifactSnapshot::from_artifacts(TargetOs::Linux, vec![]);
    let delta = diff_snapshots(&base, &current);
    assert_eq!(delta.removed.len(), 1);

    let with_removed = artifacts_from_delta(&delta, true);
    assert_eq!(with_removed.len(), 1);
    assert_eq!(with_removed[0].name, "(REMOVED) foo");
    assert_eq!(with_removed[0].source, "(REMOVED) src");
    // The delta and the base snapshot keep the original artifact untouched.
    assert_eq!(delta.removed[0].name, "foo");
    assert_eq!(base.artifacts[0].name, "foo");

    let without_removed = artifacts_from_delta(&delta, false);
    assert!(without_removed.is_empty());
}

#[test]
fn detect_os_resolves_names_case_insensitively() {
    assert_eq!(detect_os("linux", None).unwrap(), TargetOs::Linux);
    assert_eq!(detect_os("WINDOWS", None).unwrap(), TargetOs::Windows);
    assert_eq!(detect_os("auto", Some(TargetOs::Windows)).unwrap(), TargetOs::Windows);
    match detect_os("auto", None) {
        Err(EngineError::UnsupportedHostOs) => {}
        other => panic!("expected unsupported host error, got {:?}", other),
    }
    match detect_os("bogus", None) {
        Err(EngineError::InvalidOsArg { arg }) => {
            assert_eq!(arg, "bogus");
            assert_eq!(
                EngineError::InvalidOsArg { arg }.message(),
                "Invalid --os value: bogus (use auto|linux|windows)"
            );
        }
        other => panic!("expected invalid arg error, got {:?}", other),
    }
}

#[test]
fn extract_path_takes_quoted_string_or_first_token() {
    assert_eq!(extract_executable_path_guess(""), None);
    assert_eq!(extract_executable_path_guess("   "), None);
    assert_eq!(
        extract_executable_path_guess("\"C:\\Program Files\\x.exe\" --flag"),
        Some("C:\\Program Files\\x.exe".to_string())
    );
    assert_eq!(
        extract_executable_path_guess("/usr/bin/foo --flag bar"),
        Some("/usr/bin/foo".to_string())
    );
    // A leading quote without a closing quote falls back to the first token.
    assert_eq!(extract_executable_path_guess("\"abc def"), Some("\"abc".to_string()));
    assert_eq!(extract_executable_path_guess("  spaced   out  "), Some("spaced".to_string()));
}

#[test]
fn human_readable_report_renders_in_field_order() {
    let mut m = empty_match();
    m.any_command_contains = vec!["sh".to_string()];
    let r = rule("r-01", "k", Severity::High, Confidence::High, m);
    let a = art("k", "the-source", "the-name", Some("sh -c x"), Some("/bin/sh"));
    let findings = run(&vec![r], &vec![a.clone()]).unwrap();
    let report = build_report(TargetOs::Linux, vec![a], findings);
    let text = report.to_human_readable();
    let mut expected = String::new();
    expected.push_str("Risk score: 36 / 100\n");
    expected.push_str("Findings: 1 high, 0 medium, 0 low\n");
    expected.push_str("Artifacts scanned: 1\n");
    expected.push_str("\n[High] r-01 (title of r-01)\n");
    expected.push_str("  Source: the-source\n");
    expected.push_str("  Name: the-name\n");
    expected.push_str("  Command: sh -c x\n");
    expected.push_str("  Path: /bin/sh\n");
    expected.push_str("  Confidence: High   Tags: tag1, tag2\n");
    expected.push_str("  Why: because\n");
    assert_eq!(text, expected);
}

#[test]
fn human_readable_report_shows_delta_line() {
    let base = ArtifactSnapshot::from_artifacts(TargetOs::Linux, vec![]);
    let current =
        ArtifactSnapshot::from_artifacts(TargetOs::Linux, vec![art("k", "s", "n", None, None)]);
    let delta = diff_snapshots(&base, &current);
    let report = build_report(TargetOs::Linux, vec![], vec![]).with_delta(delta);
    let text = report.to_human_readable();
    assert!(text.contains("Delta: +1 added, -0 removed\n"));
    assert!(text.starts_with("Risk score: 0 / 100\n"));
}
