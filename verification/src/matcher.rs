//! The declarative matcher: decides whether a rule applies to an artifact,
//! and runs a rule set over an artifact set to produce findings.
//!
//! A rule matches an artifact of its kind when any single entry of its five
//! criteria lists is satisfied; a rule with no criteria at all matches every
//! artifact of its kind. An invalid regex pattern is a configuration error
//! that fails the whole evaluation, never a silent non-match.
use vstd::prelude::*;

use crate::engine::{opt_text, Artifact, EngineError};
use crate::report::{finding_of, fmodels, Finding, FindingModel};
use crate::rule::{Match, Rule};
use crate::strops::{lower_of, seq_contains, str_contains, str_eq, str_starts_with, to_lowercase};

verus! {

/// Whether the given pattern is a valid regular expression, i.e. whether
/// regex::Regex::new accepts it; a function of the pattern alone.
pub uninterp spec fn regex_valid(pat: Seq<char>) -> bool;

/// Whether the regular expression `pat` matches anywhere inside `text`;
/// a function of pattern and text alone.
pub uninterp spec fn regex_is_match(pat: Seq<char>, text: Seq<char>) -> bool;

/// Relies on regex::Regex::new (pattern compilation succeeds iff the pattern
/// is valid) and regex::Regex::is_match (search anywhere in the text). The
/// pattern is compiled fresh on every call, as the evaluation semantics
/// demand; a cache would be a pure optimization.
#[verifier::external_body]
fn regex_any_match(pat: &str, text: &str) -> (r: Option<bool>)
    ensures
        r is Some <==> regex_valid(pat@),
        r matches Some(b) ==> b == regex_is_match(pat@, text@),
{
    match regex::Regex::new(pat) {
        Ok(re) => Some(re.is_match(text)),
        Err(_) => None,
    }
}

/// Whether a rule defines any matching criterion at all.
pub open spec fn has_criteria(m: Match) -> bool {
    ||| m.any_path_contains@.len() > 0
    ||| m.any_path_prefix@.len() > 0
    ||| m.any_command_contains@.len() > 0
    ||| m.regex_command@.len() > 0
    ||| m.regex_path@.len() > 0
}

/// One case-insensitive substring criterion is satisfied: the needle is
/// non-empty and its lowercase form occurs in the lowercase text.
pub open spec fn contains_hit(needle: Seq<char>, text: Seq<char>) -> bool {
    needle.len() > 0 && seq_contains(lower_of(text), lower_of(needle))
}

/// Some entry of a substring criteria list is satisfied.
pub open spec fn some_contains(needles: Seq<String>, text: Seq<char>) -> bool {
    exists|i: int| 0 <= i < needles.len() && contains_hit(#[trigger] needles[i]@, text)
}

/// One case-sensitive prefix criterion is satisfied.
pub open spec fn prefix_hit(prefix: Seq<char>, text: Seq<char>) -> bool {
    prefix.len() > 0 && prefix.is_prefix_of(text)
}

/// Some entry of a prefix criteria list is satisfied.
pub open spec fn some_prefix(prefixes: Seq<String>, text: Seq<char>) -> bool {
    exists|i: int| 0 <= i < prefixes.len() && prefix_hit(#[trigger] prefixes[i]@, text)
}

/// Scan a regex criteria list in order: empty entries are ignored, as in
/// the textual lists; the first invalid pattern fails the scan with that
/// pattern; otherwise the scan succeeds and tells whether some pattern
/// matched the text.
pub open spec fn scan_regex(pats: Seq<String>, text: Seq<char>) -> Result<bool, Seq<char>>
    decreases pats.len(),
{
    if pats.len() == 0 {
        Ok(false)
    } else if pats[0]@.len() == 0 {
        scan_regex(pats.skip(1), text)
    } else if !regex_valid(pats[0]@) {
        Err(pats[0]@)
    } else if regex_is_match(pats[0]@, text) {
        Ok(true)
    } else {
        scan_regex(pats.skip(1), text)
    }
}

/// What matching a rule against an artifact yields: `Ok(true)` on a match,
/// `Ok(false)` on a non-match, or the first invalid regex pattern. The kind
/// gate comes first; a rule without criteria matches its kind
/// unconditionally; the three textual lists are checked before any regex is
/// compiled, commands before paths among the regex lists.
pub open spec fn spec_rule_matches(rule: Rule, art: Artifact) -> Result<bool, Seq<char>> {
    let path = opt_text(art.path);
    let cmd = opt_text(art.command);
    if rule.check.kind@ != art.kind@ {
        Ok(false)
    } else if !has_criteria(rule.matching) {
        Ok(true)
    } else if some_contains(rule.matching.any_path_contains@, path) || some_prefix(
        rule.matching.any_path_prefix@,
        path,
    ) || some_contains(rule.matching.any_command_contains@, cmd) {
        Ok(true)
    } else {
        match scan_regex(rule.matching.regex_command@, cmd) {
            Err(p) => Err(p),
            Ok(b) => if b {
                Ok(true)
            } else {
                scan_regex(rule.matching.regex_path@, path)
            },
        }
    }
}

fn opt_str<'a>(o: &'a Option<String>) -> (r: &'a str)
    ensures
        r@ == opt_text(*o),
{
    match o {
        Option::Some(s) => s.as_str(),
        Option::None => {
            proof {
                reveal_strlit("");
                assert(""@ =~= opt_text(*o));
            }
            ""
        },
    }
}

fn find_contains(needles: &Vec<String>, lowered_text: &String, text: Ghost<Seq<char>>) -> (r: bool)
    requires
        lowered_text@ == lower_of(text@),
    ensures
        r == some_contains(needles@, text@),
{
    let mut i: usize = 0;
    while i < needles.len()
        invariant
            i <= needles@.len(),
            lowered_text@ == lower_of(text@),
            forall|k: int| 0 <= k < i ==> !contains_hit(#[trigger] needles@[k]@, text@),
        decreases needles@.len() - i,
    {
        let needle = &needles[i];
        if !needle.as_str().is_empty() {
            let ln = to_lowercase(needle.as_str());
            if str_contains(lowered_text.as_str(), ln.as_str()) {
                assert(contains_hit(needles@[i as int]@, text@));
                return true;
            }
        }
        i = i + 1;
    }
    false
}

fn find_prefix(prefixes: &Vec<String>, text: &str) -> (r: bool)
    ensures
        r == some_prefix(prefixes@, text@),
{
    let mut i: usize = 0;
    while i < prefixes.len()
        invariant
            i <= prefixes@.len(),
            forall|k: int| 0 <= k < i ==> !prefix_hit(#[trigger] prefixes@[k]@, text@),
        decreases prefixes@.len() - i,
    {
        let prefix = &prefixes[i];
        if !prefix.as_str().is_empty() {
            if str_starts_with(text, prefix.as_str()) {
                assert(prefix_hit(prefixes@[i as int]@, text@));
                return true;
            }
        }
        i = i + 1;
    }
    false
}

fn run_regex_list(pats: &Vec<String>, text: &str) -> (r: Result<bool, EngineError>)
    ensures
        match scan_regex(pats@, text@) {
            Ok(b) => r == Ok::<bool, EngineError>(b),
            Err(p) => r matches Err(EngineError::InvalidRegex { pattern }) && pattern@ == p,
        },
{
    let mut i: usize = 0;
    proof {
        assert(pats@.skip(0) =~= pats@);
    }
    while i < pats.len()
        invariant
            i <= pats@.len(),
            scan_regex(pats@, text@) == scan_regex(pats@.skip(i as int), text@),
        decreases pats@.len() - i,
    {
        let pat = &pats[i];
        if pat.as_str().is_empty() {
            proof {
                assert(pats@.skip(i as int).skip(1) =~= pats@.skip(i as int + 1));
            }
            i = i + 1;
        } else {
            match regex_any_match(pat.as_str(), text) {
                Option::None => {
                    return Err(EngineError::InvalidRegex { pattern: pat.clone() });
                },
                Option::Some(true) => {
                    return Ok(true);
                },
                Option::Some(false) => {
                    proof {
                        assert(pats@.skip(i as int).skip(1) =~= pats@.skip(i as int + 1));
                    }
                    i = i + 1;
                },
            }
        }
    }
    Ok(false)
}

/// Decide whether a rule applies to an artifact. Pure except for regex
/// compilation failures, which surface as a configuration error naming the
/// offending pattern.
pub fn rule_matches(rule: &Rule, art: &Artifact) -> (r: Result<bool, EngineError>)
    ensures
        match spec_rule_matches(*rule, *art) {
            Ok(b) => r == Ok::<bool, EngineError>(b),
            Err(p) => r matches Err(EngineError::InvalidRegex { pattern }) && pattern@ == p,
        },
{
    if !str_eq(rule.check.kind.as_str(), art.kind.as_str()) {
        return Ok(false);
    }
    let m = &rule.matching;
    let has_any = m.any_path_contains.len() > 0 || m.any_path_prefix.len() > 0
        || m.any_command_contains.len() > 0 || m.regex_command.len() > 0 || m.regex_path.len() > 0;
    if !has_any {
        return Ok(true);
    }
    let path = opt_str(&art.path);
    let cmd = opt_str(&art.command);
    let lpath = to_lowercase(path);
    let lcmd = to_lowercase(cmd);
    if find_contains(&m.any_path_contains, &lpath, Ghost(path@)) {
        return Ok(true);
    }
    if find_prefix(&m.any_path_prefix, path) {
        return Ok(true);
    }
    if find_contains(&m.any_command_contains, &lcmd, Ghost(cmd@)) {
        return Ok(true);
    }
    match run_regex_list(&m.regex_command, cmd) {
        Err(e) => Err(e),
        Ok(true) => Ok(true),
        Ok(false) => run_regex_list(&m.regex_path, path),
    }
}

/// A rule with no criteria at all is a catch-all: it matches every artifact
/// of its kind unconditionally.
pub proof fn lemma_catch_all_matches(rule: Rule, art: Artifact)
    requires
        rule.check.kind@ == art.kind@,
        !has_criteria(rule.matching),
    ensures
        spec_rule_matches(rule, art) == Ok::<bool, Seq<char>>(true),
{
}

/// A kind mismatch never matches, whatever the criteria say.
pub proof fn lemma_kind_gate(rule: Rule, art: Artifact)
    requires
        rule.check.kind@ != art.kind@,
    ensures
        spec_rule_matches(rule, art) == Ok::<bool, Seq<char>>(false),
{
}

/// Some non-empty pattern of the list matches the text.
pub open spec fn any_regex_match(pats: Seq<String>, text: Seq<char>) -> bool {
    exists|i: int|
        0 <= i < pats.len() && (#[trigger] pats[i]@).len() > 0 && regex_is_match(pats[i]@, text)
}

/// Every non-empty pattern of the list is a valid regular expression; empty
/// entries are ignored by the scan, so their validity does not matter.
pub open spec fn all_regex_valid(pats: Seq<String>) -> bool {
    forall|i: int|
        0 <= i < pats.len() && (#[trigger] pats[i]@).len() > 0 ==> regex_valid(pats[i]@)
}

proof fn lemma_scan_regex_all_valid(pats: Seq<String>, text: Seq<char>)
    requires
        all_regex_valid(pats),
    ensures
        scan_regex(pats, text) == Ok::<bool, Seq<char>>(any_regex_match(pats, text)),
    decreases pats.len(),
{
    if pats.len() > 0 {
        let rest = pats.skip(1);
        assert forall|i: int|
            0 <= i < rest.len() && (#[trigger] rest[i]@).len() > 0 implies regex_valid(
            rest[i]@,
        ) by {
            assert(rest[i] == pats[i + 1]);
        }
        assert(all_regex_valid(rest));
        lemma_scan_regex_all_valid(rest, text);
        if pats[0]@.len() > 0 && regex_is_match(pats[0]@, text) {
            assert(any_regex_match(pats, text));
        } else {
            if any_regex_match(rest, text) {
                let w = choose|w: int|
                    0 <= w < rest.len() && (#[trigger] rest[w]@).len() > 0 && regex_is_match(
                        rest[w]@,
                        text,
                    );
                assert(pats[w + 1] == rest[w]);
                assert(any_regex_match(pats, text));
            }
            if any_regex_match(pats, text) {
                let w = choose|w: int|
                    0 <= w < pats.len() && (#[trigger] pats[w]@).len() > 0 && regex_is_match(
                        pats[w]@,
                        text,
                    );
                assert(w > 0);
                assert(rest[w - 1] == pats[w]);
                assert(any_regex_match(rest, text));
            }
        }
    }
}

/// For a rule with at least one criterion and only valid regex patterns,
/// matching an artifact of its kind succeeds exactly when some single
/// criterion of some list is satisfied.
pub proof fn lemma_criteria_decide(rule: Rule, art: Artifact)
    requires
        rule.check.kind@ == art.kind@,
        has_criteria(rule.matching),
        all_regex_valid(rule.matching.regex_command@),
        all_regex_valid(rule.matching.regex_path@),
    ensures
        spec_rule_matches(rule, art) == Ok::<bool, Seq<char>>(
            some_contains(rule.matching.any_path_contains@, opt_text(art.path)) || some_prefix(
                rule.matching.any_path_prefix@,
                opt_text(art.path),
            ) || some_contains(rule.matching.any_command_contains@, opt_text(art.command))
                || any_regex_match(rule.matching.regex_command@, opt_text(art.command))
                || any_regex_match(rule.matching.regex_path@, opt_text(art.path)),
        ),
{
    lemma_scan_regex_all_valid(rule.matching.regex_command@, opt_text(art.command));
    lemma_scan_regex_all_valid(rule.matching.regex_path@, opt_text(art.path));
}

/// Run a rule on a list of artifacts, in order, appending one finding per
/// match; the first invalid regex pattern aborts the whole run.
pub open spec fn run_rule(rule: Rule, arts: Seq<Artifact>) -> Result<Seq<FindingModel>, Seq<char>>
    decreases arts.len(),
{
    if arts.len() == 0 {
        Ok(Seq::empty())
    } else {
        match run_rule(rule, arts.drop_last()) {
            Err(p) => Err(p),
            Ok(fs) => match spec_rule_matches(rule, arts.last()) {
                Err(p) => Err(p),
                Ok(b) => Ok(
                    if b {
                        fs.push(finding_of(rule, arts.last()))
                    } else {
                        fs
                    },
                ),
            },
        }
    }
}

/// Run every rule on every artifact, rules outermost; the first invalid
/// regex pattern in evaluation order aborts the whole run.
pub open spec fn spec_run(rules: Seq<Rule>, arts: Seq<Artifact>) -> Result<
    Seq<FindingModel>,
    Seq<char>,
>
    decreases rules.len(),
{
    if rules.len() == 0 {
        Ok(Seq::empty())
    } else {
        match spec_run(rules.drop_last(), arts) {
            Err(p) => Err(p),
            Ok(fs) => match run_rule(rules.last(), arts) {
                Err(p) => Err(p),
                Ok(row) => Ok(fs + row),
            },
        }
    }
}

proof fn lemma_run_rule_err_extends(rule: Rule, arts: Seq<Artifact>, k: int)
    requires
        0 <= k <= arts.len(),
        run_rule(rule, arts.take(k)) is Err,
    ensures
        run_rule(rule, arts) == run_rule(rule, arts.take(k)),
    decreases arts.len() - k,
{
    if k == arts.len() {
        assert(arts.take(k) =~= arts);
    } else {
        assert(arts.take(k + 1).drop_last() =~= arts.take(k));
        assert(run_rule(rule, arts.take(k + 1)) == run_rule(rule, arts.take(k)));
        lemma_run_rule_err_extends(rule, arts, k + 1);
    }
}

proof fn lemma_spec_run_err_extends(rules: Seq<Rule>, arts: Seq<Artifact>, k: int)
    requires
        0 <= k <= rules.len(),
        spec_run(rules.take(k), arts) is Err,
    ensures
        spec_run(rules, arts) == spec_run(rules.take(k), arts),
    decreases rules.len() - k,
{
    if k == rules.len() {
        assert(rules.take(k) =~= rules);
    } else {
        assert(rules.take(k + 1).drop_last() =~= rules.take(k));
        assert(spec_run(rules.take(k + 1), arts) == spec_run(rules.take(k), arts));
        lemma_spec_run_err_extends(rules, arts, k + 1);
    }
}

/// Evaluate every rule against every artifact and collect the findings, in
/// rule-major order. An invalid regex pattern in any rule aborts the run
/// with a configuration error naming the first offending pattern.
pub fn run(rules: &Vec<Rule>, artifacts: &Vec<Artifact>) -> (r: Result<Vec<Finding>, EngineError>)
    ensures
        match spec_run(rules@, artifacts@) {
            Ok(fs) => r matches Ok(v) && fmodels(v@) == fs,
            Err(p) => r matches Err(EngineError::InvalidRegex { pattern }) && pattern@ == p,
        },
{
    let mut findings: Vec<Finding> = Vec::new();
    let mut i: usize = 0;
    proof {
        assert(rules@.take(0) =~= Seq::<Rule>::empty());
        assert(fmodels(findings@) =~= Seq::<FindingModel>::empty());
    }
    while i < rules.len()
        invariant
            i <= rules@.len(),
            spec_run(rules@.take(i as int), artifacts@) is Ok,
            fmodels(findings@) == spec_run(rules@.take(i as int), artifacts@)->Ok_0,
        decreases rules@.len() - i,
    {
        let rule = &rules[i];
        let ghost done = spec_run(rules@.take(i as int), artifacts@)->Ok_0;
        let mut j: usize = 0;
        proof {
            assert(artifacts@.take(0) =~= Seq::<Artifact>::empty());
        }
        while j < artifacts.len()
            invariant
                i < rules@.len(),
                j <= artifacts@.len(),
                rule == &rules@[i as int],
                run_rule(rules@[i as int], artifacts@.take(j as int)) is Ok,
                fmodels(findings@) == done + run_rule(
                    rules@[i as int],
                    artifacts@.take(j as int),
                )->Ok_0,
                spec_run(rules@.take(i as int), artifacts@) == Ok::<Seq<FindingModel>, Seq<char>>(
                    done,
                ),
            decreases artifacts@.len() - j,
        {
            let art = &artifacts[j];
            let ghost row = run_rule(rules@[i as int], artifacts@.take(j as int))->Ok_0;
            proof {
                assert(artifacts@.take(j as int + 1).drop_last() =~= artifacts@.take(j as int));
                assert(artifacts@.take(j as int + 1).last() == artifacts@[j as int]);
            }
            match rule_matches(rule, art) {
                Err(e) => {
                    proof {
                        lemma_run_rule_err_extends(rules@[i as int], artifacts@, j as int + 1);
                        assert(rules@.take(i as int + 1).drop_last() =~= rules@.take(i as int));
                        assert(rules@.take(i as int + 1).last() == rules@[i as int]);
                        lemma_spec_run_err_extends(rules@, artifacts@, i as int + 1);
                    }
                    return Err(e);
                },
                Ok(matched) => {
                    if matched {
                        findings.push(Finding::from_match(rule, art));
                        proof {
                            assert(fmodels(findings@) =~= fmodels(findings@.drop_last()).push(
                                findings@.last()@,
                            ));
                            assert(done + row.push(finding_of(rules@[i as int], artifacts@[j as int]))
                                =~= (done + row).push(
                                finding_of(rules@[i as int], artifacts@[j as int]),
                            ));
                        }
                    }
                },
            }
            j = j + 1;
        }
        proof {
            assert(artifacts@.take(artifacts@.len() as int) =~= artifacts@);
            assert(rules@.take(i as int + 1).drop_last() =~= rules@.take(i as int));
            assert(rules@.take(i as int + 1).last() == rules@[i as int]);
        }
        i = i + 1;
    }
    proof {
        assert(rules@.take(rules@.len() as int) =~= rules@);
    }
    Ok(findings)
}

} // verus!
