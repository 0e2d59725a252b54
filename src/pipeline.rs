use vstd::multiset::Multiset;
use vstd::prelude::*;

use crate::counts::owned;
use crate::error::Error;
use crate::facets::{lemma_lex_total, lex_le, text_le};
use crate::frontmatter::{decodes, owed_report, parse_failure, seen_after_record};
use crate::record::{assembled_from, Adr, DefaultAdrParser};
use crate::status::StatusWarnings;
use crate::validation::{
    default_rules, issue_views, recommended_issues, required_issues, rules_issues, with_severity, RecommendedFieldsRule, RequiredFieldsRule, Rule, Severity,
    ValidationIssue, ValidationReport, Validator,
};

verus! {

/// What a batch decode gives: the records that decoded, in input order; the
/// inputs that did not, each with its path and error; and the unknown status
/// values to report, each once.
#[derive(Debug, Clone)]
pub struct ParseOutcome {
    pub adrs: Vec<Adr>,
    pub errors: Vec<(String, Error)>,
    pub reports: Vec<String>,
}

/// The (path, text) of the inputs that decode, in input order.
pub open spec fn decoded_inputs(inputs: Seq<(String, String)>) -> Seq<(Seq<char>, Seq<char>)>
    decreases inputs.len(),
{
    if inputs.len() == 0 {
        Seq::empty()
    } else if decodes(inputs.last().1@) {
        decoded_inputs(inputs.drop_last()).push((inputs.last().0@, inputs.last().1@))
    } else {
        decoded_inputs(inputs.drop_last())
    }
}

/// The (path, text) of the inputs that do not decode, in input order.
pub open spec fn failed_inputs(inputs: Seq<(String, String)>) -> Seq<(Seq<char>, Seq<char>)>
    decreases inputs.len(),
{
    if inputs.len() == 0 {
        Seq::empty()
    } else if decodes(inputs.last().1@) {
        failed_inputs(inputs.drop_last())
    } else {
        failed_inputs(inputs.drop_last()).push((inputs.last().0@, inputs.last().1@))
    }
}

/// The reported unknown statuses after decoding the inputs in order.
pub open spec fn batch_seen(seen: Set<Seq<char>>, inputs: Seq<(String, String)>) -> Set<Seq<char>>
    decreases inputs.len(),
{
    if inputs.len() == 0 {
        seen
    } else {
        seen_after_record(batch_seen(seen, inputs.drop_last()), inputs.last().1@)
    }
}

/// The unknown statuses owed a warning while decoding the inputs in order,
/// each in lowercase and each once.
pub open spec fn batch_reports(seen: Set<Seq<char>>, inputs: Seq<(String, String)>) -> Seq<Seq<char>>
    decreases inputs.len(),
{
    if inputs.len() == 0 {
        Seq::empty()
    } else {
        let prev = batch_reports(seen, inputs.drop_last());
        match owed_report(batch_seen(seen, inputs.drop_last()), inputs.last().1@) {
            Some(l) => prev.push(l),
            None => prev,
        }
    }
}

/// Each error belongs to its failed input and is the error that input gives.
pub open spec fn errors_fit(errors: Seq<(String, Error)>, failed: Seq<(Seq<char>, Seq<char>)>) -> bool {
    &&& errors.len() == failed.len()
    &&& forall|k: int| 0 <= k < errors.len() ==> (#[trigger] errors[k]).0@ == failed[k].0
        && parse_failure(failed[k].0, failed[k].1, errors[k].1)
}

/// Each record is the one assembled from its decoded input.
pub open spec fn records_fit(adrs: Seq<Adr>, decoded: Seq<(Seq<char>, Seq<char>)>) -> bool {
    &&& adrs.len() == decoded.len()
    &&& forall|k: int| 0 <= k < adrs.len() ==> assembled_from(#[trigger] adrs[k], decoded[k].0, decoded[k].1)
}

pub open spec fn report_views(v: Seq<String>) -> Seq<Seq<char>> {
    v.map_values(|s: String| s@)
}

/// Decodes every (path, text) pair, in order. A failing record is reported
/// with its path and its error and never replaced by a default record; the
/// others are assembled; unknown statuses are reported once each.
pub fn parse_batch(inputs: &[(String, String)], warnings: &mut StatusWarnings) -> (r: ParseOutcome)
    ensures
        records_fit(r.adrs@, decoded_inputs(inputs@)),
        errors_fit(r.errors@, failed_inputs(inputs@)),
        report_views(r.reports@) == batch_reports(old(warnings)@, inputs@),
        final(warnings)@ == batch_seen(old(warnings)@, inputs@),
{
    let parser = DefaultAdrParser::new();
    let mut adrs: Vec<Adr> = Vec::new();
    let mut errors: Vec<(String, Error)> = Vec::new();
    let mut reports: Vec<String> = Vec::new();
    let ghost start = warnings@;
    let mut i: usize = 0;
    while i < inputs.len()
        invariant
            i <= inputs@.len(),
            records_fit(adrs@, decoded_inputs(inputs@.subrange(0, i as int))),
            errors_fit(errors@, failed_inputs(inputs@.subrange(0, i as int))),
            report_views(reports@) == batch_reports(start, inputs@.subrange(0, i as int)),
            warnings@ == batch_seen(start, inputs@.subrange(0, i as int)),
        decreases inputs@.len() - i,
    {
        let path = inputs[i].0.as_str();
        let content = inputs[i].1.as_str();
        let ghost pre = inputs@.subrange(0, i as int);
        let ghost post = inputs@.subrange(0, i + 1);
        proof {
            assert(post.drop_last() =~= pre);
            assert(post.last() == inputs@[i as int]);
        }
        let ghost reports_before = reports@;
        match parser.parse(path, content, warnings) {
            Ok((adr, report)) => {
                adrs.push(adr);
                assert(records_fit(adrs@, decoded_inputs(post)));
                match report {
                    Some(w) => {
                        reports.push(w);
                        assert(report_views(reports@) =~= report_views(reports_before).push(w@));
                    },
                    None => {},
                }
            },
            Err(e) => {
                errors.push((owned(path), e));
                assert(errors_fit(errors@, failed_inputs(post)));
            },
        }
        i += 1;
    }
    assert(inputs@.subrange(0, inputs@.len() as int) =~= inputs@);
    ParseOutcome { adrs, errors, reports }
}

/// Texts in lexicographic order.
pub open spec fn keys_sorted(k: Seq<Seq<char>>) -> bool {
    forall|i: int| 0 <= i < k.len() - 1 ==> lex_le(#[trigger] k[i], k[i + 1])
}

/// The identifiers of the records, in order.
pub open spec fn id_keys(s: Seq<Adr>) -> Seq<Seq<char>> {
    s.map_values(|a: Adr| a.id@)
}

/// Records ordered by identifier.
pub open spec fn ids_sorted(s: Seq<Adr>) -> bool {
    keys_sorted(id_keys(s))
}

proof fn lemma_insert_sorted(keys: Seq<Seq<char>>, p: int, x: Seq<char>)
    requires
        keys_sorted(keys),
        0 <= p <= keys.len(),
        p > 0 ==> lex_le(keys[p - 1], x),
        p < keys.len() ==> lex_le(x, keys[p]),
    ensures
        keys_sorted(keys.insert(p, x)),
{
    let out = keys.insert(p, x);
    assert forall|k: int| 0 <= k < out.len() - 1 implies lex_le(#[trigger] out[k], out[k + 1]) by {
        if k < p - 1 {
            assert(out[k] == keys[k] && out[k + 1] == keys[k + 1]);
        } else if k == p - 1 {
        } else if k == p {
        } else {
            assert(out[k] == keys[k - 1] && out[k + 1] == keys[k]);
        }
    }
}

proof fn lemma_move_one(before: Seq<Adr>, rest: Seq<Adr>, p: int, x: Adr, total: Multiset<Adr>)
    requires
        0 <= p <= before.len(),
        before.to_multiset().add(rest.push(x).to_multiset()) == total,
    ensures
        before.insert(p, x).to_multiset().add(rest.to_multiset()) == total,
{
    broadcast use vstd::seq_lib::group_to_multiset_ensures;

    vstd::seq_lib::to_multiset_insert(before, p, x);
    vstd::seq_lib::to_multiset_build(rest, x);
    assert(before.insert(p, x).to_multiset().add(rest.to_multiset()) =~= before.to_multiset().add(rest.push(x).to_multiset()));
}

/// The records sorted by identifier.
pub fn sort_by_id(adrs: Vec<Adr>) -> (r: Vec<Adr>)
    ensures
        ids_sorted(r@),
        r@.to_multiset() == adrs@.to_multiset(),
{
    broadcast use vstd::seq_lib::group_to_multiset_ensures;

    let mut out: Vec<Adr> = Vec::new();
    let mut rest = adrs;
    let ghost src = rest@;
    while rest.len() > 0
        invariant
            ids_sorted(out@),
            out@.to_multiset().add(rest@.to_multiset()) == src.to_multiset(),
        decreases rest@.len(),
    {
        let ghost before_rest = rest@;
        let x = rest.pop().unwrap();
        proof {
            assert(before_rest =~= rest@.push(x));
        }
        let mut p: usize = 0;
        while p < out.len() && text_le(out[p].id.as_str(), x.id.as_str())
            invariant
                p <= out@.len(),
                p > 0 ==> lex_le(id_keys(out@)[p - 1], x.id@),
            decreases out@.len() - p,
        {
            p += 1;
        }
        proof {
            if p < out@.len() {
                lemma_lex_total(out@[p as int].id@, x.id@);
                assert(id_keys(out@)[p as int] == out@[p as int].id@);
            }
        }
        let ghost before = out@;
        out.insert(p, x);
        proof {
            assert(out@ =~= before.insert(p as int, x));
            assert(id_keys(out@) =~= id_keys(before).insert(p as int, x.id@));
            lemma_insert_sorted(id_keys(before), p as int, x.id@);
            lemma_move_one(before, rest@, p as int, x, src.to_multiset());
        }
    }
    proof {
        assert(rest@.to_multiset() =~= Multiset::<Adr>::empty());
        assert(out@.to_multiset().add(Multiset::<Adr>::empty()) =~= out@.to_multiset());
    }
    out
}

/// What a viewer generation produced.
#[derive(Debug, Clone)]
pub struct GenerateResult {
    pub output_path: String,
    pub adr_count: usize,
    pub parse_errors: Vec<(String, Error)>,
}

impl GenerateResult {
    pub fn has_errors(&self) -> (r: bool)
        ensures
            r == (self.parse_errors@.len() > 0),
    {
        self.parse_errors.len() > 0
    }
}

/// What a wiki generation produced.
#[derive(Debug, Clone)]
pub struct WikiResult {
    pub output_dir: String,
    pub generated_files: Vec<String>,
    pub adr_count: usize,
    pub parse_errors: Vec<(String, Error)>,
}

impl WikiResult {
    pub fn has_errors(&self) -> (r: bool)
        ensures
            r == (self.parse_errors@.len() > 0),
    {
        self.parse_errors.len() > 0
    }
}

/// Issues of every report, each with its path, report by report.
pub open spec fn all_issue_pairs(reports: Seq<(String, ValidationReport)>) -> Seq<(Seq<char>, ValidationIssue)>
    decreases reports.len(),
{
    if reports.len() == 0 {
        Seq::empty()
    } else {
        all_issue_pairs(reports.drop_last())
            + reports.last().1@.map_values(|i: ValidationIssue| (reports.last().0@, i))
    }
}

/// The (path, issue) pairs whose issue has severity `sev`, in order.
pub open spec fn pairs_with_severity(s: Seq<(Seq<char>, ValidationIssue)>, sev: Severity) -> Seq<(Seq<char>, ValidationIssue)>
    decreases s.len(),
{
    if s.len() == 0 {
        Seq::empty()
    } else if s.last().1.severity == sev {
        pairs_with_severity(s.drop_last(), sev).push(s.last())
    } else {
        pairs_with_severity(s.drop_last(), sev)
    }
}

/// Sum over the reports of their issues of severity `sev`.
pub open spec fn severity_total(reports: Seq<(String, ValidationReport)>, sev: Severity) -> int
    decreases reports.len(),
{
    if reports.len() == 0 {
        0
    } else {
        severity_total(reports.drop_last(), sev) + with_severity(reports.last().1@, sev).len()
    }
}

/// The outcome of validating a batch.
#[derive(Debug, Clone)]
pub struct ValidateResult {
    pub reports: Vec<(String, ValidationReport)>,
    pub parse_errors: Vec<(String, Error)>,
    pub total_errors: usize,
    pub total_warnings: usize,
    pub passed: bool,
}

pub open spec fn issue_pair_view(p: (&String, &ValidationIssue)) -> (Seq<char>, ValidationIssue) {
    ((*p.0)@, *p.1)
}

impl ValidateResult {
    /// Every issue with the path of its record, report by report.
    pub fn all_issues(&self) -> (r: Vec<(&String, &ValidationIssue)>)
        ensures
            r@.map_values(|p: (&String, &ValidationIssue)| issue_pair_view(p)) == all_issue_pairs(self.reports@),
    {
        let mut r: Vec<(&String, &ValidationIssue)> = Vec::new();
        let mut k: usize = 0;
        while k < self.reports.len()
            invariant
                k <= self.reports@.len(),
                r@.map_values(|p: (&String, &ValidationIssue)| issue_pair_view(p)) == all_issue_pairs(self.reports@.subrange(0, k as int)),
            decreases self.reports@.len() - k,
        {
            let path = &self.reports[k].0;
            let issues = self.reports[k].1.issues();
            let ghost base = r@.map_values(|p: (&String, &ValidationIssue)| issue_pair_view(p));
            let mut j: usize = 0;
            while j < issues.len()
                invariant
                    k < self.reports@.len(),
                    *path == self.reports@[k as int].0,
                    issues@ == self.reports@[k as int].1@,
                    j <= issues@.len(),
                    r@.map_values(|p: (&String, &ValidationIssue)| issue_pair_view(p))
                        == base + issues@.subrange(0, j as int).map_values(|i: ValidationIssue| (path@, i)),
                decreases issues@.len() - j,
            {
                let ghost before = r@;
                r.push((path, &issues[j]));
                assert(r@ =~= before.push((path, &issues@[j as int])));
                assert(r@.map_values(|p: (&String, &ValidationIssue)| issue_pair_view(p)) =~= before.map_values(|p: (&String, &ValidationIssue)| issue_pair_view(p)).push((path@, issues@[j as int])));
                assert(issues@.subrange(0, j + 1).map_values(|i: ValidationIssue| (path@, i)) =~= issues@.subrange(0, j as int).map_values(|i: ValidationIssue| (path@, i)).push((path@, issues@[j as int])));
                assert(r@.map_values(|p: (&String, &ValidationIssue)| issue_pair_view(p))
                    =~= base + issues@.subrange(0, j + 1).map_values(|i: ValidationIssue| (path@, i)));
                j += 1;
            }
            proof {
                assert(self.reports@.subrange(0, k + 1).drop_last() =~= self.reports@.subrange(0, k as int));
                assert(issues@.subrange(0, issues@.len() as int) =~= issues@);
            }
            k += 1;
        }
        assert(self.reports@.subrange(0, self.reports@.len() as int) =~= self.reports@);
        r
    }

    fn issues_of(&self, sev: Severity) -> (r: Vec<(&String, &ValidationIssue)>)
        ensures
            r@.map_values(|p: (&String, &ValidationIssue)| issue_pair_view(p))
                == pairs_with_severity(all_issue_pairs(self.reports@), sev),
    {
        let all = self.all_issues();
        let ghost src = all@.map_values(|p: (&String, &ValidationIssue)| issue_pair_view(p));
        let mut r: Vec<(&String, &ValidationIssue)> = Vec::new();
        let mut k: usize = 0;
        while k < all.len()
            invariant
                k <= all@.len(),
                src == all@.map_values(|p: (&String, &ValidationIssue)| issue_pair_view(p)),
                r@.map_values(|p: (&String, &ValidationIssue)| issue_pair_view(p))
                    == pairs_with_severity(src.subrange(0, k as int), sev),
            decreases all@.len() - k,
        {
            proof {
                assert(src.subrange(0, k + 1).drop_last() =~= src.subrange(0, k as int));
            }
            let p = all[k];
            let ghost before = r@;
            if p.1.severity == sev {
                r.push(p);
                assert(r@.map_values(|p: (&String, &ValidationIssue)| issue_pair_view(p))
                    =~= before.map_values(|p: (&String, &ValidationIssue)| issue_pair_view(p)).push(src[k as int]));
            }
            k += 1;
        }
        assert(src.subrange(0, all@.len() as int) =~= src);
        r
    }

    /// The issues of `Error` severity, each with its path, in order.
    pub fn error_issues(&self) -> (r: Vec<(&String, &ValidationIssue)>)
        ensures
            r@.map_values(|p: (&String, &ValidationIssue)| issue_pair_view(p))
                == pairs_with_severity(all_issue_pairs(self.reports@), Severity::Error),
    {
        self.issues_of(Severity::Error)
    }

    /// The issues of `Warning` severity, each with its path, in order.
    pub fn warning_issues(&self) -> (r: Vec<(&String, &ValidationIssue)>)
        ensures
            r@.map_values(|p: (&String, &ValidationIssue)| issue_pair_view(p))
                == pairs_with_severity(all_issue_pairs(self.reports@), Severity::Warning),
    {
        self.issues_of(Severity::Warning)
    }
}

/// Whether a validation run passes: no errors and no record that failed to
/// decode; in strict mode no warnings either.
pub open spec fn run_passes(errors: int, warnings: int, failed: int, strict: bool) -> bool {
    errors == 0 && failed == 0 && (!strict || warnings == 0)
}

/// Decides whether a validation run passes.
pub fn validation_passed(total_errors: usize, total_warnings: usize, parse_failures: usize, strict: bool) -> (r: bool)
    ensures
        r == run_passes(total_errors as int, total_warnings as int, parse_failures as int, strict),
{
    if strict {
        total_errors == 0 && total_warnings == 0 && parse_failures == 0
    } else {
        total_errors == 0 && parse_failures == 0
    }
}

proof fn lemma_default_rules_bound(adr: Adr)
    ensures
        rules_issues(seq![Rule::RequiredFields(RequiredFieldsRule), Rule::RecommendedFields(RecommendedFieldsRule)], adr).len() <= 4,
{
    let rules = seq![Rule::RequiredFields(RequiredFieldsRule), Rule::RecommendedFields(RecommendedFieldsRule)];
    assert(rules.drop_last().drop_last() =~= Seq::<Rule>::empty());
    assert(rules.drop_last().last() == Rule::RequiredFields(RequiredFieldsRule));
    assert(rules.last() == Rule::RecommendedFields(RecommendedFieldsRule));
    assert(rules_issues(rules.drop_last().drop_last(), adr).len() == 0);
    assert(rules_issues(rules.drop_last(), adr) == rules_issues(rules.drop_last().drop_last(), adr) + required_issues(adr));
    assert(required_issues(adr).len() <= 1);
    assert(recommended_issues(adr).len() <= 3);
    assert(rules_issues(rules, adr) == rules_issues(rules.drop_last(), adr) + recommended_issues(adr));
}

proof fn lemma_severity_bound(s: Seq<ValidationIssue>, sev: Severity)
    ensures
        with_severity(s, sev).len() <= s.len(),
    decreases s.len(),
{
    if s.len() > 0 {
        lemma_severity_bound(s.drop_last(), sev);
    }
}

/// The built-in rules, in order.
pub open spec fn default_rule_seq() -> Seq<Rule> {
    seq![Rule::RequiredFields(RequiredFieldsRule), Rule::RecommendedFields(RecommendedFieldsRule)]
}

/// Each report belongs to its decoded input and holds what the built-in rules
/// find in the record assembled from it.
pub open spec fn reports_fit(reports: Seq<(String, ValidationReport)>, decoded: Seq<(Seq<char>, Seq<char>)>) -> bool {
    &&& reports.len() == decoded.len()
    &&& forall|k: int| 0 <= k < reports.len() ==> (#[trigger] reports[k]).0@ == decoded[k].0
        && report_of(reports[k].1, decoded[k].0, decoded[k].1)
}

/// Whether `report` holds what the built-in rules find in the record assembled
/// from `content` read at `path`.
pub open spec fn report_of(report: ValidationReport, path: Seq<char>, content: Seq<char>) -> bool {
    exists|adr: Adr| #[trigger] assembled_from(adr, path, content)
        && issue_views(report@) == rules_issues(default_rule_seq(), adr)
}

/// Decodes and validates a batch with the built-in rules. Records that fail to
/// decode are listed with their errors; the totals add up the issues of every
/// report, and the run passes as [`run_passes`] says.
pub fn validate_batch(inputs: &[(String, String)], strict: bool, warnings: &mut StatusWarnings) -> (r: ValidateResult)
    requires
        inputs@.len() <= usize::MAX / 4,
    ensures
        reports_fit(r.reports@, decoded_inputs(inputs@)),
        errors_fit(r.parse_errors@, failed_inputs(inputs@)),
        final(warnings)@ == batch_seen(old(warnings)@, inputs@),
        r.total_errors == severity_total(r.reports@, Severity::Error),
        r.total_warnings == severity_total(r.reports@, Severity::Warning),
        r.passed == run_passes(r.total_errors as int, r.total_warnings as int, r.parse_errors@.len() as int, strict),
{
    let parser = DefaultAdrParser::new();
    let validator = Validator::new(default_rules());
    let mut reports: Vec<(String, ValidationReport)> = Vec::new();
    let mut parse_errors: Vec<(String, Error)> = Vec::new();
    let mut total_errors: usize = 0;
    let mut total_warnings: usize = 0;
    let ghost start = warnings@;
    let mut i: usize = 0;
    while i < inputs.len()
        invariant
            i <= inputs@.len(),
            inputs@.len() <= usize::MAX / 4,
            validator.rule_seq() == default_rule_seq(),
            reports@.len() + parse_errors@.len() == i,
            total_errors == severity_total(reports@, Severity::Error),
            total_warnings == severity_total(reports@, Severity::Warning),
            total_errors <= 4 * reports@.len(),
            total_warnings <= 4 * reports@.len(),
            reports_fit(reports@, decoded_inputs(inputs@.subrange(0, i as int))),
            errors_fit(parse_errors@, failed_inputs(inputs@.subrange(0, i as int))),
            warnings@ == batch_seen(start, inputs@.subrange(0, i as int)),
        decreases inputs@.len() - i,
    {
        let path = inputs[i].0.as_str();
        let ghost post = inputs@.subrange(0, i + 1);
        proof {
            assert(post.drop_last() =~= inputs@.subrange(0, i as int));
            assert(post.last() == inputs@[i as int]);
        }
        match parser.parse(path, inputs[i].1.as_str(), warnings) {
            Ok((adr, _)) => {
                let report = validator.validate(&adr);
                proof {
                    lemma_default_rules_bound(adr);
                    lemma_severity_bound(report@, Severity::Error);
                    lemma_severity_bound(report@, Severity::Warning);
                    assert(issue_views(report@).len() == report@.len());
                }
                let e = report.error_count();
                let w = report.warning_count();
                let ghost before = reports@;
                let ghost made = adr;
                reports.push((owned(path), report));
                proof {
                    assert(reports@.drop_last() =~= before);
                    let d = decoded_inputs(post);
                    let d0 = decoded_inputs(inputs@.subrange(0, i as int));
                    assert(d == d0.push((path@, inputs@[i as int].1@)));
                    let k = before.len() as int;
                    assert(assembled_from(made, d[k].0, d[k].1)
                        && issue_views(reports@[k].1@) == rules_issues(default_rule_seq(), made));
                    assert(report_of(reports@[k].1, d[k].0, d[k].1));
                    assert forall|m: int| 0 <= m < reports@.len() implies (#[trigger] reports@[m]).0@ == d[m].0
                        && report_of(reports@[m].1, d[m].0, d[m].1) by {
                        if m < k {
                            assert(reports@[m] == before[m]);
                            assert(d[m] == d0[m]);
                        }
                    }
                    assert(reports_fit(reports@, d));
                }
                total_errors = total_errors + e;
                total_warnings = total_warnings + w;
            },
            Err(err) => {
                parse_errors.push((owned(path), err));
                assert(errors_fit(parse_errors@, failed_inputs(post)));
            },
        }
        i += 1;
    }
    assert(inputs@.subrange(0, inputs@.len() as int) =~= inputs@);
    let passed = validation_passed(total_errors, total_warnings, parse_errors.len(), strict);
    ValidateResult { reports, parse_errors, total_errors, total_warnings, passed }
}

} // verus!
