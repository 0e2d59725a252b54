use vstd::prelude::*;

use crate::counts::owned;
use crate::record::Adr;
use crate::text::{decimal, decimal_digits, text_is_empty};

verus! {

/// How serious an issue is.
#[derive(Debug, Clone, Copy, PartialEq, Eq, PartialOrd, Ord, Hash, Structural)]
pub enum Severity {
    Warning,
    Error,
}

impl Severity {
    pub fn as_str(&self) -> (r: &'static str)
        ensures
            *self == Severity::Warning ==> r@ == "warning"@,
            *self == Severity::Error ==> r@ == "error"@,
    {
        match self {
            Severity::Warning => "warning",
            Severity::Error => "error",
        }
    }
}

/// One finding of a rule about one record.
#[derive(Debug, Clone)]
pub struct ValidationIssue {
    pub severity: Severity,
    pub path: String,
    pub message: String,
    pub line: Option<usize>,
    pub rule: String,
}

/// What an issue says: severity, path, message, line and rule name.
pub type IssueView = (Severity, Seq<char>, Seq<char>, Option<usize>, Seq<char>);

pub open spec fn issue_view(i: ValidationIssue) -> IssueView {
    (i.severity, i.path@, i.message@, i.line, i.rule@)
}

pub open spec fn issue_views(s: Seq<ValidationIssue>) -> Seq<IssueView> {
    s.map_values(|i: ValidationIssue| issue_view(i))
}

impl ValidationIssue {
    pub fn new(severity: Severity, path: &str, message: &str, rule: &str) -> (r: ValidationIssue)
        ensures
            issue_view(r) == (severity, path@, message@, None::<usize>, rule@),
    {
        ValidationIssue { severity, path: owned(path), message: owned(message), line: None, rule: owned(rule) }
    }

    pub fn error(path: &str, message: &str, rule: &str) -> (r: ValidationIssue)
        ensures
            issue_view(r) == (Severity::Error, path@, message@, None::<usize>, rule@),
    {
        ValidationIssue::new(Severity::Error, path, message, rule)
    }

    pub fn warning(path: &str, message: &str, rule: &str) -> (r: ValidationIssue)
        ensures
            issue_view(r) == (Severity::Warning, path@, message@, None::<usize>, rule@),
    {
        ValidationIssue::new(Severity::Warning, path, message, rule)
    }

    /// The same issue, pointing at a line.
    pub fn with_line(self, line: usize) -> (r: ValidationIssue)
        ensures
            issue_view(r) == (self.severity, self.path@, self.message@, Some(line), self.rule@),
    {
        ValidationIssue { line: Some(line), ..self }
    }
}

/// The lowercase name of a severity.
pub open spec fn severity_name(s: Severity) -> Seq<char> {
    match s {
        Severity::Warning => "warning"@,
        Severity::Error => "error"@,
    }
}

/// How an issue reads: `severity: path[:line]: message [rule]`.
pub open spec fn issue_text(i: ValidationIssue) -> Seq<char> {
    severity_name(i.severity) + ": "@ + i.path@ + match i.line {
        Some(l) => ":"@ + decimal_digits(l as nat),
        None => Seq::empty(),
    } + ": "@ + i.message@ + " ["@ + i.rule@ + "]"@
}

impl ValidationIssue {
    /// The issue as one line of text; see [`issue_text`].
    pub fn to_string(&self) -> (r: String)
        ensures
            r@ == issue_text(*self),
    {
        let mut out = owned(self.severity.as_str());
        out.append(": ");
        out.append(self.path.as_str());
        match self.line {
            Some(l) => {
                out.append(":");
                let d = decimal(l);
                out.append(d.as_str());
            },
            None => {},
        }
        out.append(": ");
        out.append(self.message.as_str());
        out.append(" [");
        out.append(self.rule.as_str());
        out.append("]");
        assert(out@ =~= issue_text(*self));
        out
    }
}

/// The issues of `s` with severity `sev`, in order.
pub open spec fn with_severity(s: Seq<ValidationIssue>, sev: Severity) -> Seq<ValidationIssue>
    decreases s.len(),
{
    if s.len() == 0 {
        Seq::empty()
    } else if s.last().severity == sev {
        with_severity(s.drop_last(), sev).push(s.last())
    } else {
        with_severity(s.drop_last(), sev)
    }
}

/// The issues found, in the order the rules reported them.
#[derive(Debug, Clone)]
pub struct ValidationReport {
    issues: Vec<ValidationIssue>,
}

impl View for ValidationReport {
    type V = Seq<ValidationIssue>;

    closed spec fn view(&self) -> Seq<ValidationIssue> {
        self.issues@
    }
}

impl ValidationReport {
    pub fn new() -> (r: ValidationReport)
        ensures
            r@.len() == 0,
    {
        ValidationReport { issues: Vec::new() }
    }

    pub fn add_issue(&mut self, issue: ValidationIssue)
        ensures
            final(self)@ == old(self)@.push(issue),
    {
        self.issues.push(issue);
    }

    pub fn add_issues(&mut self, issues: Vec<ValidationIssue>)
        ensures
            final(self)@ == old(self)@ + issues@,
    {
        let mut more = issues;
        self.issues.append(&mut more);
    }

    pub fn issues(&self) -> (r: &[ValidationIssue])
        ensures
            r@ == self@,
    {
        self.issues.as_slice()
    }

    /// The issues with this severity, in order.
    pub fn issues_by_severity(&self, severity: Severity) -> (r: Vec<&ValidationIssue>)
        ensures
            r@.map_values(|i: &ValidationIssue| *i) == with_severity(self@, severity),
    {
        let mut r: Vec<&ValidationIssue> = Vec::new();
        let mut k: usize = 0;
        while k < self.issues.len()
            invariant
                k <= self@.len(),
                r@.map_values(|i: &ValidationIssue| *i) == with_severity(self@.subrange(0, k as int), severity),
            decreases self@.len() - k,
        {
            proof {
                assert(self@.subrange(0, k + 1).drop_last() =~= self@.subrange(0, k as int));
            }
            let ghost before = r@;
            if self.issues[k].severity == severity {
                r.push(&self.issues[k]);
                assert(r@.map_values(|i: &ValidationIssue| *i) =~= before.map_values(|i: &ValidationIssue| *i).push(self@[k as int]));
            }
            k += 1;
        }
        assert(self@.subrange(0, self@.len() as int) =~= self@);
        r
    }

    pub fn errors(&self) -> (r: Vec<&ValidationIssue>)
        ensures
            r@.map_values(|i: &ValidationIssue| *i) == with_severity(self@, Severity::Error),
    {
        self.issues_by_severity(Severity::Error)
    }

    pub fn warnings(&self) -> (r: Vec<&ValidationIssue>)
        ensures
            r@.map_values(|i: &ValidationIssue| *i) == with_severity(self@, Severity::Warning),
    {
        self.issues_by_severity(Severity::Warning)
    }

    pub fn error_count(&self) -> (r: usize)
        ensures
            r == with_severity(self@, Severity::Error).len(),
    {
        let e = self.errors();
        assert(e@.map_values(|i: &ValidationIssue| *i).len() == e@.len());
        e.len()
    }

    pub fn warning_count(&self) -> (r: usize)
        ensures
            r == with_severity(self@, Severity::Warning).len(),
    {
        let w = self.warnings();
        assert(w@.map_values(|i: &ValidationIssue| *i).len() == w@.len());
        w.len()
    }

    pub fn has_errors(&self) -> (r: bool)
        ensures
            r == (with_severity(self@, Severity::Error).len() > 0),
    {
        self.error_count() > 0
    }

    /// Valid means no issue of `Error` severity; warnings do not count.
    pub fn is_valid(&self) -> (r: bool)
        ensures
            r == (with_severity(self@, Severity::Error).len() == 0),
    {
        !self.has_errors()
    }

    pub fn is_empty(&self) -> (r: bool)
        ensures
            r == (self@.len() == 0),
    {
        self.issues.len() == 0
    }

    pub fn len(&self) -> (r: usize)
        ensures
            r == self@.len(),
    {
        self.issues.len()
    }

    /// Appends the issues of `other`.
    pub fn merge(&mut self, other: ValidationReport)
        ensures
            final(self)@ == old(self)@ + other@,
    {
        let mut more = other.issues;
        self.issues.append(&mut more);
    }
}

/// The issues the required-fields rule finds in a record.
pub open spec fn required_issues(adr: Adr) -> Seq<IssueView> {
    if adr.frontmatter.title@.len() == 0 {
        seq![(Severity::Error, adr.source_path@, "missing required field 'title'"@, None::<usize>, "required-fields"@)]
    } else {
        Seq::empty()
    }
}

/// A warning of the recommended-fields rule, if `missing`.
pub open spec fn recommended_one(adr: Adr, missing: bool, message: Seq<char>) -> Seq<IssueView> {
    if missing {
        seq![(Severity::Warning, adr.source_path@, message, None::<usize>, "recommended-fields"@)]
    } else {
        Seq::empty()
    }
}

/// The issues the recommended-fields rule finds in a record: one warning each
/// for an empty description, an absent created date and an empty category.
pub open spec fn recommended_issues(adr: Adr) -> Seq<IssueView> {
    recommended_one(adr, adr.frontmatter.description@.len() == 0, "missing recommended field 'description'"@)
        + recommended_one(adr, adr.frontmatter.created is None, "missing recommended field 'created'"@)
        + recommended_one(adr, adr.frontmatter.category@.len() == 0, "missing recommended field 'category'"@)
}

/// Reports an empty title as an error.
#[derive(Debug, Clone, Copy)]
pub struct RequiredFieldsRule;

impl RequiredFieldsRule {
    pub fn new() -> (r: RequiredFieldsRule) {
        RequiredFieldsRule
    }

    pub fn name(&self) -> (r: &'static str)
        ensures
            r@ == "required-fields"@,
    {
        "required-fields"
    }

    pub fn description(&self) -> (r: &'static str)
        ensures
            r@ == "Checks that required frontmatter fields are present"@,
    {
        "Checks that required frontmatter fields are present"
    }

    pub fn validate(&self, adr: &Adr, report: &mut ValidationReport)
        ensures
            issue_views(final(report)@) == issue_views(old(report)@) + required_issues(*adr),
    {
        let ghost before = report@;
        if text_is_empty(adr.frontmatter.title.as_str()) {
            let issue = ValidationIssue::error(adr.source_path.as_str(), "missing required field 'title'", self.name());
            report.add_issue(issue);
            assert(issue_views(report@) =~= issue_views(before) + required_issues(*adr));
        } else {
            assert(issue_views(report@) =~= issue_views(before) + required_issues(*adr));
        }
    }
}

/// Warns about an empty description, an absent created date and an empty category.
#[derive(Debug, Clone, Copy)]
pub struct RecommendedFieldsRule;

fn warn_if(report: &mut ValidationReport, adr: &Adr, missing: bool, message: &str)
    ensures
        issue_views(final(report)@) == issue_views(old(report)@) + recommended_one(*adr, missing, message@),
{
    let ghost before = report@;
    if missing {
        report.add_issue(ValidationIssue::warning(adr.source_path.as_str(), message, "recommended-fields"));
    }
    assert(issue_views(report@) =~= issue_views(before) + recommended_one(*adr, missing, message@));
}

impl RecommendedFieldsRule {
    pub fn new() -> (r: RecommendedFieldsRule) {
        RecommendedFieldsRule
    }

    pub fn name(&self) -> (r: &'static str)
        ensures
            r@ == "recommended-fields"@,
    {
        "recommended-fields"
    }

    pub fn description(&self) -> (r: &'static str)
        ensures
            r@ == "Warns about missing recommended fields"@,
    {
        "Warns about missing recommended fields"
    }

    pub fn validate(&self, adr: &Adr, report: &mut ValidationReport)
        ensures
            issue_views(final(report)@) == issue_views(old(report)@) + recommended_issues(*adr),
    {
        let ghost start = issue_views(report@);
        warn_if(report, adr, text_is_empty(adr.frontmatter.description.as_str()), "missing recommended field 'description'");
        warn_if(report, adr, adr.frontmatter.created.is_none(), "missing recommended field 'created'");
        warn_if(report, adr, text_is_empty(adr.frontmatter.category.as_str()), "missing recommended field 'category'");
        assert(issue_views(report@) =~= start + recommended_issues(*adr));
    }
}

/// A validation rule, one of the built-in ones.
#[derive(Debug, Clone, Copy)]
pub enum Rule {
    RequiredFields(RequiredFieldsRule),
    RecommendedFields(RecommendedFieldsRule),
}

/// The issues a rule finds in a record.
pub open spec fn rule_issues(rule: Rule, adr: Adr) -> Seq<IssueView> {
    match rule {
        Rule::RequiredFields(_) => required_issues(adr),
        Rule::RecommendedFields(_) => recommended_issues(adr),
    }
}

impl Rule {
    pub fn name(&self) -> (r: &'static str)
        ensures
            *self is RequiredFields ==> r@ == "required-fields"@,
            *self is RecommendedFields ==> r@ == "recommended-fields"@,
    {
        match self {
            Rule::RequiredFields(r) => r.name(),
            Rule::RecommendedFields(r) => r.name(),
        }
    }

    pub fn description(&self) -> (r: &'static str)
        ensures
            *self is RequiredFields ==> r@ == "Checks that required frontmatter fields are present"@,
            *self is RecommendedFields ==> r@ == "Warns about missing recommended fields"@,
    {
        match self {
            Rule::RequiredFields(r) => r.description(),
            Rule::RecommendedFields(r) => r.description(),
        }
    }

    pub fn validate(&self, adr: &Adr, report: &mut ValidationReport)
        ensures
            issue_views(final(report)@) == issue_views(old(report)@) + rule_issues(*self, *adr),
    {
        match self {
            Rule::RequiredFields(r) => r.validate(adr, report),
            Rule::RecommendedFields(r) => r.validate(adr, report),
        }
    }
}

/// The issues all `rules` find in a record, rule by rule.
pub open spec fn rules_issues(rules: Seq<Rule>, adr: Adr) -> Seq<IssueView>
    decreases rules.len(),
{
    if rules.len() == 0 {
        Seq::empty()
    } else {
        rules_issues(rules.drop_last(), adr) + rule_issues(rules.last(), adr)
    }
}

/// The issues all `rules` find in a batch, record by record.
pub open spec fn batch_issues(rules: Seq<Rule>, adrs: Seq<Adr>) -> Seq<IssueView>
    decreases adrs.len(),
{
    if adrs.len() == 0 {
        Seq::empty()
    } else {
        batch_issues(rules, adrs.drop_last()) + rules_issues(rules, adrs.last())
    }
}

/// The built-in rules, in order: required fields, then recommended fields.
pub fn default_rules() -> (r: Vec<Rule>)
    ensures
        r@ == seq![Rule::RequiredFields(RequiredFieldsRule), Rule::RecommendedFields(RecommendedFieldsRule)],
{
    let r = vec![Rule::RequiredFields(RequiredFieldsRule), Rule::RecommendedFields(RecommendedFieldsRule)];
    assert(r@ =~= seq![Rule::RequiredFields(RequiredFieldsRule), Rule::RecommendedFields(RecommendedFieldsRule)]);
    r
}

/// Runs an ordered list of rules over records.
#[derive(Debug, Clone)]
pub struct Validator {
    rules: Vec<Rule>,
}

impl Validator {
    pub fn new(rules: Vec<Rule>) -> (r: Validator)
        ensures
            r.rule_seq() == rules@,
    {
        Validator { rules }
    }

    pub closed spec fn rule_seq(&self) -> Seq<Rule> {
        self.rules@
    }

    pub fn add_rule(&mut self, rule: Rule)
        ensures
            final(self).rule_seq() == old(self).rule_seq().push(rule),
    {
        self.rules.push(rule);
    }

    pub fn rules(&self) -> (r: &[Rule])
        ensures
            r@ == self.rule_seq(),
    {
        self.rules.as_slice()
    }

    fn run_rules(&self, adr: &Adr, report: &mut ValidationReport)
        ensures
            issue_views(final(report)@) == issue_views(old(report)@) + rules_issues(self.rule_seq(), *adr),
    {
        let ghost start = issue_views(report@);
        let mut k: usize = 0;
        assert(start + rules_issues(self.rules@.subrange(0, 0), *adr) =~= start);
        while k < self.rules.len()
            invariant
                k <= self.rules@.len(),
                issue_views(report@) == start + rules_issues(self.rules@.subrange(0, k as int), *adr),
            decreases self.rules@.len() - k,
        {
            proof {
                assert(self.rules@.subrange(0, k + 1).drop_last() =~= self.rules@.subrange(0, k as int));
            }
            self.rules[k].validate(adr, report);
            assert(issue_views(report@) =~= start + rules_issues(self.rules@.subrange(0, k + 1), *adr));
            k += 1;
        }
        assert(self.rules@.subrange(0, self.rules@.len() as int) =~= self.rules@);
    }

    /// The report of every rule on one record, rule by rule.
    pub fn validate(&self, adr: &Adr) -> (r: ValidationReport)
        ensures
            issue_views(r@) == rules_issues(self.rule_seq(), *adr),
    {
        let mut report = ValidationReport::new();
        assert(issue_views(report@) =~= Seq::<IssueView>::empty());
        self.run_rules(adr, &mut report);
        assert(Seq::<IssueView>::empty() + rules_issues(self.rule_seq(), *adr) =~= rules_issues(self.rule_seq(), *adr));
        report
    }

    /// The reports of every record, in batch order.
    pub fn validate_all(&self, adrs: &[Adr]) -> (r: ValidationReport)
        ensures
            issue_views(r@) == batch_issues(self.rule_seq(), adrs@),
    {
        let mut report = ValidationReport::new();
        let mut i: usize = 0;
        assert(issue_views(report@) =~= Seq::<IssueView>::empty());
        assert(adrs@.subrange(0, 0) =~= Seq::<Adr>::empty());
        while i < adrs.len()
            invariant
                i <= adrs@.len(),
                issue_views(report@) == batch_issues(self.rule_seq(), adrs@.subrange(0, i as int)),
            decreases adrs@.len() - i,
        {
            proof {
                assert(adrs@.subrange(0, i + 1).drop_last() =~= adrs@.subrange(0, i as int));
            }
            self.run_rules(&adrs[i], &mut report);
            i += 1;
        }
        assert(adrs@.subrange(0, adrs@.len() as int) =~= adrs@);
        report
    }
}

} // verus!
