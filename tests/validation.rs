use adrscope::{
    default_rules, Adr, AdrId, Frontmatter, RecommendedFieldsRule, RequiredFieldsRule, Severity, ValidationIssue,
    ValidationReport, Validator,
};

fn create_test_adr(title: &str) -> Adr {
    let frontmatter = Frontmatter::new(title);
    Adr::new(AdrId::new("test"), "test.md".to_string(), "test.md".to_string(), frontmatter, String::new(), String::new(), String::new())
}

#[test]
fn test_validation_issue_display() {
    let issue = ValidationIssue::error("test.md", "missing title", "required-fields");
    let display = issue.to_string();
    assert!(display.contains("error:"));
    assert!(display.contains("test.md"));
    assert!(display.contains("missing title"));
    assert!(display.contains("[required-fields]"));
    assert_eq!(display, "error: test.md: missing title [required-fields]");
}

#[test]
fn test_validation_issue_with_line() {
    let issue = ValidationIssue::warning("test.md", "missing description", "recommended").with_line(5);
    let display = issue.to_string();
    assert!(display.contains(":5:"));
    assert_eq!(
        ValidationIssue::warning("a.md", "m", "r").with_line(1207).to_string(),
        "warning: a.md:1207: m [r]"
    );
}

#[test]
fn test_validation_report() {
    let mut report = ValidationReport::new();
    assert!(report.is_empty());
    assert!(report.is_valid());
    report.add_issue(ValidationIssue::warning("a.md", "warning 1", "test"));
    assert!(!report.is_empty());
    assert!(report.is_valid());
    report.add_issue(ValidationIssue::error("b.md", "error 1", "test"));
    assert!(!report.is_valid());
    assert!(report.has_errors());
    assert_eq!(report.warning_count(), 1);
    assert_eq!(report.error_count(), 1);
    assert_eq!(report.len(), 2);
}

#[test]
fn test_required_fields_rule() {
    let rule = RequiredFieldsRule;
    let mut report = ValidationReport::new();
    let adr = create_test_adr("Test Title");
    rule.validate(&adr, &mut report);
    assert!(report.is_valid());
    let mut report = ValidationReport::new();
    let adr = create_test_adr("");
    rule.validate(&adr, &mut report);
    assert!(report.has_errors());
}

#[test]
fn test_validator_with_multiple_rules() {
    let validator = Validator::new(default_rules());
    let adr = create_test_adr("Test");
    let report = validator.validate_all(&[adr]);
    assert!(report.warning_count() > 0);
}

#[test]
fn test_validation_report_add_issues() {
    let mut report = ValidationReport::new();
    let issues = vec![
        ValidationIssue::error("a.md", "error 1", "test"),
        ValidationIssue::warning("b.md", "warning 1", "test"),
        ValidationIssue::error("c.md", "error 2", "test"),
    ];
    report.add_issues(issues);
    assert_eq!(report.len(), 3);
    assert_eq!(report.error_count(), 2);
    assert_eq!(report.warning_count(), 1);
}

#[test]
fn test_validation_report_issues_accessor() {
    let mut report = ValidationReport::new();
    report.add_issue(ValidationIssue::error("test.md", "error message", "test-rule"));
    let issues = report.issues();
    assert_eq!(issues.len(), 1);
    assert_eq!(issues[0].message, "error message");
    assert_eq!(issues[0].rule, "test-rule");
}

#[test]
fn test_validation_report_issues_by_severity() {
    let mut report = ValidationReport::new();
    report.add_issue(ValidationIssue::error("a.md", "error 1", "test"));
    report.add_issue(ValidationIssue::warning("b.md", "warning 1", "test"));
    report.add_issue(ValidationIssue::error("c.md", "error 2", "test"));
    let errors = report.issues_by_severity(Severity::Error);
    assert_eq!(errors.len(), 2);
    let warnings = report.issues_by_severity(Severity::Warning);
    assert_eq!(warnings.len(), 1);
}

#[test]
fn test_required_fields_rule_metadata() {
    let rule = RequiredFieldsRule::new();
    assert_eq!(rule.name(), "required-fields");
    assert!(!rule.description().is_empty());
}

#[test]
fn test_recommended_fields_rule_metadata() {
    let rule = RecommendedFieldsRule::new();
    assert_eq!(rule.name(), "recommended-fields");
    assert!(!rule.description().is_empty());
}

#[test]
fn test_recommended_fields_rule_validation() {
    let rule = RecommendedFieldsRule::new();
    let mut report = ValidationReport::new();
    let adr = create_test_adr("Test ADR");
    rule.validate(&adr, &mut report);
    assert_eq!(report.warning_count(), 3);
}

#[test]
fn sparse_record_gets_three_warnings_and_stays_valid() {
    let validator = Validator::new(default_rules());
    let report = validator.validate(&create_test_adr("Has a title"));
    assert_eq!(report.warning_count(), 3);
    assert_eq!(report.error_count(), 0);
    assert!(report.is_valid());
    let messages: Vec<&str> = report.issues().iter().map(|i| i.message.as_str()).collect();
    assert_eq!(
        messages,
        vec![
            "missing recommended field 'description'",
            "missing recommended field 'created'",
            "missing recommended field 'category'"
        ]
    );
    assert!(report.issues().iter().all(|i| i.rule == "recommended-fields" && i.line.is_none()));
}

#[test]
fn empty_title_gives_error_first_and_merge_appends() {
    let validator = Validator::new(default_rules());
    let mut report = validator.validate(&create_test_adr(""));
    assert_eq!(report.issues()[0].severity, Severity::Error);
    assert_eq!(report.issues()[0].message, "missing required field 'title'");
    assert_eq!(report.len(), 4);
    let other = validator.validate_all(&[create_test_adr("a"), create_test_adr("b")]);
    assert_eq!(other.len(), 6);
    report.merge(other);
    assert_eq!(report.len(), 10);
    assert_eq!(report.errors().len(), 1);
    assert_eq!(report.warnings().len(), 9);
    assert_eq!(Severity::Error.as_str(), "error");
    assert_eq!(Severity::Warning.as_str(), "warning");
}
