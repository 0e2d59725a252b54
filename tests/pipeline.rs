use adrscope::pipeline::{sort_by_id, validation_passed};
use adrscope::{parse_batch, validate_batch, AdrStatistics, Error, Graph, StatusWarnings};

fn record(title: &str, status: &str) -> String {
    format!("---\ntitle: {title}\nstatus: {status}\ncategory: arch\n---\n\nBody of {title}.\n")
}

#[test]
fn batch_with_three_statuses_counts_each() {
    let inputs = vec![
        ("docs/a.md".to_string(), record("A", "accepted")),
        ("docs/b.md".to_string(), record("B", "Accepted")),
        ("docs/c.md".to_string(), record("C", "proposed")),
    ];
    let mut warnings = StatusWarnings::new();
    let outcome = parse_batch(&inputs, &mut warnings);
    assert!(outcome.errors.is_empty());
    let stats = AdrStatistics::from_adrs(&outcome.adrs);
    assert_eq!(stats.total_count, 3);
    assert_eq!(stats.by_status.get("accepted"), Some(2));
    assert_eq!(stats.by_status.get("proposed"), Some(1));
    assert_eq!(stats.by_status.get("deprecated"), Some(0));
    assert_eq!(stats.by_status.get("superseded"), Some(0));
}

#[test]
fn record_without_title_is_skipped_with_missing_field() {
    let inputs = vec![
        ("docs/ok.md".to_string(), record("Fine", "accepted")),
        ("docs/untitled.md".to_string(), "---\ndescription: no title\n---\nBody\n".to_string()),
    ];
    let mut warnings = StatusWarnings::new();
    let outcome = parse_batch(&inputs, &mut warnings);
    assert_eq!(outcome.adrs.len(), 1);
    assert_eq!(outcome.adrs[0].id().as_str(), "ok");
    assert_eq!(outcome.errors.len(), 1);
    assert_eq!(outcome.errors[0].0, "docs/untitled.md");
    assert!(matches!(&outcome.errors[0].1, Error::MissingField { field, .. } if field == "title"));
}

#[test]
fn unknown_statuses_across_records_report_once() {
    let inputs = vec![
        ("1.md".to_string(), record("One", "published")),
        ("2.md".to_string(), record("Two", "PUBLISHED")),
        ("3.md".to_string(), record("Three", "Published")),
    ];
    let mut warnings = StatusWarnings::new();
    let outcome = parse_batch(&inputs, &mut warnings);
    assert_eq!(outcome.adrs.len(), 3);
    assert!(outcome.adrs.iter().all(|a| a.status() == adrscope::Status::Proposed));
    assert_eq!(outcome.reports, vec!["published".to_string()]);
}

#[test]
fn dangling_reference_through_the_pipeline() {
    let inputs = vec![("A.md".to_string(), "---\ntitle: A\nrelated:\n  - B.md\n---\n".to_string())];
    let mut warnings = StatusWarnings::new();
    let outcome = parse_batch(&inputs, &mut warnings);
    let graph = Graph::from_adrs(&outcome.adrs);
    assert_eq!(graph.node_count(), 2);
    assert_eq!(graph.edge_count(), 1);
    assert_eq!(graph.nodes[1].id, "B");
    assert!(graph.nodes[1].title.is_none());
}

#[test]
fn sort_by_id_orders_records() {
    let inputs = vec![
        ("adr_0003.md".to_string(), record("C", "accepted")),
        ("adr_0001.md".to_string(), record("A", "accepted")),
        ("adr_0002.md".to_string(), record("B", "accepted")),
    ];
    let mut warnings = StatusWarnings::new();
    let outcome = parse_batch(&inputs, &mut warnings);
    let sorted = sort_by_id(outcome.adrs);
    let ids: Vec<&str> = sorted.iter().map(|a| a.id().as_str()).collect();
    assert_eq!(ids, vec!["adr_0001", "adr_0002", "adr_0003"]);
}

#[test]
fn validate_batch_totals_and_strictness() {
    let inputs = vec![
        ("a.md".to_string(), "---\ntitle: A\n---\nbody".to_string()),
        ("b.md".to_string(), "no header".to_string()),
    ];
    let mut warnings = StatusWarnings::new();
    let lenient = validate_batch(&inputs, false, &mut warnings);
    assert_eq!(lenient.reports.len(), 1);
    assert_eq!(lenient.parse_errors.len(), 1);
    assert_eq!(lenient.total_errors, 0);
    assert_eq!(lenient.total_warnings, 3);
    assert!(!lenient.passed);
    assert_eq!(lenient.all_issues().len(), 3);
    assert_eq!(lenient.warning_issues().len(), 3);
    assert_eq!(lenient.error_issues().len(), 0);
    let only_good = validate_batch(&inputs[..1], false, &mut warnings);
    assert!(only_good.passed);
    let strict = validate_batch(&inputs[..1], true, &mut warnings);
    assert!(!strict.passed);
    assert!(validation_passed(0, 5, 0, false));
    assert!(!validation_passed(0, 5, 0, true));
    assert!(!validation_passed(1, 0, 0, false));
}

#[test]
fn batch_errors_carry_their_kind() {
    let inputs = vec![
        ("a.md".to_string(), "no header".to_string()),
        ("b.md".to_string(), "---\ntitle: [x\n---\n".to_string()),
        ("c.md".to_string(), "---\ntitle: C\ncreated: nope\n---\n".to_string()),
        ("d.md".to_string(), "---\ntitle: \"\"\n---\n".to_string()),
        ("e.md".to_string(), "---\ntitle: E\nstatus: Draft\n---\n".to_string()),
    ];
    let mut warnings = StatusWarnings::new();
    let outcome = parse_batch(&inputs, &mut warnings);
    assert_eq!(outcome.adrs.len(), 1);
    let kinds: Vec<(&str, &Error)> = outcome.errors.iter().map(|(p, e)| (p.as_str(), e)).collect();
    assert!(matches!(kinds[0], ("a.md", Error::InvalidFrontmatter { .. })));
    assert!(matches!(kinds[1], ("b.md", Error::YamlParse { .. })));
    assert!(matches!(kinds[2], ("c.md", Error::DateParse { .. })));
    assert!(matches!(kinds[3], ("d.md", Error::MissingField { .. })));
    assert_eq!(outcome.reports, vec!["draft".to_string()]);
    assert!(warnings.contains("draft"));
}
