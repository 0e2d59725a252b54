use adrscope::frontmatter::read_header_fields;
use adrscope::{Date, Error, Frontmatter, FrontmatterParser, Status, StatusWarnings};

fn decode(yaml: &str) -> Result<Frontmatter, Error> {
    let mut warnings = StatusWarnings::new();
    let fields = read_header_fields("test.md", yaml)?;
    Frontmatter::from_fields("test.md", fields, &mut warnings).map(|(fm, _)| fm)
}

#[test]
fn test_frontmatter_default() {
    let fm = Frontmatter::default();
    assert!(fm.title.is_empty());
    assert_eq!(fm.doc_type, "adr");
    assert_eq!(fm.status, Status::Proposed);
}

#[test]
fn test_frontmatter_builder() {
    let fm = Frontmatter::new("Test ADR")
        .with_description("A test decision")
        .with_status(Status::Accepted)
        .with_category("architecture")
        .with_author("Test Team");
    assert_eq!(fm.title, "Test ADR");
    assert_eq!(fm.description, "A test decision");
    assert_eq!(fm.status, Status::Accepted);
    assert_eq!(fm.category, "architecture");
    assert_eq!(fm.author, "Test Team");
}

#[test]
fn test_frontmatter_deserialization() {
    let yaml = "\ntitle: Use PostgreSQL\ndescription: Decision to use PostgreSQL for storage\nstatus: accepted\ncategory: architecture\ntags:\n  - database\n  - postgresql\nauthor: Architecture Team\ncreated: \"2025-01-15\"\n";
    let fm = decode(yaml).expect("should parse");
    assert_eq!(fm.title, "Use PostgreSQL");
    assert_eq!(fm.status, Status::Accepted);
    assert_eq!(fm.tags, vec!["database", "postgresql"]);
    assert!(fm.created.is_some());
}

#[test]
fn test_frontmatter_builder_all_fields() {
    let fm = Frontmatter::new("Complete ADR")
        .with_description("Full description")
        .with_status(Status::Deprecated)
        .with_category("security")
        .with_author("Security Team")
        .with_project("my-project")
        .with_created(Date::from_calendar_date(2025, 1, 10).unwrap())
        .with_updated(Date::from_calendar_date(2025, 1, 15).unwrap())
        .with_tags(vec!["security".to_string(), "auth".to_string()])
        .with_technologies(vec!["rust".to_string(), "wasm".to_string()])
        .with_related(vec!["adr-001.md".to_string(), "adr-002.md".to_string()]);
    assert_eq!(fm.title, "Complete ADR");
    assert_eq!(fm.description, "Full description");
    assert_eq!(fm.status, Status::Deprecated);
    assert_eq!(fm.category, "security");
    assert_eq!(fm.author, "Security Team");
    assert_eq!(fm.project, "my-project");
    assert_eq!(fm.created, Date::from_calendar_date(2025, 1, 10));
    assert_eq!(fm.updated, Date::from_calendar_date(2025, 1, 15));
    assert_eq!(fm.tags, vec!["security", "auth"]);
    assert_eq!(fm.technologies, vec!["rust", "wasm"]);
    assert_eq!(fm.related, vec!["adr-001.md", "adr-002.md"]);
}

#[test]
fn test_frontmatter_unknown_status_defaults_to_proposed() {
    let yaml = "\ntitle: ADR with unknown status\ndescription: This ADR has a non-standard status\nstatus: published\ncategory: architecture\n";
    let fm = decode(yaml).expect("should parse even with unknown status");
    assert_eq!(fm.title, "ADR with unknown status");
    assert_eq!(fm.status, Status::Proposed);
}

#[test]
fn test_frontmatter_missing_status_defaults_to_proposed() {
    let yaml = "\ntitle: ADR without status\ndescription: This ADR has no status field\n";
    let fm = decode(yaml).expect("should parse");
    assert_eq!(fm.status, Status::Proposed);
}

#[test]
fn test_parse_frontmatter_success() {
    let content = "---\ntitle: Use Rust\ndescription: Decision to use Rust for CLI\nstatus: accepted\ncategory: technology\ntags:\n  - rust\n  - cli\nauthor: Team Lead\n---\nBody here.\n";
    let parser = FrontmatterParser::new();
    let mut warnings = StatusWarnings::new();
    let (frontmatter, body, _) = parser.parse("test.md", content, &mut warnings).expect("should parse");
    assert_eq!(frontmatter.title, "Use Rust");
    assert_eq!(frontmatter.description, "Decision to use Rust for CLI");
    assert_eq!(frontmatter.category, "technology");
    assert_eq!(frontmatter.tags, vec!["rust", "cli"]);
    assert_eq!(frontmatter.author, "Team Lead");
    assert_eq!(body.trim(), "Body here.");
}

// An absent title decodes to an empty one, which is reported as a missing field.
#[test]
fn test_parse_frontmatter_missing_title() {
    let content = "---\ndescription: Missing title\n---\nBody\n";
    let parser = FrontmatterParser::new();
    let mut warnings = StatusWarnings::new();
    let result = parser.parse("test.md", content, &mut warnings);
    assert!(result.is_err());
    assert!(matches!(result, Err(Error::MissingField { .. })));
}

#[test]
fn test_parse_frontmatter_empty_title() {
    let content = "---\ntitle: \"\"\n---\nBody\n";
    let parser = FrontmatterParser::new();
    let mut warnings = StatusWarnings::new();
    let result = parser.parse("test.md", content, &mut warnings);
    assert!(result.is_err());
    if let Err(Error::MissingField { field, .. }) = result {
        assert_eq!(field, "title");
    } else {
        panic!("Expected MissingField error, got {:?}", result);
    }
}

#[test]
fn test_parse_frontmatter_invalid_yaml() {
    let content = "---\ntitle: Test\ninvalid: [unclosed bracket\n---\nBody\n";
    let parser = FrontmatterParser::new();
    let mut warnings = StatusWarnings::new();
    let result = parser.parse("test.md", content, &mut warnings);
    assert!(matches!(result, Err(Error::YamlParse { .. })));
}

#[test]
fn test_parse_frontmatter_with_dates() {
    let content = "---\ntitle: Test with Dates\ncreated: \"2025-01-15\"\nupdated: \"2025-01-20\"\n---\nBody\n";
    let parser = FrontmatterParser::new();
    let mut warnings = StatusWarnings::new();
    let (frontmatter, _, _) = parser.parse("test.md", content, &mut warnings).expect("should parse");
    assert!(frontmatter.created.is_some());
    assert!(frontmatter.updated.is_some());
}

#[test]
fn test_parse_frontmatter_with_related() {
    let content = "---\ntitle: Related ADRs\nrelated:\n  - adr_0001.md\n  - adr_0005.md\n---\nBody\n";
    let parser = FrontmatterParser::new();
    let mut warnings = StatusWarnings::new();
    let (frontmatter, _, _) = parser.parse("test.md", content, &mut warnings).expect("should parse");
    assert_eq!(frontmatter.related, vec!["adr_0001.md", "adr_0005.md"]);
}

#[test]
fn malformed_header_is_invalid_frontmatter() {
    let mut warnings = StatusWarnings::new();
    let result = FrontmatterParser::new().parse("x.md", "title: no delimiters", &mut warnings);
    assert!(matches!(result, Err(Error::InvalidFrontmatter { .. })));
}

#[test]
fn malformed_date_is_date_error_and_empty_date_is_none() {
    let mut warnings = StatusWarnings::new();
    let bad = FrontmatterParser::new().parse("x.md", "---\ntitle: T\ncreated: \"15/01/2025\"\n---\n", &mut warnings);
    assert!(matches!(bad, Err(Error::DateParse { .. })));
    let (fm, _, _) = FrontmatterParser::new()
        .parse("x.md", "---\ntitle: T\ncreated: \"\"\n---\n", &mut warnings)
        .unwrap();
    assert_eq!(fm.created, None);
    let (fm, _, _) = FrontmatterParser::new()
        .parse("x.md", "---\ntitle: T\ncreated: 2024-02-29\n---\n", &mut warnings)
        .unwrap();
    let d = fm.created.unwrap();
    assert_eq!((d.year(), d.month(), d.day()), (2024, 2, 29));
}

#[test]
fn defaults_fill_absent_fields() {
    let fm = decode("title: Only a title").unwrap();
    assert_eq!(fm.doc_type, "adr");
    assert!(fm.description.is_empty());
    assert!(fm.tags.is_empty());
    assert!(fm.related.is_empty());
    assert_eq!(fm.created, None);
    let fm = decode("title: T\ntype: decision\naudience: [devs, ops]").unwrap();
    assert_eq!(fm.doc_type, "decision");
    assert_eq!(fm.audience, vec!["devs", "ops"]);
}

#[test]
fn wrongly_shaped_value_is_schema_error() {
    assert!(matches!(decode("title: [a, b]"), Err(Error::YamlParse { .. })));
}

#[test]
fn unknown_status_reported_once_through_parser() {
    let mut warnings = StatusWarnings::new();
    let parser = FrontmatterParser::new();
    let (_, _, first) = parser.parse("a.md", "---\ntitle: A\nstatus: published\n---\n", &mut warnings).unwrap();
    let (_, _, second) = parser.parse("b.md", "---\ntitle: B\nstatus: PUBLISHED\n---\n", &mut warnings).unwrap();
    let (_, _, third) = parser.parse("c.md", "---\ntitle: C\nstatus: Published\n---\n", &mut warnings).unwrap();
    assert_eq!(first, Some("published".to_string()));
    assert_eq!(second, None);
    assert_eq!(third, None);
}

#[test]
fn calendar_dates_are_checked() {
    assert!(Date::from_calendar_date(2023, 2, 29).is_none());
    assert!(Date::from_calendar_date(2000, 2, 29).is_some());
    assert!(Date::from_calendar_date(1900, 2, 29).is_none());
    assert!(Date::from_calendar_date(2025, 4, 31).is_none());
    assert!(Date::from_calendar_date(2025, 13, 1).is_none());
    let a = Date::from_calendar_date(2024, 12, 31).unwrap();
    let b = Date::from_calendar_date(2025, 1, 1).unwrap();
    assert!(a.is_before(&b));
    assert!(!b.is_before(&a));
    assert!(!a.is_before(&a));
}

#[test]
fn scalar_values_read_as_text() {
    let fm = decode("title: 2024\nproject: 42\nauthor: true\ntags: [2024, api]\ncategory: 1.5").unwrap();
    assert_eq!(fm.title, "2024");
    assert_eq!(fm.project, "42");
    assert_eq!(fm.author, "true");
    assert_eq!(fm.tags, vec!["2024", "api"]);
    assert_eq!(fm.category, "1.5");
    let fm = decode("title: \"2024\"\ndescription: 'quoted: text'\ncreated: 2025-01-15").unwrap();
    assert_eq!(fm.title, "2024");
    assert_eq!(fm.description, "quoted: text");
    assert!(fm.created.is_some());
}
