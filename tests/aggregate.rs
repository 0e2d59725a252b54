use adrscope::counts::CountMap;
use adrscope::facets::sorted_facet_values;
use adrscope::{Adr, AdrId, AdrStatistics, Date, Facet, FacetValue, Facets, Frontmatter, Status};

fn adr(id: &str, fm: Frontmatter) -> Adr {
    Adr::new(AdrId::new(id), format!("{id}.md"), format!("{id}.md"), fm, String::new(), String::new(), String::new())
}

fn date(y: i32, m: u8, d: u8) -> Date {
    Date::from_calendar_date(y, m, d).unwrap()
}

fn create_test_adr(title: &str, status: Status, category: &str) -> Adr {
    let frontmatter = Frontmatter::new(title).with_status(status).with_category(category).with_created(date(2025, 1, 15));
    adr("test", frontmatter)
}

fn table(pairs: &[(&str, usize)]) -> CountMap {
    CountMap::from_entries(pairs.iter().map(|(k, v)| (k.to_string(), *v)).collect())
}

#[test]
fn test_facet_value_creation() {
    let fv = FacetValue::new("accepted", 10);
    assert_eq!(fv.value, "accepted");
    assert_eq!(fv.count, 10);
}

#[test]
fn test_facet_sorting() {
    let values = vec![FacetValue::new("a", 1), FacetValue::new("b", 5), FacetValue::new("c", 3)];
    let facet = Facet::new("test", values);
    assert_eq!(facet.values[0].value, "b");
    assert_eq!(facet.values[1].value, "c");
    assert_eq!(facet.values[2].value, "a");
}

#[test]
fn test_facet_from_counts() {
    let counts = table(&[("proposed", 5), ("accepted", 10)]);
    let facet = Facet::from_counts("status", &counts);
    assert_eq!(facet.name, "status");
    assert_eq!(facet.values[0].value, "accepted");
    assert_eq!(facet.values[0].count, 10);
}

#[test]
fn test_sorted_facet_values_alphabetical_tie() {
    let counts = table(&[("zebra", 5), ("apple", 5)]);
    let values = sorted_facet_values(&counts);
    assert_eq!(values[0].value, "apple");
    assert_eq!(values[1].value, "zebra");
}

#[test]
fn test_facets_from_adrs_with_all_fields() {
    let frontmatter1 = Frontmatter::new("ADR 1")
        .with_status(Status::Accepted)
        .with_category("architecture")
        .with_author("Alice")
        .with_project("project-alpha")
        .with_tags(vec!["database".to_string(), "performance".to_string()])
        .with_technologies(vec!["rust".to_string(), "postgres".to_string()]);
    let frontmatter2 = Frontmatter::new("ADR 2")
        .with_status(Status::Proposed)
        .with_category("api")
        .with_author("Bob")
        .with_project("project-beta")
        .with_tags(vec!["rest".to_string(), "database".to_string()])
        .with_technologies(vec!["rust".to_string(), "redis".to_string()]);
    let facets = Facets::from_adrs(&[adr("adr_0001", frontmatter1), adr("adr_0002", frontmatter2)]);
    assert!(facets.statuses.iter().any(|f| f.value == "accepted" && f.count == 1));
    assert!(facets.statuses.iter().any(|f| f.value == "proposed" && f.count == 1));
    assert!(facets.categories.iter().any(|f| f.value == "architecture" && f.count == 1));
    assert!(facets.categories.iter().any(|f| f.value == "api" && f.count == 1));
    assert!(facets.authors.iter().any(|f| f.value == "Alice" && f.count == 1));
    assert!(facets.authors.iter().any(|f| f.value == "Bob" && f.count == 1));
    assert!(facets.projects.iter().any(|f| f.value == "project-alpha" && f.count == 1));
    assert!(facets.projects.iter().any(|f| f.value == "project-beta" && f.count == 1));
    assert!(facets.tags.iter().any(|f| f.value == "database" && f.count == 2));
    assert!(facets.technologies.iter().any(|f| f.value == "rust" && f.count == 2));
    assert!(facets.technologies.iter().any(|f| f.value == "postgres" && f.count == 1));
    assert!(facets.technologies.iter().any(|f| f.value == "redis" && f.count == 1));
}

#[test]
fn facet_order_includes_zero_status_counts() {
    let adrs = vec![
        create_test_adr("1", Status::Accepted, ""),
        create_test_adr("2", Status::Accepted, "x"),
        create_test_adr("3", Status::Proposed, "x"),
    ];
    let facets = Facets::from_adrs(&adrs);
    let got: Vec<(&str, usize)> = facets.statuses.iter().map(|f| (f.value.as_str(), f.count)).collect();
    assert_eq!(got, vec![("accepted", 2), ("proposed", 1), ("deprecated", 0), ("superseded", 0)]);
    let cats: Vec<(&str, usize)> = facets.categories.iter().map(|f| (f.value.as_str(), f.count)).collect();
    assert_eq!(cats, vec![("x", 2)]);
    assert!(facets.tags.is_empty());
}

#[test]
fn test_statistics_empty() {
    let stats = AdrStatistics::from_adrs(&[]);
    assert_eq!(stats.total_count, 0);
    assert_eq!(stats.earliest_date, None);
    assert_eq!(stats.latest_date, None);
}

#[test]
fn test_statistics_by_status() {
    let adrs = vec![
        create_test_adr("ADR 1", Status::Accepted, "arch"),
        create_test_adr("ADR 2", Status::Accepted, "api"),
        create_test_adr("ADR 3", Status::Proposed, "arch"),
    ];
    let stats = AdrStatistics::from_adrs(&adrs);
    assert_eq!(stats.total_count, 3);
    assert_eq!(stats.by_status.get("accepted"), Some(2));
    assert_eq!(stats.by_status.get("proposed"), Some(1));
    assert_eq!(stats.by_status.get("deprecated"), Some(0));
    assert_eq!(stats.by_status.get("superseded"), Some(0));
}

#[test]
fn test_statistics_by_category() {
    let adrs = vec![
        create_test_adr("ADR 1", Status::Accepted, "architecture"),
        create_test_adr("ADR 2", Status::Accepted, "architecture"),
        create_test_adr("ADR 3", Status::Proposed, "api"),
    ];
    let stats = AdrStatistics::from_adrs(&adrs);
    assert_eq!(stats.by_category.get("architecture"), Some(2));
    assert_eq!(stats.by_category.get("api"), Some(1));
}

#[test]
fn test_statistics_date_range() {
    let mut fm1 = Frontmatter::new("Early");
    fm1.created = Some(date(2024, 1, 1));
    let mut fm2 = Frontmatter::new("Late");
    fm2.created = Some(date(2025, 6, 15));
    let stats = AdrStatistics::from_adrs(&[adr("1", fm1), adr("2", fm2)]);
    assert_eq!(stats.earliest_date, Some(date(2024, 1, 1)));
    assert_eq!(stats.latest_date, Some(date(2025, 6, 15)));
    assert_eq!(stats.by_year.get(&2024), Some(&1));
    assert_eq!(stats.by_year.get(&2025), Some(&1));
    assert_eq!(stats.by_year.get(&2023), None);
}

#[test]
fn test_top_n() {
    let counts = table(&[("a", 10), ("b", 5), ("c", 20), ("d", 1)]);
    let top = AdrStatistics::top_n(&counts, 2);
    assert_eq!(top.len(), 2);
    assert_eq!(top[0], ("c".to_string(), 20));
    assert_eq!(top[1], ("a".to_string(), 10));
    assert_eq!(AdrStatistics::top_n(&counts, 10).len(), 4);
}

fn three(fms: [Frontmatter; 3]) -> Vec<Adr> {
    let [a, b, c] = fms;
    vec![adr("1", a), adr("2", b), adr("3", c)]
}

#[test]
fn test_statistics_by_author() {
    let adrs = three([
        Frontmatter::new("ADR 1").with_status(Status::Accepted).with_author("Alice").with_created(date(2025, 1, 15)),
        Frontmatter::new("ADR 2").with_status(Status::Proposed).with_author("Bob").with_created(date(2025, 1, 15)),
        Frontmatter::new("ADR 3").with_status(Status::Accepted).with_author("Alice").with_created(date(2025, 1, 15)),
    ]);
    let stats = AdrStatistics::from_adrs(&adrs);
    assert_eq!(stats.by_author.get("Alice"), Some(2));
    assert_eq!(stats.by_author.get("Bob"), Some(1));
    assert_eq!(stats.by_year.get(&2025), Some(&3));
}

#[test]
fn test_statistics_by_technology() {
    let fm1 = Frontmatter::new("ADR 1")
        .with_status(Status::Accepted)
        .with_technologies(vec!["rust".to_string(), "postgres".to_string()])
        .with_created(date(2025, 1, 15));
    let fm2 = Frontmatter::new("ADR 2")
        .with_status(Status::Proposed)
        .with_technologies(vec!["rust".to_string(), "redis".to_string()])
        .with_created(date(2025, 1, 15));
    let stats = AdrStatistics::from_adrs(&[adr("1", fm1), adr("2", fm2)]);
    assert_eq!(stats.by_technology.get("rust"), Some(2));
    assert_eq!(stats.by_technology.get("postgres"), Some(1));
    assert_eq!(stats.by_technology.get("redis"), Some(1));
}

#[test]
fn test_statistics_by_project() {
    let adrs = three([
        Frontmatter::new("ADR 1").with_status(Status::Accepted).with_project("project-alpha").with_created(date(2025, 1, 15)),
        Frontmatter::new("ADR 2").with_status(Status::Proposed).with_project("project-beta").with_created(date(2025, 1, 15)),
        Frontmatter::new("ADR 3").with_status(Status::Accepted).with_project("project-alpha").with_created(date(2025, 1, 15)),
    ]);
    let stats = AdrStatistics::from_adrs(&adrs);
    assert_eq!(stats.by_project.get("project-alpha"), Some(2));
    assert_eq!(stats.by_project.get("project-beta"), Some(1));
}

#[test]
fn test_statistics_by_tag() {
    let fm1 = Frontmatter::new("ADR 1")
        .with_status(Status::Accepted)
        .with_tags(vec!["database".to_string(), "performance".to_string()])
        .with_created(date(2025, 1, 15));
    let fm2 = Frontmatter::new("ADR 2")
        .with_status(Status::Proposed)
        .with_tags(vec!["database".to_string(), "security".to_string()])
        .with_created(date(2025, 1, 15));
    let stats = AdrStatistics::from_adrs(&[adr("1", fm1), adr("2", fm2)]);
    assert_eq!(stats.by_tag.get("database"), Some(2));
    assert_eq!(stats.by_tag.get("performance"), Some(1));
    assert_eq!(stats.by_tag.get("security"), Some(1));
}

#[test]
fn repeated_value_counts_match_between_views() {
    // five records, "shared" repeated three times across them
    let mut adrs = Vec::new();
    for (i, cat) in ["shared", "other", "shared", "", "shared"].iter().enumerate() {
        adrs.push(adr(&i.to_string(), Frontmatter::new("T").with_category(cat)));
    }
    let stats = AdrStatistics::from_adrs(&adrs);
    let facets = Facets::from_adrs(&adrs);
    assert_eq!(stats.total_count, 5);
    assert_eq!(stats.by_category.get("shared"), Some(3));
    assert_eq!(stats.by_category.get(""), None);
    assert_eq!(facets.categories[0].value, "shared");
    assert_eq!(facets.categories[0].count, 3);
    assert_eq!(stats.by_status.get("proposed"), Some(5));
}

#[test]
fn equal_dates_keep_first_and_bounds_track_extremes() {
    let adrs = vec![
        adr("1", Frontmatter::new("a").with_created(date(2024, 5, 1))),
        adr("2", Frontmatter::new("b")),
        adr("3", Frontmatter::new("c").with_created(date(2023, 12, 31))),
        adr("4", Frontmatter::new("d").with_created(date(2024, 5, 2))),
    ];
    let stats = AdrStatistics::from_adrs(&adrs);
    assert_eq!(stats.earliest_date, Some(date(2023, 12, 31)));
    assert_eq!(stats.latest_date, Some(date(2024, 5, 2)));
    assert_eq!(stats.by_year.get(&2024), Some(&2));
    assert_eq!(stats.by_year.get(&2023), Some(&1));
}
