use adrscope::{Adr, AdrId, Date, DefaultAdrParser, Frontmatter, MarkdownRenderer, Status, StatusWarnings};

#[test]
fn test_adr_id_from_path() {
    let id = AdrId::from_path("docs/decisions/adr_0001.md");
    assert_eq!(id.as_str(), "adr_0001");
}

#[test]
fn test_adr_id_display() {
    let id = AdrId::new("adr_0001");
    assert_eq!(id.to_string(), "adr_0001");
}

#[test]
fn id_from_path_edge_cases() {
    assert_eq!(AdrId::from_path("a/b/.hidden").as_str(), ".hidden");
    assert_eq!(AdrId::from_path("archive.tar.gz").as_str(), "archive.tar");
    assert_eq!(AdrId::from_path("dir/name").as_str(), "name");
    assert_eq!(AdrId::from_path("dir/name.md/").as_str(), "name");
    assert_eq!(AdrId::from_path("").as_str(), "unknown");
    assert_eq!(AdrId::from_path("a/..").as_str(), "unknown");
    assert_eq!(adrscope::record::file_name("docs/x.md"), "x.md");
    assert_eq!(adrscope::record::file_name("/"), "unknown.md");
}

#[test]
fn test_adr_creation() {
    let frontmatter = Frontmatter::new("Test ADR").with_status(Status::Accepted);
    let adr = Adr::new(
        AdrId::new("adr_0001"),
        "adr_0001.md".to_string(),
        "docs/decisions/adr_0001.md".to_string(),
        frontmatter,
        "# Context\n\nSome context.".to_string(),
        "<h1>Context</h1><p>Some context.</p>".to_string(),
        "Context Some context.".to_string(),
    );
    assert_eq!(adr.id().as_str(), "adr_0001");
    assert_eq!(adr.title(), "Test ADR");
    assert_eq!(adr.status(), Status::Accepted);
    assert!(adr.body_html().contains("<h1>Context</h1>"));
}

#[test]
fn test_adr_all_accessors() {
    let frontmatter = Frontmatter::new("Complete ADR")
        .with_description("Full description")
        .with_status(Status::Deprecated)
        .with_category("security")
        .with_author("Security Team")
        .with_project("test-project")
        .with_created(Date::from_calendar_date(2025, 1, 10).unwrap())
        .with_updated(Date::from_calendar_date(2025, 1, 15).unwrap())
        .with_tags(vec!["security".to_string()])
        .with_technologies(vec!["rust".to_string()])
        .with_related(vec!["adr-001.md".to_string()]);
    let adr = Adr::new(
        AdrId::new("adr_0002"),
        "adr_0002.md".to_string(),
        "docs/decisions/adr_0002.md".to_string(),
        frontmatter,
        "# Body\n\nMarkdown content.".to_string(),
        "<h1>Body</h1><p>Markdown content.</p>".to_string(),
        "Body Markdown content.".to_string(),
    );
    assert_eq!(adr.id().as_str(), "adr_0002");
    assert_eq!(adr.filename(), "adr_0002.md");
    assert_eq!(adr.source_path(), "docs/decisions/adr_0002.md");
    assert_eq!(adr.frontmatter().title, "Complete ADR");
    assert_eq!(adr.body_markdown(), "# Body\n\nMarkdown content.");
    assert_eq!(adr.body_html(), "<h1>Body</h1><p>Markdown content.</p>");
    assert_eq!(adr.body_text(), "Body Markdown content.");
    assert_eq!(adr.title(), "Complete ADR");
    assert_eq!(adr.description(), "Full description");
    assert_eq!(adr.status(), Status::Deprecated);
    assert_eq!(adr.category(), "security");
    assert_eq!(adr.tags(), &["security"]);
    assert_eq!(adr.author(), "Security Team");
    assert_eq!(adr.project(), "test-project");
    assert_eq!(adr.technologies(), &["rust"]);
    assert_eq!(adr.related(), &["adr-001.md"]);
    assert_eq!(adr.created(), Date::from_calendar_date(2025, 1, 10));
    assert_eq!(adr.updated(), Date::from_calendar_date(2025, 1, 15));
}

#[test]
fn test_parse_full_adr() {
    let content = "---\ntitle: Use PostgreSQL for Primary Storage\ndescription: Decision to adopt PostgreSQL as our primary database\nstatus: accepted\ncategory: architecture\ntags:\n  - database\n  - postgresql\nauthor: Architecture Team\ncreated: \"2025-01-15\"\n---\n\n# Context\n\nWe need a reliable primary database for our application.\n\n## Decision\n\nWe will use PostgreSQL.\n\n## Consequences\n\nPostgreSQL provides the features we need.\n";
    let parser = DefaultAdrParser::new();
    let mut warnings = StatusWarnings::new();
    let (adr, _) = parser.parse("adr_0001.md", content, &mut warnings).expect("should parse");
    assert_eq!(adr.id().as_str(), "adr_0001");
    assert_eq!(adr.title(), "Use PostgreSQL for Primary Storage");
    assert_eq!(adr.status(), Status::Accepted);
    assert_eq!(adr.category(), "architecture");
    assert!(adr.body_html().contains("<h1>"));
    assert!(adr.body_text().contains("Context"));
}

#[test]
fn test_parse_minimal_adr() {
    let content = "---\ntitle: Minimal ADR\n---\n\nSimple content.\n";
    let parser = DefaultAdrParser::new();
    let mut warnings = StatusWarnings::new();
    let (adr, _) = parser.parse("minimal.md", content, &mut warnings).expect("should parse");
    assert_eq!(adr.title(), "Minimal ADR");
    assert_eq!(adr.status(), Status::Proposed);
}

#[test]
fn test_render_heading() {
    let html = MarkdownRenderer::new().render("# Hello World");
    assert!(html.contains("<h1>Hello World</h1>"));
}

#[test]
fn test_render_paragraph() {
    let html = MarkdownRenderer::new().render("This is a paragraph.");
    assert!(html.contains("<p>This is a paragraph.</p>"));
}

#[test]
fn test_render_list() {
    let html = MarkdownRenderer::new().render("- Item 1\n- Item 2\n- Item 3");
    assert!(html.contains("<ul>"));
    assert!(html.contains("<li>Item 1</li>"));
    assert!(html.contains("<li>Item 2</li>"));
    assert!(html.contains("<li>Item 3</li>"));
}

#[test]
fn test_render_code_block() {
    let html = MarkdownRenderer::new().render("```rust\nfn main() {}\n```");
    assert!(html.contains("<code"));
    assert!(html.contains("fn main()"));
}

#[test]
fn test_render_inline_code() {
    let html = MarkdownRenderer::new().render("Use `cargo build` to compile.");
    assert!(html.contains("<code>cargo build</code>"));
}

#[test]
fn test_render_table() {
    let md = "| Header 1 | Header 2 |\n|----------|----------|\n| Cell 1   | Cell 2   |";
    let html = MarkdownRenderer::new().render(md);
    assert!(html.contains("<table>"));
    assert!(html.contains("<th>"));
    assert!(html.contains("<td>"));
}

#[test]
fn test_render_emphasis() {
    let html = MarkdownRenderer::new().render("This is *italic* and **bold** text.");
    assert!(html.contains("<em>italic</em>"));
    assert!(html.contains("<strong>bold</strong>"));
}

#[test]
fn test_render_link() {
    let html = MarkdownRenderer::new().render("[Link text](https://example.com)");
    assert!(html.contains("<a href=\"https://example.com\">Link text</a>"));
}

#[test]
fn test_render_strikethrough() {
    let html = MarkdownRenderer::new().render("This is ~~deleted~~ text.");
    assert!(html.contains("<del>deleted</del>"));
}

#[test]
fn test_render_tasklist() {
    let html = MarkdownRenderer::new().render("- [x] Done\n- [ ] Todo");
    assert!(html.contains("type=\"checkbox\""));
    assert!(html.contains("checked"));
}

#[test]
fn test_plain_text_extraction() {
    let md = " Context\n\nWe need a **database** for our `application`.\n\n## Decision\n\nUse PostgreSQL.\n\n```sql\nSELECT * FROM users;\n```\n\nThis is the end.";
    let text = MarkdownRenderer::new().render_plain_text(md);
    assert!(text.contains("Context"));
    assert!(text.contains("database"));
    assert!(text.contains("application"));
    assert!(text.contains("Use PostgreSQL"));
    assert!(!text.contains("SELECT * FROM users"));
    assert!(!text.contains("  "));
}

#[test]
fn test_plain_text_basic() {
    let text = MarkdownRenderer::new().render_plain_text("Hello **world**!");
    assert_eq!(text, "Hello world !");
}

#[test]
fn test_plain_text_removes_formatting() {
    let text = MarkdownRenderer::new().render_plain_text("This is *italic* and **bold**.");
    assert!(text.contains("italic"));
    assert!(text.contains("bold"));
    assert!(!text.contains("*"));
}

fn single_spaced(t: &str) -> bool {
    !t.starts_with(' ') && !t.ends_with(' ') && !t.contains("  ") && !t.contains('\n') && !t.contains('\t')
}

#[test]
fn plain_text_is_single_spaced_even_on_its_own_output() {
    let renderer = MarkdownRenderer::new();
    let samples = [
        "  lead\n\ntrail  ",
        "line one\nline two  \nline three",
        "    indented code\n\ntext",
        "* [broken](link\n> quote\n\n| a |\n|---|\n| b |",
        "",
        "   ",
    ];
    for s in samples {
        let once = renderer.render_plain_text(s);
        assert!(single_spaced(&once), "{once:?}");
        let twice = renderer.render_plain_text(&once);
        assert!(single_spaced(&twice), "{twice:?}");
    }
    assert_eq!(renderer.render_plain_text("    indented code\n\ntext"), "text");
    assert_eq!(renderer.render_plain_text("a\nb"), "a b");
}

#[test]
fn collapse_whitespace_joins_words() {
    let v: Vec<char> = "  a \t b\n\nc  ".chars().collect();
    let r: String = adrscope::markdown::collapse_whitespace(&v).into_iter().collect();
    assert_eq!(r, "a b c");
}

#[test]
fn id_from_path_skips_trailing_dot_segments() {
    assert_eq!(AdrId::from_path("a/b.md/.").as_str(), "b");
    assert_eq!(AdrId::from_path("a/b.md/./").as_str(), "b");
    assert_eq!(AdrId::from_path("a/./b.md").as_str(), "b");
    assert_eq!(AdrId::from_path(".").as_str(), "unknown");
    assert_eq!(AdrId::from_path("./").as_str(), "unknown");
    assert_eq!(AdrId::from_path("/.").as_str(), "unknown");
    assert_eq!(adrscope::record::file_name("docs//x.md//."), "x.md");
}
