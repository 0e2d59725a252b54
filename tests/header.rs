use adrscope::extract_frontmatter;

#[test]
fn test_extract_frontmatter_basic() {
    let content = "---\ntitle: Test\nstatus: accepted\n---\nBody content here.\n";
    let (yaml, body) = extract_frontmatter(content).expect("should extract");
    assert!(yaml.contains("title: Test"));
    assert!(yaml.contains("status: accepted"));
    assert_eq!(body.trim(), "Body content here.");
}

#[test]
fn test_extract_frontmatter_multiline_body() {
    let content = "---\ntitle: Test\n---\n# Heading\n\nParagraph 1.\n\nParagraph 2.\n";
    let (yaml, body) = extract_frontmatter(content).expect("should extract");
    assert!(yaml.contains("title: Test"));
    assert!(body.contains(" Heading"));
    assert!(body.contains("Paragraph 1."));
}

#[test]
fn test_extract_frontmatter_no_delimiter() {
    let content = "No frontmatter here.";
    assert!(extract_frontmatter(content).is_none());
}

#[test]
fn test_extract_frontmatter_missing_closing() {
    let content = "---\ntitle: Test\nNo closing delimiter\n";
    assert!(extract_frontmatter(content).is_none());
}

#[test]
fn extract_trims_block_and_body() {
    let (yaml, body) = extract_frontmatter("---\n  title: A  \n---\n\r\n  body text \n").unwrap();
    assert_eq!(yaml, "title: A");
    assert_eq!(body, "body text");
}

#[test]
fn extract_round_trips_assembled_text() {
    let block = "title: Round\nstatus: accepted";
    let body = "# Body\n\nText.";
    let text = format!("---\n{block}\n---\n{body}");
    let (b, t) = extract_frontmatter(&text).unwrap();
    assert_eq!(b, block);
    assert_eq!(t, body);
}

#[test]
fn delimiter_must_start_a_line() {
    let text = "---\ntitle: \"a --- b\"\n---\nbody";
    let (b, t) = extract_frontmatter(text).unwrap();
    assert_eq!(b, "title: \"a --- b\"");
    assert_eq!(t, "body");
    assert!(extract_frontmatter("--").is_none());
    assert!(extract_frontmatter("x---\n---\n").is_none());
}

#[test]
fn assembled_header_extracts_to_its_parts() {
    let block = "title: Use Rust\ntags:\n  - lang";
    let body = "Decision text.";
    let text = adrscope::header::assemble_frontmatter(block, body);
    assert_eq!(text, "---\ntitle: Use Rust\ntags:\n  - lang\n---\nDecision text.");
    let (b, t) = extract_frontmatter(&text).unwrap();
    assert_eq!(b, block);
    assert_eq!(t, body);
}

#[test]
fn untrimmed_parts_come_back_trimmed() {
    let text = adrscope::header::assemble_frontmatter("  title: Padded \n", "\n  body  \n");
    let (b, t) = extract_frontmatter(&text).unwrap();
    assert_eq!(b, "title: Padded");
    assert_eq!(t, "body");
}
