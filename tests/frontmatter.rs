use obsidian_tasks::frontmatter::extract_frontmatter;

#[test]
fn empty_text_has_no_frontmatter() {
    assert_eq!(extract_frontmatter(""), None);
}

#[test]
fn first_line_not_marker_gives_none() {
    assert_eq!(extract_frontmatter("hello\n---\na\n---\n"), None);
    assert_eq!(extract_frontmatter(" ---\na\n---\n"), None);
    assert_eq!(extract_frontmatter("----\na\n---\n"), None);
}

#[test]
fn opening_marker_with_trailing_space_does_not_match() {
    assert_eq!(extract_frontmatter("--- \nstatus: done\n---\n"), None);
}

#[test]
fn no_closing_marker_gives_none() {
    assert_eq!(extract_frontmatter("---\nA\nB"), None);
    assert_eq!(extract_frontmatter("---\n"), None);
    assert_eq!(extract_frontmatter("---"), None);
    assert_eq!(extract_frontmatter("---\nA\n--- \nB\n"), None);
}

#[test]
fn well_formed_block_is_extracted() {
    assert_eq!(
        extract_frontmatter("---\nA\nB\n---\ntrailer"),
        Some("A\nB".to_string())
    );
}

#[test]
fn block_ends_at_first_closing_marker() {
    assert_eq!(
        extract_frontmatter("---\nstatus: done\n---\nbody\n---\nmore"),
        Some("status: done".to_string())
    );
}

#[test]
fn empty_block_is_empty_text() {
    assert_eq!(extract_frontmatter("---\n---\n"), Some(String::new()));
}

#[test]
fn crlf_line_endings_are_read_as_lines() {
    assert_eq!(
        extract_frontmatter("---\r\nA\r\nB\r\n---\r\nrest"),
        Some("A\nB".to_string())
    );
}

#[test]
fn unicode_content_is_kept() {
    assert_eq!(
        extract_frontmatter("---\ntitle: café ✓\n---"),
        Some("title: café ✓".to_string())
    );
}

