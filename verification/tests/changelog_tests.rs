use lexivo::changelog::{changelog_is_readable, parse_changelog, parse_line_formatting, TextSegment};

#[test]
fn test_parse_line_formatting() {
    let segments = parse_line_formatting("Plain **Bold** *Italic* `Code` Mix");
    assert_eq!(segments.len(), 7);

    match &segments[0] {
        TextSegment::Plain(s) => assert_eq!(s, "Plain "),
        _ => panic!(),
    }
    match &segments[1] {
        TextSegment::Bold(s) => assert_eq!(s, "Bold"),
        _ => panic!(),
    }
    match &segments[2] {
        TextSegment::Plain(s) => assert_eq!(s, " "),
        _ => panic!(),
    }
    match &segments[3] {
        TextSegment::Italic(s) => assert_eq!(s, "Italic"),
        _ => panic!(),
    }
    match &segments[4] {
        TextSegment::Plain(s) => assert_eq!(s, " "),
        _ => panic!(),
    }
    match &segments[5] {
        TextSegment::Italic(s) => assert_eq!(s, "Code"),
        _ => panic!(),
    }
    match &segments[6] {
        TextSegment::Plain(s) => assert_eq!(s, " Mix"),
        _ => panic!(),
    }
}

#[test]
fn test_parse_changelog() {
    let content = "
# [v1.4.0](https://link) (2026-09-01)
- Added feature 1
- **Improved** performance

# v1.3.2 (2026-08-15)
• Fixed bug
";
    let entries = parse_changelog(content);
    assert_eq!(entries.len(), 2);

    assert_eq!(entries[0].version, "v1.4.0");
    assert_eq!(entries[0].date.as_deref(), Some("2026-09-01"));
    assert_eq!(entries[0].changes.len(), 2);

    assert_eq!(entries[1].version, "v1.3.2");
    assert_eq!(entries[1].date.as_deref(), Some("2026-08-15"));
    assert_eq!(entries[1].changes.len(), 1);
}

fn plain_text(segment: &TextSegment) -> Option<&str> {
    match segment {
        TextSegment::Plain(s) => Some(s.as_str()),
        _ => None,
    }
}

#[test]
fn unmarked_line_is_one_plain_segment() {
    let segments = parse_line_formatting("Fixed a crash on start");
    assert_eq!(segments.len(), 1);
    assert_eq!(plain_text(&segments[0]), Some("Fixed a crash on start"));
}

#[test]
fn empty_line_has_no_segments() {
    assert!(parse_line_formatting("").is_empty());
}

#[test]
fn unclosed_bold_falls_back_to_italic() {
    // "**" without a closing pair reads as an empty italic run.
    let segments = parse_line_formatting("a **b");
    assert_eq!(segments.len(), 3);
    assert_eq!(plain_text(&segments[0]), Some("a "));
    match &segments[1] {
        TextSegment::Italic(s) => assert_eq!(s, ""),
        _ => panic!("expected italic"),
    }
    assert_eq!(plain_text(&segments[2]), Some("b"));
}

#[test]
fn lone_marker_stays_plain() {
    let segments = parse_line_formatting("5 * 3");
    assert_eq!(segments.len(), 1);
    assert_eq!(plain_text(&segments[0]), Some("5 * 3"));
}

#[test]
fn bold_at_line_start_and_end() {
    let segments = parse_line_formatting("**All bold**");
    assert_eq!(segments.len(), 1);
    match &segments[0] {
        TextSegment::Bold(s) => assert_eq!(s, "All bold"),
        _ => panic!("expected bold"),
    }
}

#[test]
fn changes_before_any_header_are_dropped() {
    let entries = parse_changelog("- orphan change\n# v2.0\n* kept");
    assert_eq!(entries.len(), 1);
    assert_eq!(entries[0].version, "v2.0");
    assert_eq!(entries[0].date, None);
    assert_eq!(entries[0].changes.len(), 1);
}

#[test]
fn header_without_date_like_parentheses_has_no_date() {
    let entries = parse_changelog("# v1.0 (initial)\n- first");
    assert_eq!(entries.len(), 1);
    assert_eq!(entries[0].version, "v1.0");
    assert_eq!(entries[0].date, None);
}

#[test]
fn empty_bullet_adds_no_change() {
    let entries = parse_changelog("# v1.1\n- \n-   \n- real");
    assert_eq!(entries[0].changes.len(), 1);
}

#[test]
fn readability_check_finds_reversed_brackets() {
    assert!(changelog_is_readable("# [v1](x) (2026-01-01)\n- a"));
    assert!(!changelog_is_readable("# ]v1[\n- a"));
    assert!(!changelog_is_readable("# v1 )2026-01-01(\n- a"));
    assert!(changelog_is_readable("no headers at all"));
}

#[test]
fn numeric_parentheses_give_a_date() {
    let entries = parse_changelog("# v1.5 (2026)\n- note");
    assert_eq!(entries[0].date.as_deref(), Some("2026"));
    let slashed = parse_changelog("# v1.6 (01/02)\n- note");
    assert_eq!(slashed[0].date.as_deref(), Some("01/02"));
}
