//! Tests for section titles, entry indentation and component section
//! rendering.

use unclog::changelog::change_set_section::{change_set_section_title, indent_bulleted_str};
use unclog::{ComponentSection, Config, Entry};

const RENDERED_WITH_PATH: &str = "- [Some project](./some-project/)
  - Issue 1
  - Issue 2
  - Issue 3";

const RENDERED_WITHOUT_PATH: &str = "- some-project
  - Issue 1
  - Issue 2
  - Issue 3";

#[test]
fn change_set_section_title_generation() {
    let cases = vec![
        ("breaking-changes", "BREAKING CHANGES"),
        ("features", "FEATURES"),
        ("improvements", "IMPROVEMENTS"),
        ("removed", "REMOVED"),
    ];

    for (s, expected) in cases {
        let actual = change_set_section_title(s);
        assert_eq!(expected, actual);
    }
}

#[test]
fn entry_indentation() {
    let cases = vec![
        (
            "- Just a single-line entry.",
            "  - Just a single-line entry.",
        ),
        (
            "- A multi-line entry\n  which overflows onto the next line.",
            "  - A multi-line entry\n    which overflows onto the next line.",
        ),
        (
            "- A complex multi-line entry\n- Which not only has multiple bulleted items\n  which could overflow\n- It also has bulleted items which underflow",
            "  - A complex multi-line entry\n  - Which not only has multiple bulleted items\n    which could overflow\n  - It also has bulleted items which underflow",
        ),
    ];

    for (s, expected) in cases {
        let actual = indent_bulleted_str(s, 2, 4).join("\n");
        assert_eq!(expected, actual);
    }
}

#[test]
fn section_titles_uppercase_beyond_ascii() {
    assert_eq!("R\u{c9}SUM\u{c9} NOTES", change_set_section_title("r\u{e9}sum\u{e9}-notes"));
}

#[test]
fn continuation_lines_trim_unicode_whitespace() {
    // A continuation line led by a no-break space is still a
    // continuation line, trimmed and indented at the overflow width.
    let actual = indent_bulleted_str("- A\n\u{a0} overflow", 2, 4).join("\n");
    assert_eq!("  - A\n    overflow", actual);
}

#[test]
fn with_path() {
    let ps = ComponentSection {
        id: "some-project".to_owned(),
        name: "Some project".to_owned(),
        maybe_path: Some("./some-project/".to_owned()),
        entries: test_entries(),
    };
    assert_eq!(RENDERED_WITH_PATH, ps.render(&Config::default()));
}

#[test]
fn without_path() {
    let ps = ComponentSection {
        id: "some-project".to_owned(),
        name: "some-project".to_owned(),
        maybe_path: None,
        entries: test_entries(),
    };
    assert_eq!(RENDERED_WITHOUT_PATH, ps.render(&Config::default()));
}

fn test_entries() -> Vec<Entry> {
    vec![
        Entry {
            filename: "1-issue.md".to_string(),
            id: 1,
            details: "- Issue 1".to_string(),
        },
        Entry {
            filename: "2-issue.md".to_string(),
            id: 2,
            details: "- Issue 2".to_string(),
        },
        Entry {
            filename: "3-issue.md".to_string(),
            id: 3,
            details: "- Issue 3".to_string(),
        },
    ]
}
