//! Tests for entry-ID, version and path parsing.

use unclog::changelog::entry::extract_entry_id;
use unclog::changelog::parsing_utils::{extract_release_version, trim_newlines};
use unclog::fs_utils::get_relative_path;

#[test]
fn entry_id_extraction() {
    let cases = vec![
        ("830-something.md", 830_u64),
        ("1.md", 1_u64),
        ("0128-another-issue.md", 128_u64),
    ];

    for (s, expected) in cases {
        let actual = extract_entry_id(s).unwrap();
        assert_eq!(expected, actual);
    }

    assert!(extract_entry_id("no-number").is_err());
}

#[test]
fn release_version_extraction() {
    let cases = vec![
        ("v0.1.0", "0.1.0"),
        ("0.1.0", "0.1.0"),
        ("v0.1.0-beta.1", "0.1.0-beta.1"),
    ];

    for (s, expected) in cases {
        let actual = extract_release_version(s).unwrap();
        assert_eq!(expected, actual);
    }

    assert!(extract_release_version("no-version").is_err());
}

#[test]
fn relative_path_extraction() {
    assert_eq!(
        "mypackage",
        get_relative_path("/path/to/mypackage", "/path/to").unwrap()
    )
}

#[test]
fn trailing_newline_trimming() {
    assert_eq!("- A change", trim_newlines("- A change\n"));
    assert_eq!("- A change", trim_newlines("- A change\r\n\r\n"));
    assert_eq!("- A\n- B", trim_newlines("- A\n- B\n"));
    assert_eq!("", trim_newlines("\n\n"));
}

#[test]
fn entry_id_overflow_fails() {
    assert!(extract_entry_id("99999999999999999999999-too-big.md").is_err());
    assert!(extract_entry_id("-leading-dash.md").is_err());
    assert!(extract_entry_id("123456").is_err());
}
