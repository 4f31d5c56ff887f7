//! Tests for the changelog model: loading from a snapshot, ordering,
//! rendering, traversal and duplicate detection.

use unclog::changelog::config::SortReleasesBy;
use unclog::changelog::version::{version_cmp, Cmp, Version};
use unclog::input::{
    ChangeSetInput, ChangeSetSectionInput, ChangelogInput, ComponentSectionInput, EntryInput,
};
use unclog::{BulletStyle, ChangeSetComponentPath, Changelog, Component, Config, EntryReleasePath};

fn entry_input(filename: &str, details: &str) -> EntryInput {
    EntryInput {
        filename: filename.to_owned(),
        details: details.to_owned(),
    }
}

fn component_table() -> Vec<(String, Component)> {
    vec![
        (
            "component1".to_owned(),
            Component {
                name: "component1".to_owned(),
                maybe_path: None,
            },
        ),
        (
            "component2".to_owned(),
            Component {
                name: "Component 2".to_owned(),
                maybe_path: Some("2nd-component".to_owned()),
            },
        ),
    ]
}

fn full_input() -> ChangelogInput {
    ChangelogInput {
        unreleased: Some(ChangeSetInput {
            summary: None,
            sections: vec![
                ChangeSetSectionInput {
                    id: "features".to_owned(),
                    entries: vec![entry_input(
                        "1-space.md",
                        "- Travel through space as a beneficial example\n",
                    )],
                    component_sections: vec![],
                },
                ChangeSetSectionInput {
                    id: "improvements".to_owned(),
                    entries: vec![entry_input("2-profile.md", "- Eat the profile\n")],
                    component_sections: vec![],
                },
            ],
        }),
        releases: vec![release_input(
            "v0.2.1",
            ChangeSetInput {
                summary: None,
                sections: vec![
                    ChangeSetSectionInput {
                        id: "breaking-changes".to_owned(),
                        entries: vec![],
                        component_sections: vec![ComponentSectionInput {
                            id: "component2".to_owned(),
                            entries: vec![
                                entry_input("1-truffle.md", "- Gargle the truffle\n"),
                                entry_input("2-gravel.md", "- Travel the gravel\n"),
                                entry_input("3-gaggle.md", "- Laugh at the gaggle\n"),
                            ],
                        }],
                    },
                    ChangeSetSectionInput {
                        id: "features".to_owned(),
                        entries: vec![
                            entry_input("1-bubbles.md", "- Nibble the bubbles\n"),
                            entry_input("2-wobbles.md", "- Carry the wobbles\n"),
                        ],
                        component_sections: vec![ComponentSectionInput {
                            id: "component1".to_owned(),
                            entries: vec![
                                entry_input("1-handles.md", "- Fasten the handles\n"),
                                entry_input("2-sandals.md", "- Hasten the sandals\n"),
                            ],
                        }],
                    },
                ],
            },
        )],
        prologue: None,
        epilogue: None,
    }
}

fn release_input(version: &str, changes: ChangeSetInput) -> unclog::input::ReleaseInput {
    unclog::input::ReleaseInput {
        version: version.to_owned(),
        changes,
    }
}

fn full_changelog() -> Changelog {
    Changelog::from_input(&Config::default(), &full_input(), &component_table()).unwrap()
}

const UNRELEASED: &str = "Unreleased";
const GENERAL: &str = "General";
const EXPECTED_ENTRIES: &[(&str, &str, &str, &str)] = &[
        (
            UNRELEASED,
            "FEATURES",
            GENERAL,
            "- Travel through space as a beneficial example",
        ),
        (UNRELEASED, "IMPROVEMENTS", GENERAL, "- Eat the profile"),
        (
            "v0.2.1",
            "BREAKING CHANGES",
            "Component 2",
            "- Gargle the truffle",
        ),
        (
            "v0.2.1",
            "BREAKING CHANGES",
            "Component 2",
            "- Travel the gravel",
        ),
        (
            "v0.2.1",
            "BREAKING CHANGES",
            "Component 2",
            "- Laugh at the gaggle",
        ),
        ("v0.2.1", "FEATURES", GENERAL, "- Nibble the bubbles"),
        ("v0.2.1", "FEATURES", GENERAL, "- Carry the wobbles"),
        ("v0.2.1", "FEATURES", "component1", "- Fasten the handles"),
        ("v0.2.1", "FEATURES", "component1", "- Hasten the sandals"),
];

#[test]
fn entry_iteration() {
    let changelog = full_changelog();
    let mut entries = changelog.entries();

    for (i, (expected_release, expected_section, expected_component, expected_entry_details)) in
        EXPECTED_ENTRIES.iter().enumerate()
    {
        let next = entries.next(&changelog).unwrap();
        let (change_set, change_set_path) = match next.release_path {
            EntryReleasePath::Unreleased(change_set_path) => {
                assert_eq!(&UNRELEASED, expected_release, "for entry {i}");
                (
                    changelog.maybe_unreleased.as_ref().unwrap(),
                    change_set_path,
                )
            }
            EntryReleasePath::Released(release_id, change_set_path) => {
                let release = &changelog.releases[release_id];
                assert_eq!(&release.id, expected_release, "for entry {i}");
                (&release.changes, change_set_path)
            }
        };
        let section = &change_set.sections[change_set_path.section_path.section];
        assert_eq!(&section.title, expected_section);
        match change_set_path.section_path.component_path {
            ChangeSetComponentPath::General(entry_id) => {
                assert_eq!(&GENERAL, expected_component);
                assert_eq!(&section.entries[entry_id].details, expected_entry_details);
            }
            ChangeSetComponentPath::Component(component_id, entry_id) => {
                let component_section = &section.component_sections[component_id];
                assert_eq!(&component_section.name, expected_component);
                assert_eq!(
                    &component_section.entries[entry_id].details,
                    expected_entry_details
                );
            }
        }
    }
    assert!(entries.next(&changelog).is_none());
}

#[test]
fn full_render() {
    let changelog = full_changelog();
    let expected = "# CHANGELOG\n\n\
                    ## Unreleased\n\n\
                    ### FEATURES\n\n\
                    - Travel through space as a beneficial example\n\n\
                    ### IMPROVEMENTS\n\n\
                    - Eat the profile\n\n\
                    ## v0.2.1\n\n\
                    ### BREAKING CHANGES\n\n\
                    - [Component 2](2nd-component)\n  \
                    - Gargle the truffle\n  \
                    - Travel the gravel\n  \
                    - Laugh at the gaggle\n\n\
                    ### FEATURES\n\n\
                    - General\n  \
                    - Nibble the bubbles\n  \
                    - Carry the wobbles\n\
                    - component1\n  \
                    - Fasten the handles\n  \
                    - Hasten the sandals\n";
    assert_eq!(expected, changelog.render_all(&Config::default()));
}

#[test]
fn released_only_render() {
    let changelog = full_changelog();
    let full = changelog.render_all(&Config::default());
    let released = changelog.render_released(&Config::default());
    assert!(!released.contains("## Unreleased"));
    assert!(released.contains("## v0.2.1"));
    assert!(full.contains("## Unreleased"));
}

#[test]
fn render_is_deterministic() {
    let changelog = full_changelog();
    let once = changelog.render_all(&Config::default());
    let twice = changelog.render_all(&Config::default());
    assert_eq!(once, twice);
}

#[test]
fn empty_changelog_render() {
    let changelog = Changelog {
        maybe_unreleased: None,
        releases: vec![],
        prologue: None,
        epilogue: None,
    };
    assert_eq!(
        "# CHANGELOG\n\nNothing to see here! Add some entries to get started.\n",
        changelog.render_all(&Config::default())
    );
}

#[test]
fn multi_criteria_release_sort() {
    let mut config = Config::default();
    config.sort_releases_by = vec![SortReleasesBy::Date, SortReleasesBy::Version];
    let input = ChangelogInput {
        unreleased: None,
        releases: vec![
            release_input(
                "v0.1.0",
                ChangeSetInput {
                    summary: Some("No parseable date here\n".to_owned()),
                    sections: vec![],
                },
            ),
            release_input(
                "v0.2.0",
                ChangeSetInput {
                    summary: Some("2023-01-01\n".to_owned()),
                    sections: vec![],
                },
            ),
        ],
        prologue: None,
        epilogue: None,
    };
    let changelog = Changelog::from_input(&config, &input, &vec![]).unwrap();
    // Both releases compare equal on the date criterion (one side has no
    // date), so the comparison falls through to version, descending.
    assert_eq!("v0.2.0", changelog.releases[0].id);
    assert_eq!("v0.1.0", changelog.releases[1].id);
    assert!(changelog.releases[1].maybe_date.is_none());
    let d = changelog.releases[0].maybe_date.unwrap();
    assert_eq!((2023, 1, 1), (d.year, d.month, d.day));
}

#[test]
fn version_sort_is_descending_by_default() {
    let input = ChangelogInput {
        unreleased: None,
        releases: vec![
            release_input(
                "v0.9.9",
                ChangeSetInput {
                    summary: None,
                    sections: vec![],
                },
            ),
            release_input(
                "v1.0.0-alpha",
                ChangeSetInput {
                    summary: None,
                    sections: vec![],
                },
            ),
            release_input(
                "v1.0.0",
                ChangeSetInput {
                    summary: None,
                    sections: vec![],
                },
            ),
        ],
        prologue: None,
        epilogue: None,
    };
    let changelog = Changelog::from_input(&Config::default(), &input, &vec![]).unwrap();
    let ids: Vec<&str> = changelog.releases.iter().map(|r| r.id.as_str()).collect();
    assert_eq!(vec!["v1.0.0", "v1.0.0-alpha", "v0.9.9"], ids);
}

#[test]
fn semver_precedence_order() {
    let ordered = vec![
        "1.0.0-alpha",
        "1.0.0-alpha.1",
        "1.0.0-alpha.beta",
        "1.0.0-beta",
        "1.0.0-beta.2",
        "1.0.0-beta.11",
        "1.0.0-rc.1",
        "1.0.0",
    ];
    for i in 0..ordered.len() - 1 {
        let a = Version::parse(ordered[i]).unwrap();
        let b = Version::parse(ordered[i + 1]).unwrap();
        assert_eq!(Cmp::Less, version_cmp(&a, &b), "{} < {}", ordered[i], ordered[i + 1]);
        assert_eq!(Cmp::Greater, version_cmp(&b, &a));
    }
    let a = Version::parse("1.2.3").unwrap();
    assert_eq!((1, 2, 3), (a.major, a.minor, a.patch));
    assert_eq!(Cmp::Equal, version_cmp(&a, &a));
}

#[test]
fn duplicate_detection() {
    let input = ChangelogInput {
        unreleased: Some(ChangeSetInput {
            summary: None,
            sections: vec![ChangeSetSectionInput {
                id: "features".to_owned(),
                entries: vec![entry_input("10-same.md", "- The same entry\n")],
                component_sections: vec![],
            }],
        }),
        releases: vec![release_input(
            "v0.1.0",
            ChangeSetInput {
                summary: None,
                sections: vec![ChangeSetSectionInput {
                    id: "features".to_owned(),
                    entries: vec![
                        entry_input("10-same.md", "- The same entry\n"),
                        entry_input("11-other.md", "- A different entry\n"),
                    ],
                    component_sections: vec![],
                }],
            },
        )],
        prologue: None,
        epilogue: None,
    };
    let changelog = Changelog::from_input(&Config::default(), &input, &vec![]).unwrap();
    let dups = changelog.find_duplicates_across_releases();
    // The two identical entries form exactly one (unordered) pair.
    assert_eq!(1, dups.len());
    let (a, b) = dups[0];
    assert_ne!(a, b);
    assert_eq!("- The same entry", a.entry(&changelog).details);
    assert_eq!("- The same entry", b.entry(&changelog).details);
}

#[test]
fn unreleased_render_requires_unreleased_entries() {
    let changelog = Changelog {
        maybe_unreleased: None,
        releases: vec![],
        prologue: None,
        epilogue: None,
    };
    assert!(matches!(
        changelog.render_unreleased(&Config::default()),
        Err(unclog::Error::NoUnreleasedEntries)
    ));

    let full = full_changelog();
    let rendered = full.render_unreleased(&Config::default()).unwrap();
    assert!(rendered.starts_with("## Unreleased\n\n### FEATURES"));
}

#[test]
fn component_must_be_resolvable() {
    let input = ChangelogInput {
        unreleased: Some(ChangeSetInput {
            summary: None,
            sections: vec![ChangeSetSectionInput {
                id: "features".to_owned(),
                entries: vec![],
                component_sections: vec![ComponentSectionInput {
                    id: "mystery".to_owned(),
                    entries: vec![entry_input("1-a.md", "- A\n")],
                }],
            }],
        }),
        releases: vec![],
        prologue: None,
        epilogue: None,
    };
    let err = Changelog::from_input(&Config::default(), &input, &component_table()).unwrap_err();
    assert!(matches!(err, unclog::Error::ComponentNotDefined(id) if id == "mystery"));
}

#[test]
fn release_names_must_carry_versions() {
    let no_digit = ChangelogInput {
        unreleased: None,
        releases: vec![release_input(
            "no-version",
            ChangeSetInput {
                summary: None,
                sections: vec![],
            },
        )],
        prologue: None,
        epilogue: None,
    };
    let err = Changelog::from_input(&Config::default(), &no_digit, &vec![]).unwrap_err();
    assert!(matches!(err, unclog::Error::CannotExtractVersion(s) if s == "no-version"));

    let bad_version = ChangelogInput {
        unreleased: None,
        releases: vec![release_input(
            "v1.2",
            ChangeSetInput {
                summary: None,
                sections: vec![],
            },
        )],
        prologue: None,
        epilogue: None,
    };
    let err = Changelog::from_input(&Config::default(), &bad_version, &vec![]).unwrap_err();
    assert!(matches!(err, unclog::Error::InvalidSemanticVersion(_)));
}

#[test]
fn prologue_and_epilogue_are_rendered() {
    let input = ChangelogInput {
        unreleased: None,
        releases: vec![release_input(
            "v0.1.0",
            ChangeSetInput {
                summary: None,
                sections: vec![ChangeSetSectionInput {
                    id: "features".to_owned(),
                    entries: vec![entry_input("1-a.md", "- A\n")],
                    component_sections: vec![],
                }],
            },
        )],
        prologue: Some("An introduction.\n".to_owned()),
        epilogue: Some("The end.\n".to_owned()),
    };
    let changelog = Changelog::from_input(&Config::default(), &input, &vec![]).unwrap();
    let expected = "# CHANGELOG\n\n\
                    An introduction.\n\n\
                    ## v0.1.0\n\n\
                    ### FEATURES\n\n\
                    - A\n\n\
                    The end.\n";
    assert_eq!(expected, changelog.render_all(&Config::default()));
}

#[test]
fn entry_paths_reach_the_files() {
    let changelog = full_changelog();
    let config = Config::default();
    let paths: Vec<String> = changelog
        .entry_paths()
        .iter()
        .map(|p| p.as_path(&changelog, &config))
        .collect();
    assert_eq!(
        vec![
            "unreleased/features/1-space.md",
            "unreleased/improvements/2-profile.md",
            "v0.2.1/breaking-changes/component2/1-truffle.md",
            "v0.2.1/breaking-changes/component2/2-gravel.md",
            "v0.2.1/breaking-changes/component2/3-gaggle.md",
            "v0.2.1/features/1-bubbles.md",
            "v0.2.1/features/2-wobbles.md",
            "v0.2.1/features/component1/1-handles.md",
            "v0.2.1/features/component1/2-sandals.md",
        ],
        paths
    );
}

#[test]
fn bullet_style_parsing() {
    assert!(matches!(BulletStyle::parse("*"), Ok(BulletStyle::Asterisk)));
    assert!(matches!(BulletStyle::parse("-"), Ok(BulletStyle::Dash)));
    assert!(matches!(
        BulletStyle::parse("+"),
        Err(unclog::Error::InvalidBulletStyle)
    ));
    assert_eq!("-", BulletStyle::Dash.as_str());
    assert_eq!("*", BulletStyle::Asterisk.as_str());
}

#[test]
fn relative_path_outside_prefix_fails() {
    let err = unclog::fs_utils::get_relative_path("/other/place", "/path/to").unwrap_err();
    assert!(matches!(err, unclog::Error::StripPrefixError(p) if p == "/other/place"));
}

#[test]
fn entry_path_construction() {
    let config = Config::default();
    assert_eq!(
        "unreleased/features/comp/123-x.md",
        Changelog::get_entry_path(&config, "unreleased", "features", Some("comp"), "123-x")
    );
    assert_eq!(
        "v0.1.0/bug-fixes/9-y.md",
        Changelog::get_entry_path(&config, "v0.1.0", "bug-fixes", None, "9-y")
    );
}

#[test]
fn entries_sorted_by_text_when_configured() {
    let mut config = Config::default();
    config.change_set_sections.sort_entries_by =
        unclog::changelog::config::SortEntriesBy::EntryText;
    let input = ChangelogInput {
        unreleased: Some(ChangeSetInput {
            summary: None,
            sections: vec![ChangeSetSectionInput {
                id: "features".to_owned(),
                entries: vec![
                    entry_input("1-b.md", "- Zebra\n"),
                    entry_input("2-a.md", "- Aardvark\n"),
                ],
                component_sections: vec![],
            }],
        }),
        releases: vec![],
        prologue: None,
        epilogue: None,
    };
    let changelog = Changelog::from_input(&config, &input, &vec![]).unwrap();
    let section = &changelog.maybe_unreleased.as_ref().unwrap().sections[0];
    assert_eq!("- Aardvark", section.entries[0].details);
    assert_eq!("- Zebra", section.entries[1].details);
}

#[test]
fn entry_sort_is_stable_on_equal_ids() {
    let input = ChangelogInput {
        unreleased: Some(ChangeSetInput {
            summary: None,
            sections: vec![ChangeSetSectionInput {
                id: "features".to_owned(),
                entries: vec![
                    entry_input("7-first.md", "- First with ID seven\n"),
                    entry_input("3-small.md", "- The smallest ID\n"),
                    entry_input("7-second.md", "- Second with ID seven\n"),
                ],
                component_sections: vec![],
            }],
        }),
        releases: vec![],
        prologue: None,
        epilogue: None,
    };
    let changelog = Changelog::from_input(&Config::default(), &input, &vec![]).unwrap();
    let section = &changelog.maybe_unreleased.as_ref().unwrap().sections[0];
    let details: Vec<&str> = section.entries.iter().map(|e| e.details.as_str()).collect();
    assert_eq!(
        vec![
            "- The smallest ID",
            "- First with ID seven",
            "- Second with ID seven",
        ],
        details
    );
}
