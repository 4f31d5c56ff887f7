//! Configuration-related types.

use crate::error::Error;
use crate::text::str_eq;
use vstd::prelude::*;

verus! {

/// The various styles of bullets available in Markdown.
#[derive(Debug, Clone, Copy, PartialEq, Eq, Structural)]
pub enum BulletStyle {
    /// `*`
    Asterisk,
    /// `-`
    Dash,
}

impl BulletStyle {
    /// The single character this bullet style renders as.
    pub open spec fn char_spec(self) -> char {
        match self {
            BulletStyle::Asterisk => '*',
            BulletStyle::Dash => '-',
        }
    }

    /// The bullet as a one-character string.
    pub fn as_str(&self) -> (r: &'static str)
        ensures
            r@ == seq![self.char_spec()],
    {
        proof {
            reveal_strlit("*");
            reveal_strlit("-");
            assert("*"@ =~= seq!['*']);
            assert("-"@ =~= seq!['-']);
        }
        match self {
            BulletStyle::Asterisk => "*",
            BulletStyle::Dash => "-",
        }
    }

    /// Parses `*` or `-`; any other string is an invalid bullet style.
    pub fn parse(s: &str) -> (r: Result<BulletStyle, Error>)
        ensures
            match r {
                Ok(b) => (b == BulletStyle::Asterisk && s@ =~= seq!['*']) || (b
                    == BulletStyle::Dash && s@ =~= seq!['-']),
                Err(e) => s@ !~= seq!['*'] && s@ !~= seq!['-'] && e is InvalidBulletStyle,
            },
    {
        proof {
            reveal_strlit("*");
            reveal_strlit("-");
            assert("*"@ =~= seq!['*']);
            assert("-"@ =~= seq!['-']);
        }
        if str_eq(s, "*") {
            Ok(BulletStyle::Asterisk)
        } else if str_eq(s, "-") {
            Ok(BulletStyle::Dash)
        } else {
            Err(Error::InvalidBulletStyle)
        }
    }
}

impl Default for BulletStyle {
    fn default() -> (r: Self)
        ensures
            r == BulletStyle::Dash,
    {
        BulletStyle::Dash
    }
}

/// The key by which entries within a section are ordered.
#[derive(Debug, Clone, Copy, PartialEq, Eq, Structural)]
pub enum SortEntriesBy {
    /// Ascending numeric entry ID.
    Id,
    /// Lexicographic entry text.
    EntryText,
}

/// One criterion for ordering releases.
#[derive(Debug, Clone, Copy, PartialEq, Eq, Structural)]
pub enum SortReleasesBy {
    /// Semantic version, descending.
    Version,
    /// Release date, descending; a release without a date compares equal
    /// to everything for this criterion.
    Date,
}

/// Configuration relating to unreleased changelog entries.
#[derive(Debug, Clone)]
pub struct UnreleasedConfig {
    /// The name of the folder holding unreleased entries.
    pub folder: String,
    /// The heading rendered above the unreleased entries.
    pub heading: String,
}

impl UnreleasedConfig {
    pub fn default_folder() -> (r: String)
        ensures
            r@ == "unreleased"@,
    {
        "unreleased".to_owned()
    }

    pub fn default_heading() -> (r: String)
        ensures
            r@ == "## Unreleased"@,
    {
        "## Unreleased".to_owned()
    }
}

impl Default for UnreleasedConfig {
    fn default() -> (r: Self)
        ensures
            r.folder@ == "unreleased"@,
            r.heading@ == "## Unreleased"@,
    {
        UnreleasedConfig { folder: Self::default_folder(), heading: Self::default_heading() }
    }
}

/// Configuration relating to sets of changes.
#[derive(Debug, Clone)]
pub struct ChangeSetsConfig {
    /// The name of the optional summary file in a change set directory.
    pub summary_filename: String,
    /// The filename extension of entry files.
    pub entry_ext: String,
}

impl ChangeSetsConfig {
    pub fn default_summary_filename() -> (r: String)
        ensures
            r@ == "summary.md"@,
    {
        "summary.md".to_owned()
    }

    pub fn default_entry_ext() -> (r: String)
        ensures
            r@ == "md"@,
    {
        "md".to_owned()
    }
}

impl Default for ChangeSetsConfig {
    fn default() -> (r: Self)
        ensures
            r.summary_filename@ == "summary.md"@,
            r.entry_ext@ == "md"@,
    {
        ChangeSetsConfig {
            summary_filename: Self::default_summary_filename(),
            entry_ext: Self::default_entry_ext(),
        }
    }
}

/// Configuration relating to the sections of a change set.
#[derive(Debug, Clone)]
pub struct ChangeSetSectionsConfig {
    /// The key by which entries within a section are ordered.
    pub sort_entries_by: SortEntriesBy,
}

impl Default for ChangeSetSectionsConfig {
    fn default() -> (r: Self)
        ensures
            r.sort_entries_by == SortEntriesBy::Id,
    {
        ChangeSetSectionsConfig { sort_entries_by: SortEntriesBy::Id }
    }
}

/// Configuration relating to components/submodules.
#[derive(Debug, Clone)]
pub struct ComponentsConfig {
    /// The sub-heading under which general entries are gathered when a
    /// section also has component sections.
    pub general_entries_title: String,
    /// The number of spaces by which component entries are indented.
    pub entry_indent: u8,
}

impl ComponentsConfig {
    pub fn default_general_entries_title() -> (r: String)
        ensures
            r@ == "General"@,
    {
        "General".to_owned()
    }

    pub fn default_entry_indent() -> (r: u8)
        ensures
            r == 2,
    {
        2
    }
}

impl Default for ComponentsConfig {
    fn default() -> (r: Self)
        ensures
            r.general_entries_title@ == "General"@,
            r.entry_indent == 2,
    {
        ComponentsConfig {
            general_entries_title: Self::default_general_entries_title(),
            entry_indent: Self::default_entry_indent(),
        }
    }
}

/// Configuration options relating to the generation of a changelog.
#[derive(Debug, Clone)]
pub struct Config {
    /// The URL of the project, if known. This helps facilitate automatic
    /// content generation when supplying an issue or PR number.
    pub maybe_project_url: Option<String>,
    /// The heading at the beginning of the generated changelog.
    pub heading: String,
    /// The style of bullet used when generating changelog entries.
    pub bullet_style: BulletStyle,
    /// The message to use when the changelog is empty.
    pub empty_msg: String,
    /// The filename of the optional prologue appended after the heading.
    pub prologue_filename: String,
    /// The filename of the optional epilogue appended at the end.
    pub epilogue_filename: String,
    /// Configuration relating to unreleased changelog entries.
    pub unreleased: UnreleasedConfig,
    /// Configuration relating to sets of changes.
    pub change_sets: ChangeSetsConfig,
    /// Configuration relating to the sections of a change set.
    pub change_set_sections: ChangeSetSectionsConfig,
    /// Configuration relating to components/submodules.
    pub components: ComponentsConfig,
    /// The ordered criteria by which releases are sorted.
    pub sort_releases_by: Vec<SortReleasesBy>,
    /// The ordered date formats tried when parsing a release date from the
    /// first line of a release summary; the first format that parses wins.
    pub release_date_formats: Vec<String>,
    /// The filename of the change template used when generating new
    /// entries.
    pub change_template: String,
    /// The column at which generated entries are wrapped.
    pub wrap: u16,
}

impl Config {
    fn default_heading() -> (r: String)
        ensures
            r@ == "# CHANGELOG"@,
    {
        "# CHANGELOG".to_owned()
    }

    fn default_empty_msg() -> (r: String)
        ensures
            r@ == "Nothing to see here! Add some entries to get started."@,
    {
        "Nothing to see here! Add some entries to get started.".to_owned()
    }

    fn default_prologue_filename() -> (r: String)
        ensures
            r@ == "prologue.md"@,
    {
        "prologue.md".to_owned()
    }

    fn default_epilogue_filename() -> (r: String)
        ensures
            r@ == "epilogue.md"@,
    {
        "epilogue.md".to_owned()
    }

    fn default_release_date_formats() -> (r: Vec<String>)
        ensures
            r.deep_view() =~= seq!["%Y-%m-%d"@],
    {
        let mut v: Vec<String> = Vec::new();
        v.push("%Y-%m-%d".to_owned());
        v
    }

    fn default_change_template() -> (r: String)
        ensures
            r@ == "change-template.md"@,
    {
        "change-template.md".to_owned()
    }
}

impl Default for Config {
    fn default() -> (r: Self)
        ensures
            r.maybe_project_url is None,
            r.heading@ == "# CHANGELOG"@,
            r.bullet_style == BulletStyle::Dash,
            r.empty_msg@ == "Nothing to see here! Add some entries to get started."@,
            r.prologue_filename@ == "prologue.md"@,
            r.epilogue_filename@ == "epilogue.md"@,
            r.unreleased.folder@ == "unreleased"@,
            r.unreleased.heading@ == "## Unreleased"@,
            r.change_sets.summary_filename@ == "summary.md"@,
            r.change_sets.entry_ext@ == "md"@,
            r.change_set_sections.sort_entries_by == SortEntriesBy::Id,
            r.components.general_entries_title@ == "General"@,
            r.components.entry_indent == 2,
            r.sort_releases_by@ =~= seq![SortReleasesBy::Version],
            r.release_date_formats.deep_view() =~= seq!["%Y-%m-%d"@],
            r.change_template@ == "change-template.md"@,
            r.wrap == 80,
    {
        let mut sort_releases_by: Vec<SortReleasesBy> = Vec::new();
        sort_releases_by.push(SortReleasesBy::Version);
        Config {
            maybe_project_url: None,
            heading: Self::default_heading(),
            bullet_style: BulletStyle::Dash,
            empty_msg: Self::default_empty_msg(),
            prologue_filename: Self::default_prologue_filename(),
            epilogue_filename: Self::default_epilogue_filename(),
            unreleased: UnreleasedConfig::default(),
            change_sets: ChangeSetsConfig::default(),
            change_set_sections: ChangeSetSectionsConfig::default(),
            components: ComponentsConfig::default(),
            sort_releases_by,
            release_date_formats: Self::default_release_date_formats(),
            change_template: Self::default_change_template(),
            wrap: 80,
        }
    }
}

} // verus!
