//! A raw snapshot of a changelog directory tree: names and file contents
//! only, exactly as the caller found them on disk, with no parsing and no
//! ordering applied. Parsing a snapshot produces a [`crate::Changelog`].

use crate::error::Error;
use vstd::prelude::*;

verus! {

/// Errors relating to interaction with the file system, reported by the
/// caller that takes the snapshot.
#[derive(Debug, Clone)]
pub enum FileSystemError {
    /// An I/O failure: the offending path and the underlying cause.
    Io(String, String),
    /// A path was expected to name a directory but does not.
    ExpectedDir(String),
    /// A release directory name that cannot be used.
    UnexpectedReleaseDirPrefix(String),
    /// The last component of a path could not be obtained.
    CannotObtainName(String),
}

impl FileSystemError {
    /// The library error this filesystem error surfaces as.
    pub fn into_error(self) -> (r: Error)
        ensures
            match self {
                FileSystemError::Io(p, c) => r matches Error::Io(p2, c2) && p2@ == p@ && c2@
                    == c@,
                FileSystemError::ExpectedDir(p) => r matches Error::ExpectedDir(p2) && p2@ == p@,
                FileSystemError::UnexpectedReleaseDirPrefix(p) => r matches Error::UnexpectedReleaseDirPrefix(
                    p2,
                ) && p2@ == p@,
                FileSystemError::CannotObtainName(p) => r matches Error::CannotObtainName(p2)
                    && p2@ == p@,
            },
    {
        match self {
            FileSystemError::Io(p, c) => Error::Io(p, c),
            FileSystemError::ExpectedDir(p) => Error::ExpectedDir(p),
            FileSystemError::UnexpectedReleaseDirPrefix(p) => Error::UnexpectedReleaseDirPrefix(p),
            FileSystemError::CannotObtainName(p) => Error::CannotObtainName(p),
        }
    }
}

/// One entry file: its filename and its raw contents.
#[derive(Debug, Clone)]
pub struct EntryInput {
    /// The entry's filename, extension included.
    pub filename: String,
    /// The file's contents, untrimmed.
    pub details: String,
}

/// One component subdirectory of a section: its name and its entry files.
#[derive(Debug, Clone)]
pub struct ComponentSectionInput {
    /// The component directory's name: the component's ID.
    pub id: String,
    /// The entry files directly inside the component directory.
    pub entries: Vec<EntryInput>,
}

/// One section directory of a change set.
#[derive(Debug, Clone)]
pub struct ChangeSetSectionInput {
    /// The section directory's name.
    pub id: String,
    /// The entry files directly inside the section directory.
    pub entries: Vec<EntryInput>,
    /// The component subdirectories of the section.
    pub component_sections: Vec<ComponentSectionInput>,
}

/// One change set directory: the unreleased folder or a release folder.
#[derive(Debug, Clone)]
pub struct ChangeSetInput {
    /// The raw contents of the optional summary file.
    pub summary: Option<String>,
    /// The section subdirectories.
    pub sections: Vec<ChangeSetSectionInput>,
}

impl Default for ChangeSetInput {
    fn default() -> (r: Self)
        ensures
            r.summary is None,
            r.sections@ =~= Seq::<ChangeSetSectionInput>::empty(),
    {
        ChangeSetInput { summary: None, sections: Vec::new() }
    }
}

/// One release directory: its raw name and its change set.
#[derive(Debug, Clone)]
pub struct ReleaseInput {
    /// The release directory's name, e.g. `v0.2.1`.
    pub version: String,
    /// The change set inside the release directory.
    pub changes: ChangeSetInput,
}

/// A whole changelog directory snapshot.
#[derive(Debug, Clone)]
pub struct ChangelogInput {
    /// The unreleased change set, if the unreleased folder exists.
    pub unreleased: Option<ChangeSetInput>,
    /// The release directories, in no particular order.
    pub releases: Vec<ReleaseInput>,
    /// The raw contents of the optional prologue file.
    pub prologue: Option<String>,
    /// The raw contents of the optional epilogue file.
    pub epilogue: Option<String>,
}

} // verus!
