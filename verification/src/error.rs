//! Errors that can be produced while loading, rendering or traversing a
//! changelog.

use vstd::prelude::*;

verus! {

/// All error variants that this crate can produce.
///
/// Every variant carries the offending path or string, so that a caller can
/// locate and fix the bad input.
#[derive(Debug, Clone)]
pub enum Error {
    /// An I/O failure, as reported by the caller that read the directory
    /// snapshot: the offending path and the underlying cause.
    Io(String, String),
    /// A path was expected to name a directory but does not.
    ExpectedDir(String),
    /// A release directory name that cannot be used.
    UnexpectedReleaseDirPrefix(String),
    /// The last component of a path could not be obtained.
    CannotObtainName(String),
    /// A release directory name holds no digit, so no version can be read
    /// from it.
    CannotExtractVersion(String),
    /// A directory that was about to be created already exists.
    DirExists(String),
    /// A file that was about to be written already exists.
    FileExists(String),
    /// A version substring was not a valid semantic version.
    InvalidSemanticVersion(String),
    /// An entry filename does not start with a run of decimal digits
    /// followed by more text.
    InvalidEntryId(String),
    /// The leading digit run of an entry filename does not fit a `u64`.
    InvalidEntryNumber(String),
    /// There are no unreleased entries to render.
    NoUnreleasedEntries,
    /// A component directory references a component that the resolver does
    /// not know.
    ComponentNotDefined(String),
    /// A relative path did not start with the expected prefix.
    StripPrefixError(String),
    /// A project type string was not recognized.
    UnrecognizedProjectType(String),
    /// No known project type could be detected in the given path.
    CannotAutodetectProjectType(String),
    /// A bullet style other than `*` or `-` was configured.
    InvalidBulletStyle,
    /// A configuration value outside the recognized set, e.g. an unknown
    /// sort key.
    InvalidConfigValue(String),
    /// A string could not be parsed as a URL.
    InvalidUrl(String),
    /// A URL has no host part.
    UrlMissingHost(String),
    /// A URL does not point at a GitHub project.
    NotGitHubProject(String),
    /// A GitHub project URL has no path part.
    GitHubProjectMissingPath(String),
    /// A GitHub project URL has too few path segments.
    InvalidGitHubProjectPath(String),
    /// The configuration names no project URL.
    MissingProjectUrl,
}

} // verus!
