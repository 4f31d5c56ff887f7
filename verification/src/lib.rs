//! `unclog` helps you build your changelog: it gathers many small change
//! fragment files from a directory tree into one deterministically ordered
//! Markdown document, and lets callers walk the assembled model entry by
//! entry.
//!
//! The crate is a library of pure logic: callers hand it the raw directory
//! snapshot (file and directory names plus file contents) and a
//! configuration, and it builds, orders, renders and traverses the changelog
//! model. Reading the snapshot from disk is left to the caller.

pub mod changelog;
pub mod error;
pub mod fs_utils;
pub mod input;
pub mod project;
pub mod sort;
pub mod text;
pub mod vcs;

pub use changelog::config::{
    BulletStyle, ChangeSetSectionsConfig, ChangeSetsConfig, ComponentsConfig, Config,
    UnreleasedConfig,
};
pub use changelog::{
    ChangeSet, ChangeSetComponentPath, ChangeSetSection, ChangeSetSectionPath, Changelog,
    Component, ComponentSection, Entry, EntryChangeSetPath, EntryPath, EntryReleasePath, Release,
};
pub use error::Error;
pub use vcs::PlatformId;
