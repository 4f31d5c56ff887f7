//! Entry paths: addresses that locate one entry unambiguously within a
//! changelog, usable to recover its filesystem path or to compare entries
//! positionally.
//!
//! A path records which branch was taken at each level — unreleased or a
//! specific release, which section, general or a specific component
//! section — as indices into the changelog's own vectors; it owns no data
//! of the tree. Two paths are equal iff every branch choice matches.

use crate::changelog::change_set::{ChangeSet, ChangeSetView};
use crate::changelog::change_set_section::{ChangeSetSection, ChangeSetSectionView};
use crate::changelog::config::Config;
use crate::changelog::entry::{Entry, EntryView};
use crate::changelog::Changelog;
use crate::changelog::ChangelogView;
use vstd::prelude::*;

verus! {

/// The place of an entry within one section: among the general entries,
/// or within one component section.
#[derive(Debug, Clone, Copy, PartialEq, Eq, Structural)]
pub enum ChangeSetComponentPath {
    /// A general entry, by its position among the section's entries.
    General(usize),
    /// An entry of a component section, by the component section's
    /// position and the entry's position within it.
    Component(usize, usize),
}

/// The place of an entry within one change set: a section and the place
/// within it.
#[derive(Debug, Clone, Copy, PartialEq, Eq, Structural)]
pub struct ChangeSetSectionPath {
    /// The section's position among the change set's sections.
    pub section: usize,
    /// The place of the entry within the section.
    pub component_path: ChangeSetComponentPath,
}

/// The place of an entry within one change set.
#[derive(Debug, Clone, Copy, PartialEq, Eq, Structural)]
pub struct EntryChangeSetPath {
    /// The place of the entry within the change set's sections.
    pub section_path: ChangeSetSectionPath,
}

/// The place of an entry within a changelog: in the unreleased change
/// set, or in one release's change set.
#[derive(Debug, Clone, Copy, PartialEq, Eq, Structural)]
pub enum EntryReleasePath {
    /// An unreleased entry.
    Unreleased(EntryChangeSetPath),
    /// An entry of the release at the given position.
    Released(usize, EntryChangeSetPath),
}

/// Provides a precise path through a specific changelog to a specific
/// entry.
#[derive(Debug, Clone, Copy, PartialEq, Eq, Structural)]
pub struct EntryPath {
    /// The place of the entry within the changelog.
    pub release_path: EntryReleasePath,
}

/// Whether a component path points inside the given section.
pub open spec fn component_path_valid(sec: ChangeSetSectionView, p: ChangeSetComponentPath) -> bool {
    match p {
        ChangeSetComponentPath::General(e) => e < sec.entries.len(),
        ChangeSetComponentPath::Component(ci, e) => ci < sec.component_sections.len() && e
            < sec.component_sections[ci as int].entries.len(),
    }
}

/// The entry a component path points at within the given section.
pub open spec fn component_path_entry(
    sec: ChangeSetSectionView,
    p: ChangeSetComponentPath,
) -> EntryView {
    match p {
        ChangeSetComponentPath::General(e) => sec.entries[e as int],
        ChangeSetComponentPath::Component(ci, e) => sec.component_sections[ci as int].entries[
            e as int
        ],
    }
}

/// Whether a section path points inside the given change set.
pub open spec fn section_path_valid(cs: ChangeSetView, p: ChangeSetSectionPath) -> bool {
    p.section < cs.sections.len() && component_path_valid(
        cs.sections[p.section as int],
        p.component_path,
    )
}

/// The entry a section path points at within the given change set.
pub open spec fn section_path_entry(cs: ChangeSetView, p: ChangeSetSectionPath) -> EntryView {
    component_path_entry(cs.sections[p.section as int], p.component_path)
}

/// Whether a change set path points inside the given change set.
pub open spec fn change_set_path_valid(cs: ChangeSetView, p: EntryChangeSetPath) -> bool {
    section_path_valid(cs, p.section_path)
}

/// The entry a change set path points at within the given change set.
pub open spec fn change_set_path_entry(cs: ChangeSetView, p: EntryChangeSetPath) -> EntryView {
    section_path_entry(cs, p.section_path)
}

/// Whether a release path points inside the given changelog.
pub open spec fn release_path_valid(log: ChangelogView, p: EntryReleasePath) -> bool {
    match p {
        EntryReleasePath::Unreleased(q) => log.maybe_unreleased is Some && change_set_path_valid(
            log.maybe_unreleased->Some_0,
            q,
        ),
        EntryReleasePath::Released(ri, q) => ri < log.releases.len() && change_set_path_valid(
            log.releases[ri as int].changes,
            q,
        ),
    }
}

/// The entry a release path points at within the given changelog.
pub open spec fn release_path_entry(log: ChangelogView, p: EntryReleasePath) -> EntryView {
    match p {
        EntryReleasePath::Unreleased(q) => change_set_path_entry(log.maybe_unreleased->Some_0, q),
        EntryReleasePath::Released(ri, q) => change_set_path_entry(
            log.releases[ri as int].changes,
            q,
        ),
    }
}

/// Whether an entry path points inside the given changelog.
pub open spec fn entry_path_valid(log: ChangelogView, p: EntryPath) -> bool {
    release_path_valid(log, p.release_path)
}

/// The entry an entry path points at within the given changelog.
pub open spec fn entry_path_entry(log: ChangelogView, p: EntryPath) -> EntryView {
    release_path_entry(log, p.release_path)
}

impl ChangeSetComponentPath {
    /// The entry this path points at within the given section.
    pub fn entry<'a>(&self, section: &'a ChangeSetSection) -> (r: &'a Entry)
        requires
            component_path_valid(section@, *self),
        ensures
            r@ == component_path_entry(section@, *self),
    {
        match self {
            ChangeSetComponentPath::General(e) => &section.entries[*e],
            ChangeSetComponentPath::Component(ci, e) => &section.component_sections[*ci].entries[
                *e
            ],
        }
    }

    /// The filesystem path of the entry relative to its section
    /// directory: the entry's filename, prefixed with the component
    /// directory for a component entry.
    pub fn as_path(&self, section: &ChangeSetSection) -> (r: String)
        requires
            component_path_valid(section@, *self),
        ensures
            r@ == (match *self {
                ChangeSetComponentPath::General(e) => section@.entries[e as int].filename,
                ChangeSetComponentPath::Component(ci, e) => section@.component_sections[
                    ci as int
                ].id + seq!['/'] + section@.component_sections[ci as int].entries[e as int].filename,
            }),
    {
        proof {
            reveal_strlit("/");
            assert("/"@ =~= seq!['/']);
        }
        match self {
            ChangeSetComponentPath::General(e) => section.entries[*e].filename.clone(),
            ChangeSetComponentPath::Component(ci, e) => {
                let comp = &section.component_sections[*ci];
                let mut out: String = comp.id.clone();
                out.append("/");
                out.append(comp.entries[*e].filename.as_str());
                out
            },
        }
    }
}

impl ChangeSetSectionPath {
    /// The entry this path points at within the given change set.
    pub fn entry<'a>(&self, change_set: &'a ChangeSet) -> (r: &'a Entry)
        requires
            section_path_valid(change_set@, *self),
        ensures
            r@ == section_path_entry(change_set@, *self),
    {
        self.component_path.entry(&change_set.sections[self.section])
    }

    /// The filesystem path of the entry relative to its change set
    /// directory: the section directory, then the path within the
    /// section.
    pub fn as_path(&self, change_set: &ChangeSet) -> (r: String)
        requires
            section_path_valid(change_set@, *self),
        ensures
            r@ == change_set@.sections[self.section as int].id + seq!['/']
                + self.component_path.as_path_spec(change_set@.sections[self.section as int]),
    {
        let section = &change_set.sections[self.section];
        let mut out: String = section.id.clone();
        out.append("/");
        let rest: String = self.component_path.as_path(section);
        out.append(rest.as_str());
        proof {
            reveal_strlit("/");
            assert("/"@ =~= seq!['/']);
        }
        out
    }
}

impl ChangeSetComponentPath {
    /// The relative filesystem path `as_path` yields within a section.
    pub open spec fn as_path_spec(self, sec: ChangeSetSectionView) -> Seq<char> {
        match self {
            ChangeSetComponentPath::General(e) => sec.entries[e as int].filename,
            ChangeSetComponentPath::Component(ci, e) => sec.component_sections[ci as int].id
                + seq!['/'] + sec.component_sections[ci as int].entries[e as int].filename,
        }
    }
}

impl EntryChangeSetPath {
    /// The entry this path points at within the given change set.
    pub fn entry<'a>(&self, change_set: &'a ChangeSet) -> (r: &'a Entry)
        requires
            change_set_path_valid(change_set@, *self),
        ensures
            r@ == change_set_path_entry(change_set@, *self),
    {
        self.section_path.entry(change_set)
    }

    /// The relative filesystem path `as_path` yields within a change
    /// set.
    pub open spec fn as_path_spec(self, cs: ChangeSetView) -> Seq<char> {
        cs.sections[self.section_path.section as int].id + seq!['/']
            + self.section_path.component_path.as_path_spec(
            cs.sections[self.section_path.section as int],
        )
    }

    /// The filesystem path of the entry relative to its change set
    /// directory.
    pub fn as_path(&self, change_set: &ChangeSet) -> (r: String)
        requires
            change_set_path_valid(change_set@, *self),
        ensures
            r@ == self.as_path_spec(change_set@),
    {
        self.section_path.as_path(change_set)
    }
}

impl EntryReleasePath {
    /// The change set this path points into within the given changelog.
    pub open spec fn change_set_of(self, log: ChangelogView) -> ChangeSetView {
        match self {
            EntryReleasePath::Unreleased(_) => log.maybe_unreleased->Some_0,
            EntryReleasePath::Released(ri, _) => log.releases[ri as int].changes,
        }
    }

    /// The relative filesystem path `as_path` yields within a changelog
    /// directory: the unreleased folder or the release directory, then
    /// the path within the change set.
    pub open spec fn as_path_spec(self, log: ChangelogView, cfg: Config) -> Seq<char> {
        match self {
            EntryReleasePath::Unreleased(q) => cfg.unreleased.folder@ + seq!['/'] + q.as_path_spec(
                log.maybe_unreleased->Some_0,
            ),
            EntryReleasePath::Released(ri, q) => log.releases[ri as int].id + seq!['/']
                + q.as_path_spec(log.releases[ri as int].changes),
        }
    }

    /// The entry this path points at within the given changelog.
    pub fn entry<'a>(&self, changelog: &'a Changelog) -> (r: &'a Entry)
        requires
            release_path_valid(changelog@, *self),
        ensures
            r@ == release_path_entry(changelog@, *self),
    {
        match self {
            EntryReleasePath::Unreleased(q) => {
                let u: &ChangeSet = match &changelog.maybe_unreleased {
                    Some(u) => u,
                    None => unreached(),
                };
                q.entry(u)
            },
            EntryReleasePath::Released(ri, q) => q.entry(&changelog.releases[*ri].changes),
        }
    }

    /// The filesystem path of the entry relative to the changelog
    /// directory.
    pub fn as_path(&self, changelog: &Changelog, config: &Config) -> (r: String)
        requires
            release_path_valid(changelog@, *self),
        ensures
            r@ == self.as_path_spec(changelog@, *config),
    {
        proof {
            reveal_strlit("/");
            assert("/"@ =~= seq!['/']);
        }
        match self {
            EntryReleasePath::Unreleased(q) => {
                let u: &ChangeSet = match &changelog.maybe_unreleased {
                    Some(u) => u,
                    None => unreached(),
                };
                let mut out: String = config.unreleased.folder.clone();
                out.append("/");
                let rest: String = q.as_path(u);
                out.append(rest.as_str());
                out
            },
            EntryReleasePath::Released(ri, q) => {
                let rel = &changelog.releases[*ri];
                let mut out: String = rel.id.clone();
                out.append("/");
                let rest: String = q.as_path(&rel.changes);
                out.append(rest.as_str());
                out
            },
        }
    }
}

impl EntryPath {
    /// The entry this path points at within the given changelog.
    pub fn entry<'a>(&self, changelog: &'a Changelog) -> (r: &'a Entry)
        requires
            entry_path_valid(changelog@, *self),
        ensures
            r@ == entry_path_entry(changelog@, *self),
    {
        self.release_path.entry(changelog)
    }

    /// Reconstructs the filesystem path, relative to the changelog
    /// folder path, for this particular entry.
    pub fn as_path(&self, changelog: &Changelog, config: &Config) -> (r: String)
        requires
            entry_path_valid(changelog@, *self),
        ensures
            r@ == self.release_path.as_path_spec(changelog@, *config),
    {
        self.release_path.as_path(changelog, config)
    }
}

} // verus!
