//! The changelog model: entries, sections, change sets, releases and the
//! changelog itself, together with loading from a directory snapshot,
//! deterministic ordering, rendering and traversal.

pub mod change_set;
pub mod change_set_section;
pub mod component;
pub mod component_section;
pub mod config;
pub mod date;
pub mod entry;
pub mod entry_path;
pub mod parsing_utils;
pub mod release;
pub mod version;

pub use change_set::ChangeSet;
pub use change_set_section::ChangeSetSection;
pub use component::Component;
pub use component_section::ComponentSection;
pub use entry::Entry;
pub use entry_path::{
    ChangeSetComponentPath, ChangeSetSectionPath, EntryChangeSetPath, EntryPath, EntryReleasePath,
};
pub use release::Release;

use crate::changelog::change_set::{
    change_set_input_valid, change_set_is_empty, change_set_paths, change_set_paths_from,
    change_set_view_of, render_change_set_spec, sections_error_matches, ChangeSetIter,
    ChangeSetView,
};
use crate::changelog::change_set_section::{comps_from, comp_paths_at, section_paths, ChangeSetSectionView};
use crate::changelog::entry::EntryView;
use crate::changelog::entry_path::{
    change_set_path_valid, component_path_valid, entry_path_entry, entry_path_valid,
};
use crate::changelog::config::{Config, SortReleasesBy};
use crate::changelog::date::{cmp_date, date_cmp};
use crate::changelog::release::{
    release_error_matches, release_input_valid, release_view_of, render_release_spec, ReleaseView,
};
use crate::changelog::version::{cmp_version, version_cmp, Cmp};
use crate::error::Error;
use crate::input::{ChangelogInput, ReleaseInput};
use crate::text::{join_strings, join_with, trim_end_newlines_spec};
use vstd::prelude::*;

verus! {

/// The mathematical model of a [`Changelog`].
#[verifier::ext_equal]
pub ghost struct ChangelogView {
    /// The unreleased changes, if the unreleased folder exists.
    pub maybe_unreleased: Option<ChangeSetView>,
    /// The releases, in their sorted order.
    pub releases: Seq<ReleaseView>,
    /// The prologue, if a prologue file exists.
    pub prologue: Option<Seq<char>>,
    /// The epilogue, if an epilogue file exists.
    pub epilogue: Option<Seq<char>>,
}

/// A log of changes for a specific project.
#[derive(Debug, Clone)]
pub struct Changelog {
    /// Unreleased changes don't have version information associated with
    /// them.
    pub maybe_unreleased: Option<ChangeSet>,
    /// An ordered list of releases' changes.
    pub releases: Vec<Release>,
    /// Any additional content that must appear at the beginning of the
    /// changelog.
    pub prologue: Option<String>,
    /// Any additional content that must appear at the end of the
    /// changelog (e.g. historical changelog content prior to switching to
    /// this tool).
    pub epilogue: Option<String>,
}

impl View for Changelog {
    type V = ChangelogView;

    open spec fn view(&self) -> ChangelogView {
        ChangelogView {
            maybe_unreleased: self.maybe_unreleased.deep_view(),
            releases: self.releases.deep_view(),
            prologue: self.prologue.deep_view(),
            epilogue: self.epilogue.deep_view(),
        }
    }
}

impl DeepView for Changelog {
    type V = ChangelogView;

    open spec fn deep_view(&self) -> ChangelogView {
        self.view()
    }
}

/// Whether every release's change set is empty.
pub open spec fn releases_all_empty(releases: Seq<ReleaseView>) -> bool {
    forall|i: int| 0 <= i < releases.len() ==> change_set_is_empty(#[trigger] releases[i].changes)
}

/// Whether a changelog holds nothing: no or empty unreleased changes,
/// only releases with empty change sets, and no or empty prologue and
/// epilogue.
pub open spec fn changelog_is_empty(v: ChangelogView) -> bool {
    &&& (match v.maybe_unreleased {
        Some(u) => change_set_is_empty(u),
        None => true,
    })
    &&& releases_all_empty(v.releases)
    &&& (match v.prologue {
        Some(p) => p.len() == 0,
        None => true,
    })
    &&& (match v.epilogue {
        Some(e) => e.len() == 0,
        None => true,
    })
}

/// The outcome of comparing two releases under an ordered list of sort
/// criteria: each criterion is tried in order; one that reports equal
/// (for dates: also one that cannot compare, because a date is missing)
/// falls through to the next; when every criterion falls through, the
/// comparison falls back to version, descending.
pub open spec fn criteria_cmp(crit: Seq<SortReleasesBy>, a: ReleaseView, b: ReleaseView) -> Cmp
    decreases crit.len(),
{
    if crit.len() == 0 {
        cmp_version(a.version, b.version).reverse_spec()
    } else {
        match crit.first() {
            SortReleasesBy::Version => {
                let c = cmp_version(a.version, b.version).reverse_spec();
                if c is Equal {
                    criteria_cmp(crit.drop_first(), a, b)
                } else {
                    c
                }
            },
            SortReleasesBy::Date => {
                match (a.maybe_date, b.maybe_date) {
                    (Some(x), Some(y)) => {
                        let c = cmp_date(x, y).reverse_spec();
                        if c is Equal {
                            criteria_cmp(crit.drop_first(), a, b)
                        } else {
                            c
                        }
                    },
                    _ => criteria_cmp(crit.drop_first(), a, b),
                }
            },
        }
    }
}

/// The ordering of releases under the configured criteria list.
pub open spec fn release_view_leq(crit: Seq<SortReleasesBy>) -> spec_fn(
    ReleaseView,
    ReleaseView,
) -> bool {
    |a: ReleaseView, b: ReleaseView| !(criteria_cmp(crit, a, b) is Greater)
}

/// Decides `release_view_leq` on two releases.
pub fn release_le(criteria: &Vec<SortReleasesBy>, a: &Release, b: &Release) -> (r: bool)
    ensures
        r == release_view_leq(criteria@)(a@, b@),
{
    let n: usize = criteria.len();
    let mut i: usize = 0;
    proof {
        assert(criteria@.skip(0) =~= criteria@);
    }
    loop
        invariant
            i <= n,
            n == criteria@.len(),
            criteria_cmp(criteria@, a@, b@) == criteria_cmp(criteria@.skip(i as int), a@, b@),
        decreases n - i,
    {
        proof {
            if i < n {
                let t = criteria@.skip(i as int);
                assert(t.first() == criteria@[i as int]);
                assert(t.drop_first() =~= criteria@.skip(i as int + 1));
            }
        }
        if i >= n {
            let c: Cmp = version_cmp(&a.version, &b.version).reverse();
            return c != Cmp::Greater;
        }
        match criteria[i] {
            SortReleasesBy::Version => {
                let c: Cmp = version_cmp(&a.version, &b.version).reverse();
                if c != Cmp::Equal {
                    return c != Cmp::Greater;
                }
            },
            SortReleasesBy::Date => {
                match (&a.maybe_date, &b.maybe_date) {
                    (Some(x), Some(y)) => {
                        let c: Cmp = date_cmp(x, y).reverse();
                        if c != Cmp::Equal {
                            return c != Cmp::Greater;
                        }
                    },
                    _ => {},
                }
            },
        }
        i = i + 1;
    }
}

/// Whether every release input of the sequence can be loaded.
pub open spec fn all_releases_valid(
    table: Seq<(String, Component)>,
    inputs: Seq<ReleaseInput>,
) -> bool {
    forall|i: int| 0 <= i < inputs.len() ==> release_input_valid(table, #[trigger] inputs[i])
}

/// Whether `e` is the error that loading the release inputs produces:
/// the error of the first input that cannot be loaded.
pub open spec fn releases_error_matches(
    table: Seq<(String, Component)>,
    inputs: Seq<ReleaseInput>,
    e: Error,
) -> bool {
    exists|i: int|
        0 <= i < inputs.len() && !release_input_valid(table, #[trigger] inputs[i]) && (forall|
            j: int,
        |
            0 <= j < i ==> release_input_valid(table, #[trigger] inputs[j]))
            && release_error_matches(table, inputs[i], e)
}

/// The models of the given release inputs, sorted stably under the
/// configured criteria.
pub open spec fn sorted_release_views(
    cfg: Config,
    table: Seq<(String, Component)>,
    inputs: Seq<ReleaseInput>,
) -> Seq<ReleaseView> {
    crate::sort::spec_sort_by(
        release_view_leq(cfg.sort_releases_by@),
        inputs.map_values(|ri: ReleaseInput| release_view_of(cfg, table, ri)),
    )
}

/// Whether a changelog input can be loaded: the unreleased change set,
/// if present, and every release can be.
pub open spec fn changelog_input_valid(
    table: Seq<(String, Component)>,
    input: ChangelogInput,
) -> bool {
    &&& (match input.unreleased {
        Some(u) => change_set_input_valid(table, u),
        None => true,
    })
    &&& all_releases_valid(table, input.releases@)
}

/// The model that a changelog input parses to, under the given
/// configuration and resolver table; meaningful when
/// `changelog_input_valid` holds of the input.
pub open spec fn changelog_view_of(
    cfg: Config,
    table: Seq<(String, Component)>,
    input: ChangelogInput,
) -> ChangelogView {
    ChangelogView {
        maybe_unreleased: match input.unreleased {
            Some(u) => Some(
                change_set_view_of(table, cfg.change_set_sections.sort_entries_by, u),
            ),
            None => None,
        },
        releases: sorted_release_views(cfg, table, input.releases@),
        prologue: match input.prologue {
            Some(p) => Some(trim_end_newlines_spec(p@)),
            None => None,
        },
        epilogue: match input.epilogue {
            Some(e) => Some(trim_end_newlines_spec(e@)),
            None => None,
        },
    }
}

/// Whether `e` is the error that loading a changelog input produces: the
/// unreleased change set's first error, else the first failing release's
/// error.
pub open spec fn changelog_error_matches(
    table: Seq<(String, Component)>,
    input: ChangelogInput,
    e: Error,
) -> bool {
    if (match input.unreleased {
        Some(u) => !change_set_input_valid(table, u),
        None => false,
    }) {
        sections_error_matches(table, input.unreleased->Some_0.sections@, e)
    } else {
        releases_error_matches(table, input.releases@, e)
    }
}

/// The rendered blocks of a run of releases, in order; every release
/// renders at least its heading.
pub open spec fn release_blocks_spec(releases: Seq<ReleaseView>, cfg: Config) -> Seq<Seq<char>> {
    releases.map_values(|r: ReleaseView| render_release_spec(r, cfg))
}

/// The unreleased block of a changelog: the configured unreleased
/// heading and the unreleased change set's rendering, present only when
/// there are unreleased changes.
pub open spec fn unreleased_block_spec(v: ChangelogView, cfg: Config) -> Seq<Seq<char>> {
    match v.maybe_unreleased {
        Some(u) => if !change_set_is_empty(u) {
            seq![cfg.unreleased.heading@, render_change_set_spec(u, cfg)]
        } else {
            Seq::<Seq<char>>::empty()
        },
        None => Seq::<Seq<char>>::empty(),
    }
}

/// The paragraphs of a changelog: the configured heading; then, if the
/// whole changelog is empty, the configured empty message alone;
/// otherwise the prologue (if any), the unreleased block (when asked
/// for), every release's block in order, and the epilogue (if any).
pub open spec fn changelog_paragraphs(v: ChangelogView, cfg: Config, with_unreleased: bool) -> Seq<
    Seq<char>,
> {
    seq![cfg.heading@] + (if changelog_is_empty(v) {
        seq![cfg.empty_msg@]
    } else {
        (match v.prologue {
            Some(p) => seq![p],
            None => Seq::<Seq<char>>::empty(),
        }) + (if with_unreleased {
            unreleased_block_spec(v, cfg)
        } else {
            Seq::<Seq<char>>::empty()
        }) + release_blocks_spec(v.releases, cfg) + (match v.epilogue {
            Some(e) => seq![e],
            None => Seq::<Seq<char>>::empty(),
        })
    })
}

/// The rendering of a changelog: its paragraphs joined with blank lines,
/// with exactly one trailing newline.
pub open spec fn render_changelog_spec(
    v: ChangelogView,
    cfg: Config,
    with_unreleased: bool,
) -> Seq<char> {
    join_with(changelog_paragraphs(v, cfg, with_unreleased), seq!['\n', '\n']) + seq!['\n']
}

proof fn lemma_releases_error_witness(
    table: Seq<(String, Component)>,
    inputs: Seq<ReleaseInput>,
    k: int,
    e: Error,
)
    requires
        0 <= k < inputs.len(),
        forall|j: int| 0 <= j < k ==> release_input_valid(table, #[trigger] inputs[j]),
        !release_input_valid(table, inputs[k]),
        release_error_matches(table, inputs[k], e),
    ensures
        !all_releases_valid(table, inputs),
        releases_error_matches(table, inputs, e),
{
    assert(0 <= k < inputs.len() && !release_input_valid(table, #[trigger] inputs[k]) && (forall|
        j: int,
    |
        0 <= j < k ==> release_input_valid(table, #[trigger] inputs[j])) && release_error_matches(
        table,
        inputs[k],
        e,
    ));
}

impl Changelog {
    /// Checks whether this changelog is empty.
    pub fn is_empty(&self) -> (r: bool)
        ensures
            r == changelog_is_empty(self@),
    {
        let unreleased_empty: bool = match &self.maybe_unreleased {
            Some(u) => u.is_empty(),
            None => true,
        };
        if !unreleased_empty {
            return false;
        }
        let prologue_empty: bool = match &self.prologue {
            Some(p) => p.as_str().unicode_len() == 0,
            None => true,
        };
        if !prologue_empty {
            return false;
        }
        let epilogue_empty: bool = match &self.epilogue {
            Some(e) => e.as_str().unicode_len() == 0,
            None => true,
        };
        if !epilogue_empty {
            return false;
        }
        let n: usize = self.releases.len();
        let mut i: usize = 0;
        while i < n
            invariant
                i <= n,
                n == self.releases@.len(),
                self@.releases.len() == n,
                forall|j: int|
                    0 <= j < i ==> change_set_is_empty(#[trigger] self@.releases[j].changes),
            decreases n - i,
        {
            if !self.releases[i].changes.is_empty() {
                proof {
                    assert(!change_set_is_empty(self@.releases[i as int].changes));
                }
                return false;
            }
            i = i + 1;
        }
        true
    }

    /// Builds a whole changelog from its raw directory snapshot: the
    /// unreleased change set (if its folder exists), every release sorted
    /// under the configured criteria, and the prologue and epilogue with
    /// their trailing newlines trimmed.
    pub fn from_input(
        config: &Config,
        input: &ChangelogInput,
        components: &Vec<(String, Component)>,
    ) -> (r: Result<Changelog, Error>)
        ensures
            match r {
                Ok(log) => changelog_input_valid(components@, *input) && log@
                    == changelog_view_of(*config, components@, *input),
                Err(e) => !changelog_input_valid(components@, *input) && changelog_error_matches(
                    components@,
                    *input,
                    e,
                ),
            },
    {
        let maybe_unreleased: Option<ChangeSet> = match &input.unreleased {
            Some(u) => match ChangeSet::from_input(config, u, components) {
                Ok(cs) => Some(cs),
                Err(e) => {
                    return Err(e);
                },
            },
            None => None,
        };
        let ghost f = |ri: ReleaseInput| release_view_of(*config, components@, ri);
        let mut releases: Vec<Release> = Vec::new();
        let n: usize = input.releases.len();
        let mut k: usize = 0;
        proof {
            assert(releases@.map_values(|rel: Release| rel@) =~= input.releases@.take(
                0,
            ).map_values(f));
        }
        while k < n
            invariant
                0 <= k <= n,
                n == input.releases@.len(),
                f == (|ri: ReleaseInput| release_view_of(*config, components@, ri)),
                releases@.map_values(|rel: Release| rel@) == input.releases@.take(
                    k as int,
                ).map_values(f),
                forall|j: int|
                    0 <= j < k ==> release_input_valid(components@, #[trigger] input.releases@[j]),
                match input.unreleased {
                    Some(u) => change_set_input_valid(components@, u),
                    None => true,
                },
            decreases n - k,
        {
            match Release::from_input(config, &input.releases[k], components) {
                Ok(rel) => {
                    proof {
                        assert(rel@ =~= f(input.releases@[k as int]));
                    }
                    let ghost before = releases@;
                    releases.push(rel);
                    proof {
                        assert(input.releases@.take(k as int + 1) =~= input.releases@.take(
                            k as int,
                        ).push(input.releases@[k as int]));
                        assert(input.releases@.take(k as int + 1).map_values(f)
                            =~= input.releases@.take(k as int).map_values(f).push(
                            f(input.releases@[k as int]),
                        ));
                        assert(releases@.map_values(|rel2: Release| rel2@) =~= before.map_values(
                            |rel2: Release| rel2@,
                        ).push(releases@.last()@));
                    }
                },
                Err(e) => {
                    proof {
                        lemma_releases_error_witness(components@, input.releases@, k as int, e);
                    }
                    return Err(e);
                },
            }
            k = k + 1;
        }
        proof {
            assert(input.releases@.take(input.releases@.len() as int) =~= input.releases@);
        }
        let ghost crit: Seq<SortReleasesBy> = config.sort_releases_by@;
        let ghost leq: spec_fn(Release, Release) -> bool = |a: Release, b: Release|
            release_view_leq(crit)(a@, b@);
        let cmp = |a: &Release, b: &Release| -> (r: bool)
            ensures
                r == release_view_leq(config.sort_releases_by@)(a@, b@),
            { release_le(&config.sort_releases_by, a, b) };
        let ghost parsed: Seq<Release> = releases@;
        let sorted: Vec<Release> = crate::sort::sort_by(Ghost(leq), &cmp, releases);
        proof {
            let g = |rel: Release| rel@;
            assert forall|a: Release, b: Release| #[trigger]
                leq(a, b) == release_view_leq(crit)(g(a), g(b)) by {}
            crate::sort::lemma_sort_by_map(leq, release_view_leq(crit), g, parsed);
            assert(parsed.map_values(g) == input.releases@.map_values(f));
        }
        let prologue: Option<String> = match &input.prologue {
            Some(p) => Some(crate::changelog::parsing_utils::trim_newlines(p.as_str()).to_owned()),
            None => None,
        };
        let epilogue: Option<String> = match &input.epilogue {
            Some(e) => Some(crate::changelog::parsing_utils::trim_newlines(e.as_str()).to_owned()),
            None => None,
        };
        let result = Changelog { maybe_unreleased, releases: sorted, prologue, epilogue };
        proof {
            assert(result@.releases =~= sorted@.map_values(|rel: Release| rel@));
            assert(result@ =~= changelog_view_of(*config, components@, *input));
        }
        Ok(result)
    }

    /// Renders the full changelog to a string.
    pub fn render_all(&self, config: &Config) -> (r: String)
        ensures
            r@ == render_changelog_spec(self@, *config, true),
    {
        self.render(config, true)
    }

    /// Renders all released versions' entries, excluding unreleased ones.
    pub fn render_released(&self, config: &Config) -> (r: String)
        ensures
            r@ == render_changelog_spec(self@, *config, false),
    {
        self.render(config, false)
    }

    fn render(&self, config: &Config, render_unreleased: bool) -> (r: String)
        ensures
            r@ == render_changelog_spec(self@, *config, render_unreleased),
    {
        let mut paragraphs: Vec<String> = Vec::new();
        paragraphs.push(config.heading.clone());
        if self.is_empty() {
            paragraphs.push(config.empty_msg.clone());
            proof {
                assert(paragraphs.deep_view() =~= changelog_paragraphs(
                    self@,
                    *config,
                    render_unreleased,
                ));
            }
        } else {
            match &self.prologue {
                Some(p) => {
                    let ghost before = paragraphs.deep_view();
                    paragraphs.push(p.clone());
                    proof {
                        assert(paragraphs.deep_view() =~= before.push(paragraphs@.last()@));
                    }
                },
                None => {},
            }
            if render_unreleased {
                match &self.maybe_unreleased {
                    Some(u) => {
                        if !u.is_empty() {
                            let ghost before = paragraphs.deep_view();
                            paragraphs.push(config.unreleased.heading.clone());
                            proof {
                                assert(paragraphs.deep_view() =~= before.push(
                                    paragraphs@.last()@,
                                ));
                            }
                            let ghost before2 = paragraphs.deep_view();
                            let body: String = u.render(config);
                            paragraphs.push(body);
                            proof {
                                assert(paragraphs.deep_view() =~= before2.push(
                                    paragraphs@.last()@,
                                ));
                            }
                        }
                    },
                    None => {},
                }
            }
            let ghost head: Seq<Seq<char>> = paragraphs.deep_view();
            proof {
                assert(head =~= seq![config.heading@] + (match self@.prologue {
                    Some(p) => seq![p],
                    None => Seq::<Seq<char>>::empty(),
                }) + (if render_unreleased {
                    unreleased_block_spec(self@, *config)
                } else {
                    Seq::<Seq<char>>::empty()
                }));
                assert(release_blocks_spec(self@.releases.take(0), *config) =~= Seq::<
                    Seq<char>,
                >::empty());
                assert(paragraphs.deep_view() =~= head + release_blocks_spec(
                    self@.releases.take(0),
                    *config,
                ));
            }
            let n: usize = self.releases.len();
            let mut i: usize = 0;
            while i < n
                invariant
                    i <= n,
                    n == self.releases@.len(),
                    self@.releases.len() == n,
                    paragraphs.deep_view() == head + release_blocks_spec(
                        self@.releases.take(i as int),
                        *config,
                    ),
                decreases n - i,
            {
                let block: String = self.releases[i].render(config);
                let ghost before: Seq<Seq<char>> = paragraphs.deep_view();
                paragraphs.push(block);
                proof {
                    let dv = self@.releases;
                    let g = |rv: ReleaseView| render_release_spec(rv, *config);
                    assert(dv.take(i as int + 1) =~= dv.take(i as int).push(dv[i as int]));
                    assert(release_blocks_spec(dv.take(i as int + 1), *config)
                        =~= release_blocks_spec(dv.take(i as int), *config).push(
                        g(dv[i as int]),
                    ));
                    assert(dv[i as int] == self.releases@[i as int]@);
                    assert(paragraphs.deep_view() =~= before.push(paragraphs@.last()@));
                }
                i = i + 1;
            }
            proof {
                assert(self@.releases.take(n as int) =~= self@.releases);
            }
            match &self.epilogue {
                Some(e) => {
                    let ghost before = paragraphs.deep_view();
                    paragraphs.push(e.clone());
                    proof {
                        assert(paragraphs.deep_view() =~= before.push(paragraphs@.last()@));
                    }
                },
                None => {},
            }
            proof {
                assert(paragraphs.deep_view() =~= changelog_paragraphs(
                    self@,
                    *config,
                    render_unreleased,
                ));
            }
        }
        let body: String = join_strings(&paragraphs, "\n\n");
        let mut out: String = body;
        out.append("\n");
        proof {
            reveal_strlit("\n");
            reveal_strlit("\n\n");
            assert("\n"@ =~= seq!['\n']);
            assert("\n\n"@ =~= seq!['\n', '\n']);
            assert(out@ =~= render_changelog_spec(self@, *config, render_unreleased));
        }
        out
    }

    /// Renders just the unreleased changes to a string: the configured
    /// unreleased heading and the unreleased change set, joined with a
    /// blank line. Fails when there are no unreleased changes.
    pub fn render_unreleased(&self, config: &Config) -> (r: Result<String, Error>)
        ensures
            match r {
                Ok(s) => {
                    &&& self@.maybe_unreleased is Some
                    &&& !change_set_is_empty(self@.maybe_unreleased->Some_0)
                    &&& s@ == config.unreleased.heading@ + seq!['\n', '\n']
                        + render_change_set_spec(self@.maybe_unreleased->Some_0, *config)
                },
                Err(e) => {
                    &&& e is NoUnreleasedEntries
                    &&& (match self@.maybe_unreleased {
                        Some(u) => change_set_is_empty(u),
                        None => true,
                    })
                },
            },
    {
        match &self.maybe_unreleased {
            Some(u) => {
                if !u.is_empty() {
                    let mut out: String = config.unreleased.heading.clone();
                    out.append("\n\n");
                    let body: String = u.render(config);
                    out.append(body.as_str());
                    proof {
                        reveal_strlit("\n\n");
                        assert("\n\n"@ =~= seq!['\n', '\n']);
                    }
                    Ok(out)
                } else {
                    Err(Error::NoUnreleasedEntries)
                }
            },
            None => Err(Error::NoUnreleasedEntries),
        }
    }

    /// The filesystem path, relative to the changelog folder, of the
    /// entry with the given parameters: release folder, section folder,
    /// optional component folder, then the entry's filename built from
    /// its ID and the configured extension.
    pub fn get_entry_path(
        config: &Config,
        release: &str,
        section: &str,
        component: Option<&str>,
        id: &str,
    ) -> (r: String)
        ensures
            r@ == release@ + seq!['/'] + section@ + (match component {
                Some(c) => seq!['/'] + c@,
                None => Seq::<char>::empty(),
            }) + seq!['/'] + id@ + seq!['.'] + config.change_sets.entry_ext@,
    {
        let mut out: String = String::new();
        out.append(release);
        out.append("/");
        out.append(section);
        match component {
            Some(c) => {
                out.append("/");
                out.append(c);
            },
            None => {},
        }
        out.append("/");
        out.append(id);
        out.append(".");
        out.append(config.change_sets.entry_ext.as_str());
        proof {
            reveal_strlit("/");
            reveal_strlit(".");
            assert("/"@ =~= seq!['/']);
            assert("."@ =~= seq!['.']);
        }
        out
    }
}

/// The paths of all entries of the release at position `ri`, in render
/// order.
pub open spec fn release_paths_at(v: ChangelogView, ri: int) -> Seq<EntryPath> {
    change_set_paths(v.releases[ri].changes).map_values(
        |q: EntryChangeSetPath|
            EntryPath { release_path: EntryReleasePath::Released(ri as usize, q) },
    )
}

/// The paths of all entries of the releases from position `ri` on, in
/// render order.
pub open spec fn release_paths_from(v: ChangelogView, ri: int) -> Seq<EntryPath>
    decreases v.releases.len() - ri,
{
    if ri < 0 || ri >= v.releases.len() {
        Seq::empty()
    } else {
        release_paths_at(v, ri) + release_paths_from(v, ri + 1)
    }
}

/// The paths of all entries of a changelog, in exactly the order the
/// renderer lays the entries out: the unreleased entries first, then
/// release by release in sorted order.
pub open spec fn changelog_entry_paths(v: ChangelogView) -> Seq<EntryPath> {
    (match v.maybe_unreleased {
        Some(u) => change_set_paths(u).map_values(
            |q: EntryChangeSetPath| EntryPath { release_path: EntryReleasePath::Unreleased(q) },
        ),
        None => Seq::<EntryPath>::empty(),
    }) + release_paths_from(v, 0)
}

/// A cursor over all entries of a changelog's releases.
#[derive(Debug, Clone, Copy)]
pub struct ReleasesIter {
    /// The position of the release the cursor is in.
    pub id: usize,
    /// The cursor within that release's change set.
    pub change_set_iter: ChangeSetIter,
}

impl ReleasesIter {
    /// Whether the cursor points into the changelog's releases.
    pub open spec fn wf(self, v: ChangelogView) -> bool {
        self.id < v.releases.len() ==> self.change_set_iter.wf(v.releases[self.id as int].changes)
    }

    /// The paths the cursor has yet to yield.
    pub open spec fn remaining(self, v: ChangelogView) -> Seq<EntryPath> {
        if self.id >= v.releases.len() {
            Seq::empty()
        } else {
            self.change_set_iter.remaining(v.releases[self.id as int].changes).map_values(
                |q: EntryChangeSetPath|
                    EntryPath { release_path: EntryReleasePath::Released(self.id, q) },
            ) + release_paths_from(v, self.id as int + 1)
        }
    }

    /// A cursor at the first entry of the first release that yields any,
    /// or nothing if no release yields entries.
    pub fn new(changelog: &Changelog) -> (r: Option<ReleasesIter>)
        ensures
            match r {
                Some(it) => it.wf(changelog@) && it.remaining(changelog@) == release_paths_from(
                    changelog@,
                    0,
                ) && release_paths_from(changelog@, 0).len() > 0,
                None => release_paths_from(changelog@, 0).len() == 0,
            },
    {
        let ghost v = changelog@;
        let n: usize = changelog.releases.len();
        let mut ri: usize = 0;
        while ri < n
            invariant
                ri <= n,
                n == v.releases.len(),
                v == changelog@,
                release_paths_from(v, 0) == release_paths_from(v, ri as int),
            decreases n - ri,
        {
            proof {
                assert(v.releases[ri as int] == changelog.releases@[ri as int]@);
            }
            match ChangeSetIter::new(&changelog.releases[ri].changes) {
                Some(it) => {
                    let result = ReleasesIter { id: ri, change_set_iter: it };
                    proof {
                        assert(result.remaining(v) =~= release_paths_from(v, ri as int));
                        assert(release_paths_at(v, ri as int).len() == change_set_paths(
                            v.releases[ri as int].changes,
                        ).len());
                    }
                    return Some(result);
                },
                None => {
                    proof {
                        assert(release_paths_at(v, ri as int) =~= Seq::<EntryPath>::empty());
                        assert(release_paths_from(v, ri as int) =~= release_paths_from(
                            v,
                            ri as int + 1,
                        ));
                    }
                },
            }
            ri = ri + 1;
        }
        None
    }

    /// Yields the next entry's path in render order, advancing the
    /// cursor past releases without entries.
    pub fn next(&mut self, changelog: &Changelog) -> (r: Option<EntryPath>)
        requires
            old(self).wf(changelog@),
        ensures
            final(self).wf(changelog@),
            match r {
                Some(p) => old(self).remaining(changelog@).len() > 0 && p == old(self).remaining(
                    changelog@,
                ).first() && final(self).remaining(changelog@) == old(self).remaining(
                    changelog@,
                ).drop_first(),
                None => old(self).remaining(changelog@).len() == 0 && final(self).remaining(
                    changelog@,
                ).len() == 0,
            },
    {
        let ghost v = changelog@;
        let n: usize = changelog.releases.len();
        if self.id >= n {
            return None;
        }
        let ri: usize = self.id;
        proof {
            assert(v.releases[ri as int] == changelog.releases@[ri as int]@);
        }
        let ghost wrap = |q: EntryChangeSetPath|
            EntryPath { release_path: EntryReleasePath::Released(ri, q) };
        let mut inner: ChangeSetIter = self.change_set_iter;
        let ghost inner_rem = inner.remaining(v.releases[ri as int].changes);
        match inner.next(&changelog.releases[ri].changes) {
            Some(q) => {
                self.change_set_iter = inner;
                proof {
                    assert(inner_rem.map_values(wrap).first() == wrap(inner_rem.first()));
                    assert(inner_rem.map_values(wrap).drop_first() =~= inner_rem.drop_first(
                    ).map_values(wrap));
                    assert((inner_rem.map_values(wrap) + release_paths_from(v, ri as int + 1))
                        .drop_first() =~= inner_rem.drop_first().map_values(wrap)
                        + release_paths_from(v, ri as int + 1));
                }
                return Some(EntryPath { release_path: EntryReleasePath::Released(ri, q) });
            },
            None => {
                proof {
                    assert(inner_rem.map_values(wrap) =~= Seq::<EntryPath>::empty());
                    assert(old(self).remaining(v) =~= release_paths_from(v, ri as int + 1));
                }
                let mut rj: usize = ri + 1;
                while rj < n
                    invariant
                        ri < rj <= n,
                        n == v.releases.len(),
                        v == changelog@,
                        old(self).remaining(v) == release_paths_from(v, ri as int + 1),
                        release_paths_from(v, ri as int + 1) == release_paths_from(v, rj as int),
                    decreases n - rj,
                {
                    proof {
                        assert(v.releases[rj as int] == changelog.releases@[rj as int]@);
                    }
                    match ChangeSetIter::new(&changelog.releases[rj].changes) {
                        Some(fresh) => {
                            let mut fresh2: ChangeSetIter = fresh;
                            let ghost fresh_rem = fresh2.remaining(v.releases[rj as int].changes);
                            let r: Option<EntryChangeSetPath> = fresh2.next(
                                &changelog.releases[rj].changes,
                            );
                            self.id = rj;
                            self.change_set_iter = fresh2;
                            let ghost wrap2 = |q: EntryChangeSetPath|
                                EntryPath { release_path: EntryReleasePath::Released(rj, q) };
                            match r {
                                Some(q) => {
                                    proof {
                                        assert(release_paths_at(v, rj as int) =~= fresh_rem
                                            .map_values(wrap2));
                                        assert(fresh_rem.map_values(wrap2).first() == wrap2(
                                            fresh_rem.first(),
                                        ));
                                        assert(fresh_rem.map_values(wrap2).drop_first()
                                            =~= fresh_rem.drop_first().map_values(wrap2));
                                        assert((fresh_rem.map_values(wrap2) + release_paths_from(
                                            v,
                                            rj as int + 1,
                                        )).drop_first() =~= fresh_rem.drop_first().map_values(
                                            wrap2,
                                        ) + release_paths_from(v, rj as int + 1));
                                        assert(release_paths_from(v, rj as int) =~= fresh_rem
                                            .map_values(wrap2) + release_paths_from(
                                            v,
                                            rj as int + 1,
                                        ));
                                    }
                                    return Some(
                                        EntryPath {
                                            release_path: EntryReleasePath::Released(rj, q),
                                        },
                                    );
                                },
                                None => {
                                    // A fresh cursor over a release with
                                    // paths always yields one.
                                    proof {
                                        assert(fresh_rem.len() > 0);
                                    }
                                    return None;
                                },
                            }
                        },
                        None => {
                            proof {
                                assert(release_paths_at(v, rj as int) =~= Seq::<
                                    EntryPath,
                                >::empty());
                                assert(release_paths_from(v, rj as int) =~= release_paths_from(
                                    v,
                                    rj as int + 1,
                                ));
                            }
                        },
                    }
                    rj = rj + 1;
                }
                self.id = n;
                return None;
            },
        }
    }
}

/// The position of a [`ChangelogEntryIter`]: before anything, in the
/// unreleased change set, or among the releases.
#[derive(Debug, Clone, Copy)]
pub enum ChangelogEntryIterState {
    /// The changelog yields no entries.
    Empty,
    /// A cursor within the unreleased change set.
    Unreleased(ChangeSetIter),
    /// A cursor over the releases.
    Released(ReleasesIter),
}

/// A cursor over all entries of a changelog, in exactly the order the
/// renderer lays them out. A fresh cursor from [`Changelog::entries`]
/// re-walks from the start.
#[derive(Debug, Clone, Copy)]
pub struct ChangelogEntryIter {
    /// The cursor's position within the changelog.
    pub state: ChangelogEntryIterState,
}

impl ChangelogEntryIter {
    /// Whether the cursor points into the changelog.
    pub open spec fn wf(self, v: ChangelogView) -> bool {
        match self.state {
            ChangelogEntryIterState::Empty => true,
            ChangelogEntryIterState::Unreleased(it) => v.maybe_unreleased is Some && it.wf(
                v.maybe_unreleased->Some_0,
            ),
            ChangelogEntryIterState::Released(it) => it.wf(v),
        }
    }

    /// The paths the cursor has yet to yield.
    pub open spec fn remaining(self, v: ChangelogView) -> Seq<EntryPath> {
        match self.state {
            ChangelogEntryIterState::Empty => Seq::empty(),
            ChangelogEntryIterState::Unreleased(it) => it.remaining(
                v.maybe_unreleased->Some_0,
            ).map_values(
                |q: EntryChangeSetPath| EntryPath { release_path: EntryReleasePath::Unreleased(q) },
            ) + release_paths_from(v, 0),
            ChangelogEntryIterState::Released(it) => it.remaining(v),
        }
    }

    /// Yields the next entry's path in render order, advancing the
    /// cursor.
    pub fn next(&mut self, changelog: &Changelog) -> (r: Option<EntryPath>)
        requires
            old(self).wf(changelog@),
        ensures
            final(self).wf(changelog@),
            match r {
                Some(p) => old(self).remaining(changelog@).len() > 0 && p == old(self).remaining(
                    changelog@,
                ).first() && final(self).remaining(changelog@) == old(self).remaining(
                    changelog@,
                ).drop_first(),
                None => old(self).remaining(changelog@).len() == 0 && final(self).remaining(
                    changelog@,
                ).len() == 0,
            },
    {
        let ghost v = changelog@;
        let st: ChangelogEntryIterState = self.state;
        match st {
            ChangelogEntryIterState::Empty => None,
            ChangelogEntryIterState::Unreleased(it) => {
                let u: &ChangeSet = match &self_unreleased(changelog) {
                    Some(u) => u,
                    None => unreached(),
                };
                let ghost uv = v.maybe_unreleased->Some_0;
                let ghost wrap = |q: EntryChangeSetPath|
                    EntryPath { release_path: EntryReleasePath::Unreleased(q) };
                let mut it2: ChangeSetIter = it;
                let ghost inner_rem = it2.remaining(uv);
                match it2.next(u) {
                    Some(q) => {
                        self.state = ChangelogEntryIterState::Unreleased(it2);
                        proof {
                            assert(inner_rem.map_values(wrap).first() == wrap(inner_rem.first()));
                            assert(inner_rem.map_values(wrap).drop_first() =~= inner_rem
                                .drop_first().map_values(wrap));
                            assert((inner_rem.map_values(wrap) + release_paths_from(v, 0))
                                .drop_first() =~= inner_rem.drop_first().map_values(wrap)
                                + release_paths_from(v, 0));
                        }
                        Some(EntryPath { release_path: EntryReleasePath::Unreleased(q) })
                    },
                    None => {
                        proof {
                            assert(inner_rem.map_values(wrap) =~= Seq::<EntryPath>::empty());
                            assert(old(self).remaining(v) =~= release_paths_from(v, 0));
                        }
                        match ReleasesIter::new(changelog) {
                            Some(rit) => {
                                let mut rit2: ReleasesIter = rit;
                                let r: Option<EntryPath> = rit2.next(changelog);
                                self.state = ChangelogEntryIterState::Released(rit2);
                                r
                            },
                            None => {
                                self.state = ChangelogEntryIterState::Empty;
                                None
                            },
                        }
                    },
                }
            },
            ChangelogEntryIterState::Released(rit) => {
                let mut rit2: ReleasesIter = rit;
                let r: Option<EntryPath> = rit2.next(changelog);
                self.state = ChangelogEntryIterState::Released(rit2);
                r
            },
        }
    }
}

fn self_unreleased(changelog: &Changelog) -> (r: &Option<ChangeSet>)
    ensures
        r == &changelog.maybe_unreleased,
{
    &changelog.maybe_unreleased
}

impl Changelog {
    /// Facilitates iteration through all entries in this changelog,
    /// producing [`EntryPath`] values such that one can trace the full
    /// path to each entry. The order in which entries are produced is the
    /// order in which they will be rendered if the changelog is built.
    pub fn entries(&self) -> (r: ChangelogEntryIter)
        ensures
            r.wf(self@),
            r.remaining(self@) == changelog_entry_paths(self@),
    {
        let ghost v = self@;
        match &self.maybe_unreleased {
            Some(u) => {
                match ChangeSetIter::new(u) {
                    Some(it) => {
                        let r = ChangelogEntryIter {
                            state: ChangelogEntryIterState::Unreleased(it),
                        };
                        proof {
                            assert(r.remaining(v) =~= changelog_entry_paths(v));
                        }
                        return r;
                    },
                    None => {
                        proof {
                            assert(change_set_paths(v.maybe_unreleased->Some_0).map_values(
                                |q: EntryChangeSetPath|
                                    EntryPath {
                                        release_path: EntryReleasePath::Unreleased(q),
                                    },
                            ) =~= Seq::<EntryPath>::empty());
                        }
                    },
                }
            },
            None => {},
        }
        proof {
            assert(changelog_entry_paths(v) =~= release_paths_from(v, 0));
        }
        match ReleasesIter::new(self) {
            Some(rit) => {
                let r = ChangelogEntryIter { state: ChangelogEntryIterState::Released(rit) };
                proof {
                    assert(r.remaining(v) =~= changelog_entry_paths(v));
                }
                r
            },
            None => {
                let r = ChangelogEntryIter { state: ChangelogEntryIterState::Empty };
                proof {
                    assert(r.remaining(v) =~= changelog_entry_paths(v));
                }
                r
            },
        }
    }

    /// All entry paths of this changelog, in render order.
    pub fn entry_paths(&self) -> (r: Vec<EntryPath>)
        ensures
            r@ == changelog_entry_paths(self@),
    {
        let ghost v = self@;
        let mut out: Vec<EntryPath> = Vec::new();
        let mut it: ChangelogEntryIter = self.entries();
        proof {
            assert(out@ + it.remaining(v) =~= changelog_entry_paths(v));
        }
        loop
            invariant
                it.wf(v),
                v == self@,
                out@ + it.remaining(v) == changelog_entry_paths(v),
            decreases it.remaining(v).len(),
        {
            let ghost rem = it.remaining(v);
            match it.next(self) {
                Some(p) => {
                    out.push(p);
                    proof {
                        assert(out@ + it.remaining(v) =~= out@.drop_last() + (seq![rem.first()]
                            + rem.drop_first()));
                        assert(seq![rem.first()] + rem.drop_first() =~= rem);
                        assert(out@ + it.remaining(v) =~= changelog_entry_paths(v));
                    }
                },
                None => {
                    proof {
                        assert(out@ + it.remaining(v) =~= out@);
                    }
                    return out;
                },
            }
        }
    }
}

/// The duplicate pairs among the positions at and after `j`, paired with
/// position `i`: positions holding an entry with the same text as the one
/// at `i`, at a different path.
pub open spec fn dup_pairs_at(v: ChangelogView, paths: Seq<EntryPath>, i: int, j: int) -> Seq<
    (EntryPath, EntryPath),
>
    decreases paths.len() - j,
{
    if j >= paths.len() {
        Seq::empty()
    } else {
        (if entry_path_entry(v, paths[i]).details == entry_path_entry(v, paths[j]).details
            && paths[i] != paths[j] {
            seq![(paths[i], paths[j])]
        } else {
            Seq::empty()
        }) + dup_pairs_at(v, paths, i, j + 1)
    }
}

/// The duplicate pairs among the positions at and after `i`: each
/// unordered pair of distinct paths holding the same entry text, listed
/// once, ordered by position.
pub open spec fn dup_pairs_from(v: ChangelogView, paths: Seq<EntryPath>, i: int) -> Seq<
    (EntryPath, EntryPath),
>
    decreases paths.len() - i,
{
    if i < 0 || i >= paths.len() {
        Seq::empty()
    } else {
        dup_pairs_at(v, paths, i, i + 1) + dup_pairs_from(v, paths, i + 1)
    }
}

/// The duplicate entry pairs of a changelog: every unordered pair of
/// distinct entry paths whose entries hold the same text, listed exactly
/// once, in traversal order.
pub open spec fn spec_duplicates(v: ChangelogView) -> Seq<(EntryPath, EntryPath)> {
    dup_pairs_from(v, changelog_entry_paths(v), 0)
}

proof fn lemma_comps_from_paths_valid(s: ChangeSetSection, ci: int)
    requires
        ci >= 0,
    ensures
        forall|k: int|
            0 <= k < comps_from(s@, ci).len() ==> component_path_valid(
                s@,
                #[trigger] comps_from(s@, ci)[k],
            ),
    decreases s@.component_sections.len() - ci,
{
    vstd::std_specs::vec::axiom_spec_len(&s.component_sections);
    if ci >= s@.component_sections.len() {
    } else {
        vstd::std_specs::vec::axiom_spec_len(&s.component_sections@[ci as int].entries);
        assert(s@.component_sections[ci as int].entries.len()
            == s.component_sections@[ci as int].entries@.len());
        lemma_comps_from_paths_valid(s, ci + 1);
        let part = comp_paths_at(s@, ci);
        let rest = comps_from(s@, ci + 1);
        assert forall|k: int| 0 <= k < comps_from(s@, ci).len() implies component_path_valid(
            s@,
            #[trigger] comps_from(s@, ci)[k],
        ) by {
            if k < part.len() {
                assert(comps_from(s@, ci)[k] == part[k]);
                assert(part[k] == ChangeSetComponentPath::Component(ci as usize, k as usize));
            } else {
                assert(comps_from(s@, ci)[k] == rest[k - part.len()]);
            }
        }
    }
}

proof fn lemma_section_paths_valid(s: ChangeSetSection)
    ensures
        forall|k: int|
            0 <= k < section_paths(s@).len() ==> component_path_valid(
                s@,
                #[trigger] section_paths(s@)[k],
            ),
{
    vstd::std_specs::vec::axiom_spec_len(&s.entries);
    lemma_comps_from_paths_valid(s, 0);
    let g = crate::changelog::change_set_section::general_paths(s@);
    assert forall|k: int| 0 <= k < section_paths(s@).len() implies component_path_valid(
        s@,
        #[trigger] section_paths(s@)[k],
    ) by {
        if k < g.len() {
            assert(section_paths(s@)[k] == g[k]);
            assert(g[k] == ChangeSetComponentPath::General(k as usize));
        } else {
            assert(section_paths(s@)[k] == comps_from(s@, 0)[k - g.len()]);
        }
    }
}

proof fn lemma_change_set_paths_valid(cs: ChangeSet, si: int)
    requires
        si >= 0,
    ensures
        forall|k: int|
            0 <= k < change_set_paths_from(cs@, si).len() ==> change_set_path_valid(
                cs@,
                #[trigger] change_set_paths_from(cs@, si)[k],
            ),
    decreases cs@.sections.len() - si,
{
    vstd::std_specs::vec::axiom_spec_len(&cs.sections);
    if si >= cs@.sections.len() {
    } else {
        lemma_change_set_paths_valid(cs, si + 1);
        lemma_section_paths_valid(cs.sections@[si as int]);
        assert(cs.sections@[si as int]@ == cs@.sections[si as int]);
        let part = crate::changelog::change_set::change_set_paths_at(cs@, si);
        let rest = change_set_paths_from(cs@, si + 1);
        assert forall|k: int| 0 <= k < change_set_paths_from(cs@, si).len() implies
            change_set_path_valid(cs@, #[trigger] change_set_paths_from(cs@, si)[k]) by {
            if k < part.len() {
                assert(change_set_paths_from(cs@, si)[k] == part[k]);
                let p = section_paths(cs@.sections[si as int])[k];
                assert(part[k] == EntryChangeSetPath {
                    section_path: ChangeSetSectionPath {
                        section: si as usize,
                        component_path: p,
                    },
                });
            } else {
                assert(change_set_paths_from(cs@, si)[k] == rest[k - part.len()]);
            }
        }
    }
}

proof fn lemma_release_paths_valid(log: Changelog, ri: int)
    requires
        ri >= 0,
    ensures
        forall|k: int|
            0 <= k < release_paths_from(log@, ri).len() ==> entry_path_valid(
                log@,
                #[trigger] release_paths_from(log@, ri)[k],
            ),
    decreases log@.releases.len() - ri,
{
    vstd::std_specs::vec::axiom_spec_len(&log.releases);
    if ri >= log@.releases.len() {
    } else {
        lemma_release_paths_valid(log, ri + 1);
        lemma_change_set_paths_valid(log.releases@[ri as int].changes, 0);
        assert(log.releases@[ri as int]@ == log@.releases[ri as int]);
        let part = release_paths_at(log@, ri);
        let rest = release_paths_from(log@, ri + 1);
        assert forall|k: int| 0 <= k < release_paths_from(log@, ri).len() implies entry_path_valid(
            log@,
            #[trigger] release_paths_from(log@, ri)[k],
        ) by {
            if k < part.len() {
                assert(release_paths_from(log@, ri)[k] == part[k]);
                let q = change_set_paths(log@.releases[ri as int].changes)[k];
                assert(part[k] == EntryPath {
                    release_path: EntryReleasePath::Released(ri as usize, q),
                });
            } else {
                assert(release_paths_from(log@, ri)[k] == rest[k - part.len()]);
            }
        }
    }
}

/// Every path the traversal yields points at an entry of the changelog.
pub proof fn lemma_changelog_entry_paths_valid(log: Changelog)
    ensures
        forall|k: int|
            0 <= k < changelog_entry_paths(log@).len() ==> entry_path_valid(
                log@,
                #[trigger] changelog_entry_paths(log@)[k],
            ),
{
    lemma_release_paths_valid(log, 0);
    let head: Seq<EntryPath> = match log@.maybe_unreleased {
        Some(u) => change_set_paths(u).map_values(
            |q: EntryChangeSetPath| EntryPath { release_path: EntryReleasePath::Unreleased(q) },
        ),
        None => Seq::<EntryPath>::empty(),
    };
    match log.maybe_unreleased {
        Some(u) => {
            lemma_change_set_paths_valid(u, 0);
            assert(u@ == log@.maybe_unreleased->Some_0);
        },
        None => {},
    }
    assert forall|k: int| 0 <= k < changelog_entry_paths(log@).len() implies entry_path_valid(
        log@,
        #[trigger] changelog_entry_paths(log@)[k],
    ) by {
        if k < head.len() {
            assert(changelog_entry_paths(log@)[k] == head[k]);
            let u = log@.maybe_unreleased->Some_0;
            let q = change_set_paths(u)[k];
            assert(head[k] == EntryPath { release_path: EntryReleasePath::Unreleased(q) });
        } else {
            assert(changelog_entry_paths(log@)[k] == release_paths_from(log@, 0)[k - head.len()]);
        }
    }
}

impl Changelog {
    /// Returns a list of entries that are the same across releases within
    /// this changelog: every unordered pair of distinct entry paths whose
    /// entries hold the same text, reported exactly once.
    pub fn find_duplicates_across_releases(&self) -> (r: Vec<(EntryPath, EntryPath)>)
        ensures
            r@ == spec_duplicates(self@),
    {
        let ghost v = self@;
        let paths: Vec<EntryPath> = self.entry_paths();
        proof {
            lemma_changelog_entry_paths_valid(*self);
        }
        let n: usize = paths.len();
        let mut dups: Vec<(EntryPath, EntryPath)> = Vec::new();
        let mut i: usize = 0;
        proof {
            assert(dups@ + dup_pairs_from(v, paths@, 0) =~= spec_duplicates(v));
        }
        while i < n
            invariant
                i <= n,
                n == paths@.len(),
                v == self@,
                paths@ == changelog_entry_paths(v),
                forall|k: int|
                    0 <= k < paths@.len() ==> entry_path_valid(v, #[trigger] paths@[k]),
                dups@ + dup_pairs_from(v, paths@, i as int) == spec_duplicates(v),
            decreases n - i,
        {
            let mut j: usize = i + 1;
            proof {
                assert(dup_pairs_from(v, paths@, i as int) =~= dup_pairs_at(
                    v,
                    paths@,
                    i as int,
                    i as int + 1,
                ) + dup_pairs_from(v, paths@, i as int + 1));
            }
            while j < n
                invariant
                    i < j <= n,
                    i < n,
                    n == paths@.len(),
                    v == self@,
                    paths@ == changelog_entry_paths(v),
                    forall|k: int|
                        0 <= k < paths@.len() ==> entry_path_valid(v, #[trigger] paths@[k]),
                    dups@ + dup_pairs_at(v, paths@, i as int, j as int) + dup_pairs_from(
                        v,
                        paths@,
                        i as int + 1,
                    ) == spec_duplicates(v),
                decreases n - j,
            {
                let pa: EntryPath = paths[i];
                let pb: EntryPath = paths[j];
                let ea: &Entry = pa.entry(self);
                let eb: &Entry = pb.entry(self);
                let ghost before = dups@;
                if crate::text::str_eq(ea.details.as_str(), eb.details.as_str()) && pa != pb {
                    dups.push((pa, pb));
                }
                proof {
                    assert(dup_pairs_at(v, paths@, i as int, j as int) =~= (if entry_path_entry(
                        v,
                        paths@[i as int],
                    ).details == entry_path_entry(v, paths@[j as int]).details && paths@[i as int]
                        != paths@[j as int] {
                        seq![(paths@[i as int], paths@[j as int])]
                    } else {
                        Seq::<(EntryPath, EntryPath)>::empty()
                    }) + dup_pairs_at(v, paths@, i as int, j as int + 1));
                    assert(dups@ + dup_pairs_at(v, paths@, i as int, j as int + 1)
                        + dup_pairs_from(v, paths@, i as int + 1) =~= before + dup_pairs_at(
                        v,
                        paths@,
                        i as int,
                        j as int,
                    ) + dup_pairs_from(v, paths@, i as int + 1));
                }
                j = j + 1;
            }
            proof {
                assert(dup_pairs_at(v, paths@, i as int, n as int) =~= Seq::<
                    (EntryPath, EntryPath),
                >::empty());
                assert(dups@ + dup_pairs_from(v, paths@, i as int + 1) =~= dups@ + dup_pairs_at(
                    v,
                    paths@,
                    i as int,
                    n as int,
                ) + dup_pairs_from(v, paths@, i as int + 1));
            }
            i = i + 1;
        }
        proof {
            assert(dup_pairs_from(v, paths@, n as int) =~= Seq::<(EntryPath, EntryPath)>::empty());
            assert(dups@ =~= dups@ + dup_pairs_from(v, paths@, n as int));
        }
        dups
    }
}

/// The entry texts of the component sections from position `ci` on, in
/// the order the renderer lays them out.
pub open spec fn comp_details_from(sv: ChangeSetSectionView, ci: int) -> Seq<Seq<char>>
    decreases sv.component_sections.len() - ci,
{
    if ci < 0 || ci >= sv.component_sections.len() {
        Seq::empty()
    } else {
        sv.component_sections[ci].entries.map_values(|e: EntryView| e.details)
            + comp_details_from(sv, ci + 1)
    }
}

/// The entry texts of a section, in the order the renderer lays them
/// out: the general entries, then each component section's entries.
pub open spec fn section_rendered_details(sv: ChangeSetSectionView) -> Seq<Seq<char>> {
    sv.entries.map_values(|e: EntryView| e.details) + comp_details_from(sv, 0)
}

/// The entry texts of the change set's sections from position `si` on,
/// in the order the renderer lays them out; empty sections render
/// nothing.
pub open spec fn change_set_rendered_details_from(cs: ChangeSetView, si: int) -> Seq<Seq<char>>
    decreases cs.sections.len() - si,
{
    if si < 0 || si >= cs.sections.len() {
        Seq::empty()
    } else {
        (if crate::changelog::change_set_section::section_is_empty(cs.sections[si]) {
            Seq::<Seq<char>>::empty()
        } else {
            section_rendered_details(cs.sections[si])
        }) + change_set_rendered_details_from(cs, si + 1)
    }
}

/// The entry texts of a change set, in render order.
pub open spec fn change_set_rendered_details(cs: ChangeSetView) -> Seq<Seq<char>> {
    change_set_rendered_details_from(cs, 0)
}

/// The entry texts of the releases from position `ri` on, in render
/// order; a release with an empty change set renders only its heading
/// and contributes no entries.
pub open spec fn releases_rendered_details_from(v: ChangelogView, ri: int) -> Seq<Seq<char>>
    decreases v.releases.len() - ri,
{
    if ri < 0 || ri >= v.releases.len() {
        Seq::empty()
    } else {
        (if change_set_is_empty(v.releases[ri].changes) {
            Seq::<Seq<char>>::empty()
        } else {
            change_set_rendered_details(v.releases[ri].changes)
        }) + releases_rendered_details_from(v, ri + 1)
    }
}

/// The entry texts of a changelog, in exactly the order the full
/// rendering lays them out: the unreleased block's entries first, then
/// release by release.
pub open spec fn changelog_rendered_details(v: ChangelogView) -> Seq<Seq<char>> {
    (match v.maybe_unreleased {
        Some(u) => if !change_set_is_empty(u) {
            change_set_rendered_details(u)
        } else {
            Seq::<Seq<char>>::empty()
        },
        None => Seq::<Seq<char>>::empty(),
    }) + releases_rendered_details_from(v, 0)
}

proof fn lemma_comps_from_details(s: ChangeSetSection, ci: int)
    requires
        ci >= 0,
    ensures
        comps_from(s@, ci).map_values(
            |p: ChangeSetComponentPath|
                crate::changelog::entry_path::component_path_entry(s@, p).details,
        ) == comp_details_from(s@, ci),
    decreases s@.component_sections.len() - ci,
{
    vstd::std_specs::vec::axiom_spec_len(&s.component_sections);
    let f = |p: ChangeSetComponentPath|
        crate::changelog::entry_path::component_path_entry(s@, p).details;
    if ci >= s@.component_sections.len() {
        assert(comps_from(s@, ci).map_values(f) =~= comp_details_from(s@, ci));
    } else {
        vstd::std_specs::vec::axiom_spec_len(&s.component_sections@[ci as int].entries);
        assert(s@.component_sections[ci as int].entries.len() == s.component_sections@[
            ci as int
        ].entries@.len());
        lemma_comps_from_details(s, ci + 1);
        let part = comp_paths_at(s@, ci);
        let dpart = s@.component_sections[ci].entries.map_values(|e: EntryView| e.details);
        assert(part.map_values(f) =~= dpart);
        assert(comps_from(s@, ci).map_values(f) =~= part.map_values(f) + comps_from(
            s@,
            ci + 1,
        ).map_values(f));
    }
}

proof fn lemma_section_details(s: ChangeSetSection)
    ensures
        section_paths(s@).map_values(
            |p: ChangeSetComponentPath|
                crate::changelog::entry_path::component_path_entry(s@, p).details,
        ) == section_rendered_details(s@),
{
    vstd::std_specs::vec::axiom_spec_len(&s.entries);
    let f = |p: ChangeSetComponentPath|
        crate::changelog::entry_path::component_path_entry(s@, p).details;
    lemma_comps_from_details(s, 0);
    let g = crate::changelog::change_set_section::general_paths(s@);
    assert(g.map_values(f) =~= s@.entries.map_values(|e: EntryView| e.details));
    assert(section_paths(s@).map_values(f) =~= g.map_values(f) + comps_from(s@, 0).map_values(f));
}

proof fn lemma_change_set_details(cs: ChangeSet, si: int)
    requires
        si >= 0,
    ensures
        change_set_paths_from(cs@, si).map_values(
            |q: EntryChangeSetPath|
                crate::changelog::entry_path::change_set_path_entry(cs@, q).details,
        ) == change_set_rendered_details_from(cs@, si),
    decreases cs@.sections.len() - si,
{
    vstd::std_specs::vec::axiom_spec_len(&cs.sections);
    let f = |q: EntryChangeSetPath|
        crate::changelog::entry_path::change_set_path_entry(cs@, q).details;
    if si >= cs@.sections.len() {
        assert(change_set_paths_from(cs@, si).map_values(f) =~= change_set_rendered_details_from(
            cs@,
            si,
        ));
    } else {
        lemma_change_set_details(cs, si + 1);
        lemma_section_details(cs.sections@[si as int]);
        assert(cs.sections@[si as int]@ == cs@.sections[si as int]);
        let sv = cs@.sections[si as int];
        let part = crate::changelog::change_set::change_set_paths_at(cs@, si);
        let fs = |p: ChangeSetComponentPath|
            crate::changelog::entry_path::component_path_entry(sv, p).details;
        assert(part.map_values(f) =~= section_paths(sv).map_values(fs));
        if crate::changelog::change_set_section::section_is_empty(sv) {
            assert(section_rendered_details(sv) =~= Seq::<Seq<char>>::empty());
            assert(change_set_rendered_details_from(cs@, si)
                =~= change_set_rendered_details_from(cs@, si + 1));
        }
        assert(change_set_paths_from(cs@, si).map_values(f) =~= part.map_values(f)
            + change_set_paths_from(cs@, si + 1).map_values(f));
    }
}

proof fn lemma_releases_details(log: Changelog, ri: int)
    requires
        ri >= 0,
    ensures
        release_paths_from(log@, ri).map_values(
            |p: EntryPath| entry_path_entry(log@, p).details,
        ) == releases_rendered_details_from(log@, ri),
    decreases log@.releases.len() - ri,
{
    vstd::std_specs::vec::axiom_spec_len(&log.releases);
    let f = |p: EntryPath| entry_path_entry(log@, p).details;
    if ri >= log@.releases.len() {
        assert(release_paths_from(log@, ri).map_values(f) =~= releases_rendered_details_from(
            log@,
            ri,
        ));
    } else {
        lemma_releases_details(log, ri + 1);
        lemma_change_set_details(log.releases@[ri as int].changes, 0);
        assert(log.releases@[ri as int]@ == log@.releases[ri as int]);
        let cv = log@.releases[ri as int].changes;
        let part = release_paths_at(log@, ri);
        let fc = |q: EntryChangeSetPath|
            crate::changelog::entry_path::change_set_path_entry(cv, q).details;
        assert(part.map_values(f) =~= change_set_paths(cv).map_values(fc));
        if change_set_is_empty(cv) {
            assert(forall|i: int|
                0 <= i < cv.sections.len() ==> crate::changelog::change_set_section::section_is_empty(
                    #[trigger] cv.sections[i],
                ));
            lemma_empty_change_set_no_details(log.releases@[ri as int].changes, 0);
        }
        assert(release_paths_from(log@, ri).map_values(f) =~= part.map_values(f)
            + release_paths_from(log@, ri + 1).map_values(f));
    }
}

proof fn lemma_empty_change_set_no_details(cs: ChangeSet, si: int)
    requires
        si >= 0,
        crate::changelog::change_set::sections_all_empty(cs@.sections),
    ensures
        change_set_rendered_details_from(cs@, si) == Seq::<Seq<char>>::empty(),
    decreases cs@.sections.len() - si,
{
    vstd::std_specs::vec::axiom_spec_len(&cs.sections);
    if si >= cs@.sections.len() {
    } else {
        lemma_empty_change_set_no_details(cs, si + 1);
        assert(crate::changelog::change_set_section::section_is_empty(cs@.sections[si as int]));
        assert(change_set_rendered_details_from(cs@, si) =~= Seq::<Seq<char>>::empty());
    }
}

/// Traversal and render agree: the sequence of entry texts that the
/// entry-path traversal yields equals, in order, the sequence of entry
/// texts that the full rendering lays out.
pub proof fn lemma_traversal_matches_render(log: Changelog)
    ensures
        changelog_entry_paths(log@).map_values(|p: EntryPath| entry_path_entry(log@, p).details)
            == changelog_rendered_details(log@),
{
    let f = |p: EntryPath| entry_path_entry(log@, p).details;
    lemma_releases_details(log, 0);
    let head: Seq<EntryPath> = match log@.maybe_unreleased {
        Some(u) => change_set_paths(u).map_values(
            |q: EntryChangeSetPath| EntryPath { release_path: EntryReleasePath::Unreleased(q) },
        ),
        None => Seq::<EntryPath>::empty(),
    };
    match log.maybe_unreleased {
        Some(u) => {
            lemma_change_set_details(u, 0);
            assert(u@ == log@.maybe_unreleased->Some_0);
            let uv = log@.maybe_unreleased->Some_0;
            let fc = |q: EntryChangeSetPath|
                crate::changelog::entry_path::change_set_path_entry(uv, q).details;
            assert(head.map_values(f) =~= change_set_paths(uv).map_values(fc));
            if change_set_is_empty(uv) {
                lemma_empty_change_set_no_details(u, 0);
            }
        },
        None => {},
    }
    assert(changelog_entry_paths(log@).map_values(f) =~= head.map_values(f) + release_paths_from(
        log@,
        0,
    ).map_values(f));
    assert(changelog_entry_paths(log@).map_values(f) =~= changelog_rendered_details(log@));
}

/// Rendering an empty changelog yields exactly the configured heading, a
/// blank line, the configured empty message, and one trailing newline.
pub proof fn lemma_render_empty_changelog(v: ChangelogView, cfg: Config, with_unreleased: bool)
    requires
        v.maybe_unreleased is None,
        v.releases.len() == 0,
        v.prologue is None,
        v.epilogue is None,
    ensures
        render_changelog_spec(v, cfg, with_unreleased) == cfg.heading@ + seq!['\n', '\n']
            + cfg.empty_msg@ + seq!['\n'],
{
    assert(changelog_is_empty(v));
    let ps = changelog_paragraphs(v, cfg, with_unreleased);
    assert(ps =~= seq![cfg.heading@, cfg.empty_msg@]);
    assert(ps.drop_first() =~= seq![cfg.empty_msg@]);
    assert(ps.len() == 2 && ps.first() == cfg.heading@);
    let tail = ps.drop_first();
    assert(tail.len() == 1 && tail.first() == cfg.empty_msg@);
    assert(join_with(tail, seq!['\n', '\n']) == cfg.empty_msg@);
    assert(join_with(ps, seq!['\n', '\n']) == ps.first() + seq!['\n', '\n'] + join_with(
        tail,
        seq!['\n', '\n'],
    ));
    assert(join_with(ps, seq!['\n', '\n']) =~= cfg.heading@ + seq!['\n', '\n'] + cfg.empty_msg@);
    assert(render_changelog_spec(v, cfg, with_unreleased) =~= cfg.heading@ + seq!['\n', '\n']
        + cfg.empty_msg@ + seq!['\n']);
}

} // verus!
