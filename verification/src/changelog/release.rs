//! The changes associated with a specific release.

use crate::changelog::change_set::{
    change_set_input_valid, change_set_is_empty, change_set_view_of, render_change_set_spec,
    sections_error_matches, ChangeSet, ChangeSetView,
};
use crate::changelog::component::Component;
use crate::changelog::config::Config;
use crate::changelog::date::{date_of, date_view_of, Date, DateView};
use crate::changelog::parsing_utils::{extract_release_version, first_digit_index};
use crate::changelog::version::{semver_of, semver_view_of, Version, VersionView};
use crate::error::Error;
use crate::input::ReleaseInput;
use crate::text::{split_lines, split_lines_spec};
use vstd::prelude::*;

verus! {

/// The mathematical model of a [`Release`].
#[verifier::ext_equal]
pub ghost struct ReleaseView {
    /// The release's ID: the raw directory name, e.g. `v0.2.1`.
    pub id: Seq<char>,
    /// The release's semantic version, parsed from the ID.
    pub version: VersionView,
    /// The release's date, if one parses from the summary's first line.
    pub maybe_date: Option<DateView>,
    /// The release's changes.
    pub changes: ChangeSetView,
}

/// The changes associated with a specific release.
#[derive(Debug, Clone)]
pub struct Release {
    /// This release's ID (could be the version plus a prefix, e.g.
    /// `v0.1.0`).
    pub id: String,
    /// This release's version (using semantic versioning).
    pub version: Version,
    /// This release's date, if any, parsed from the first line of the
    /// summary according to the configured date formats.
    pub maybe_date: Option<Date>,
    /// The changes associated with this release.
    pub changes: ChangeSet,
}

impl View for Release {
    type V = ReleaseView;

    open spec fn view(&self) -> ReleaseView {
        ReleaseView {
            id: self.id@,
            version: self.version@,
            maybe_date: self.maybe_date.deep_view(),
            changes: self.changes@,
        }
    }
}

impl DeepView for Release {
    type V = ReleaseView;

    open spec fn deep_view(&self) -> ReleaseView {
        self.view()
    }
}

/// The version substring of a release directory name: everything from
/// the first digit on; meaningful when the name holds a digit.
pub open spec fn version_substring_of(id: Seq<char>) -> Seq<char> {
    id.skip(first_digit_index(id))
}

/// Whether a release directory name carries a parseable semantic
/// version: it holds a digit, and the substring from the first digit on
/// parses as a semantic version.
pub open spec fn release_version_valid(id: Seq<char>) -> bool {
    first_digit_index(id) < id.len() && semver_of(version_substring_of(id)) is Some
}

/// The first of the configured date formats that parses the line, and
/// the date it yields; none if no format matches.
pub open spec fn date_from_formats(line: Seq<char>, fmts: Seq<Seq<char>>) -> Option<DateView>
    decreases fmts.len(),
{
    if fmts.len() == 0 {
        None
    } else if date_of(line, fmts.first()) is Some {
        Some(date_view_of(line, fmts.first()))
    } else {
        date_from_formats(line, fmts.drop_first())
    }
}

/// The release date read off a change set's summary: the first line of
/// the summary, parsed with the first matching configured date format.
pub open spec fn release_date_spec(cfg: Config, maybe_summary: Option<Seq<char>>) -> Option<
    DateView,
> {
    match maybe_summary {
        Some(s) => date_from_formats(
            split_lines_spec(s).first(),
            cfg.release_date_formats.deep_view(),
        ),
        None => None,
    }
}

/// Whether a release input can be loaded: its directory name carries a
/// version and its change set can be loaded.
pub open spec fn release_input_valid(
    table: Seq<(String, Component)>,
    input: ReleaseInput,
) -> bool {
    release_version_valid(input.version@) && change_set_input_valid(table, input.changes)
}

/// The model that a release input parses to, under the given
/// configuration and resolver table; meaningful when
/// `release_input_valid` holds of the input.
pub open spec fn release_view_of(
    cfg: Config,
    table: Seq<(String, Component)>,
    input: ReleaseInput,
) -> ReleaseView {
    let changes = change_set_view_of(table, cfg.change_set_sections.sort_entries_by, input.changes);
    ReleaseView {
        id: input.version@,
        version: semver_view_of(version_substring_of(input.version@)),
        maybe_date: release_date_spec(cfg, changes.maybe_summary),
        changes,
    }
}

/// Whether `e` is the error that loading one release input produces: a
/// name with no digit, then an unparseable version, then the change
/// set's own first error.
pub open spec fn release_error_matches(
    table: Seq<(String, Component)>,
    input: ReleaseInput,
    e: Error,
) -> bool {
    if first_digit_index(input.version@) == input.version@.len() {
        match e {
            Error::CannotExtractVersion(t) => t@ == input.version@,
            _ => false,
        }
    } else if semver_of(version_substring_of(input.version@)) is None {
        e is InvalidSemanticVersion
    } else {
        sections_error_matches(table, input.changes.sections@, e)
    }
}

fn parse_release_date(config: &Config, summary: &str) -> (r: Option<Date>)
    ensures
        r.deep_view() == date_from_formats(
            split_lines_spec(summary@).first(),
            config.release_date_formats.deep_view(),
        ),
{
    let lines: Vec<String> = split_lines(summary);
    proof {
        crate::text::lemma_split_on_nonempty(summary@, '\n');
        assert(lines@.len() == lines.deep_view().len());
    }
    let first_line: &str = lines[0].as_str();
    proof {
        assert(lines.deep_view()[0] == lines@[0]@);
    }
    let n: usize = config.release_date_formats.len();
    let mut i: usize = 0;
    proof {
        assert(config.release_date_formats.deep_view().skip(0)
            =~= config.release_date_formats.deep_view());
    }
    loop
        invariant
            i <= n,
            n == config.release_date_formats@.len(),
            n == config.release_date_formats.deep_view().len(),
            first_line@ == split_lines_spec(summary@).first(),
            date_from_formats(first_line@, config.release_date_formats.deep_view())
                == date_from_formats(
                first_line@,
                config.release_date_formats.deep_view().skip(i as int),
            ),
        decreases n - i,
    {
        if i >= n {
            return None;
        }
        proof {
            let fmts = config.release_date_formats.deep_view();
            assert(fmts.skip(i as int).first() == fmts[i as int]);
            assert(fmts.skip(i as int).drop_first() =~= fmts.skip(i as int + 1));
            assert(fmts[i as int] == config.release_date_formats@[i as int]@);
        }
        match Date::parse(first_line, config.release_date_formats[i].as_str()) {
            Some(d) => {
                return Some(d);
            },
            None => {},
        }
        i = i + 1;
    }
}

/// The rendering of a release: a `##` heading with the release ID,
/// followed by the change set's rendering when it is not empty.
pub open spec fn render_release_spec(v: ReleaseView, cfg: Config) -> Seq<char> {
    seq!['#', '#', ' '] + v.id + (if change_set_is_empty(v.changes) {
        Seq::<char>::empty()
    } else {
        seq!['\n', '\n'] + render_change_set_spec(v.changes, cfg)
    })
}

impl Release {
    /// Builds one release from its raw input: the version is parsed from
    /// the directory name's first digit on, the change set is loaded, and
    /// the release date is read off the summary's first line using the
    /// configured date formats.
    pub fn from_input(
        config: &Config,
        input: &ReleaseInput,
        components: &Vec<(String, Component)>,
    ) -> (r: Result<Release, Error>)
        ensures
            match r {
                Ok(rel) => release_input_valid(components@, *input) && rel@ == release_view_of(
                    *config,
                    components@,
                    *input,
                ),
                Err(e) => !release_input_valid(components@, *input) && release_error_matches(
                    components@,
                    *input,
                    e,
                ),
            },
    {
        let version_str: &str = match extract_release_version(input.version.as_str()) {
            Ok(v) => v,
            Err(e) => {
                return Err(e);
            },
        };
        let version: Version = match Version::parse(version_str) {
            Ok(v) => v,
            Err(e) => {
                return Err(e);
            },
        };
        let changes: ChangeSet = match ChangeSet::from_input(config, &input.changes, components) {
            Ok(cs) => cs,
            Err(e) => {
                return Err(e);
            },
        };
        let maybe_date: Option<Date> = match &changes.maybe_summary {
            Some(summary) => parse_release_date(config, summary.as_str()),
            None => None,
        };
        let result = Release { id: input.version.clone(), version, maybe_date, changes };
        proof {
            assert(result@ =~= release_view_of(*config, components@, *input));
        }
        Ok(result)
    }

    /// Renders this release, per `render_release_spec`.
    pub fn render(&self, config: &Config) -> (r: String)
        ensures
            r@ == render_release_spec(self@, *config),
    {
        let mut out: String = String::new();
        out.append("## ");
        out.append(self.id.as_str());
        if !self.changes.is_empty() {
            out.append("\n\n");
            let body: String = self.changes.render(config);
            out.append(body.as_str());
        }
        proof {
            reveal_strlit("## ");
            reveal_strlit("\n\n");
            assert("## "@ =~= seq!['#', '#', ' ']);
            assert("\n\n"@ =~= seq!['\n', '\n']);
            assert(out@ =~= render_release_spec(self@, *config));
        }
        out
    }
}

} // verus!
