//! At a high level, a changelog belongs to a project, and so we need to
//! model this accordingly: a project has a path and a way of resolving the
//! components that change entries are attributed to.

use crate::changelog::changelog_view_of;
use crate::changelog::changelog_input_valid;
use crate::changelog::Changelog;
use crate::changelog::component::Component as ResolvedComponent;
use crate::changelog::config::Config;
use crate::error::Error;
use crate::input::ChangelogInput;
use crate::text::str_eq;
use vstd::prelude::*;

verus! {

/// The type of project a changelog belongs to.
#[derive(Debug, Clone, Copy, PartialEq, Eq, Structural)]
pub enum ProjectType {
    Rust,
}

impl ProjectType {
    /// Detects the type of project at `path`, from what the caller found
    /// there: a project with a `Cargo.toml` file is a Rust project; no
    /// other kind is recognized.
    pub fn autodetect(path: &str, cargo_toml_is_file: bool) -> (r: Result<ProjectType, Error>)
        ensures
            match r {
                Ok(t) => cargo_toml_is_file && t == ProjectType::Rust,
                Err(e) => !cargo_toml_is_file && (match e {
                    Error::CannotAutodetectProjectType(t) => t@ == path@,
                    _ => false,
                }),
            },
    {
        if cargo_toml_is_file {
            Ok(ProjectType::Rust)
        } else {
            Err(Error::CannotAutodetectProjectType(path.to_owned()))
        }
    }

    /// The project type's display name.
    pub fn name(&self) -> (r: &'static str)
        ensures
            r@ == "Rust"@,
    {
        "Rust"
    }
}

impl core::str::FromStr for ProjectType {
    type Err = Error;

    fn from_str(s: &str) -> Result<ProjectType, Error> {
        if str_eq(s, "rust") {
            Ok(ProjectType::Rust)
        } else {
            Err(Error::UnrecognizedProjectType(s.to_owned()))
        }
    }
}

/// A single component of a project, as a language-specific loader finds
/// it on disk.
#[derive(Debug, Clone)]
pub struct Component {
    /// The name/ID of the component.
    pub name: String,
    /// The path of the component relative to the project path.
    pub rel_path: String,
}

/// A project-specific component loader.
///
/// Usually each programming language will have at least one component
/// loader; the loader may consult build tooling, the file system or a
/// cache, so nothing is promised of its answers beyond their shape.
pub trait ComponentLoader {
    /// Attempts to load the component with the given name.
    ///
    /// If the component does not exist, this returns `Ok(None)`.
    fn get_component(&mut self, name: &str) -> Result<Option<ResolvedComponent>, Error>;
}

/// Resolves every named component through the loader, building the
/// resolver table the changelog loader consumes; a component the loader
/// does not know is a hard error.
pub fn resolve_components<C: ComponentLoader>(loader: &mut C, ids: &Vec<String>) -> (r: Result<
    Vec<(String, ResolvedComponent)>,
    Error,
>)
    ensures
        match r {
            Ok(table) => table@.len() == ids@.len() && (forall|i: int|
                0 <= i < table@.len() ==> (#[trigger] table@[i].0)@ == ids@[i]@),
            Err(e) => ids@.len() > 0,
        },
{
    let mut table: Vec<(String, ResolvedComponent)> = Vec::new();
    let n: usize = ids.len();
    let mut i: usize = 0;
    while i < n
        invariant
            i <= n,
            n == ids@.len(),
            table@.len() == i,
            forall|j: int| 0 <= j < i ==> (#[trigger] table@[j].0)@ == ids@[j]@,
        decreases n - i,
    {
        match loader.get_component(ids[i].as_str()) {
            Ok(Some(c)) => {
                table.push((ids[i].clone(), c));
            },
            Ok(None) => {
                return Err(Error::ComponentNotDefined(ids[i].clone()));
            },
            Err(e) => {
                return Err(e);
            },
        }
        i = i + 1;
    }
    Ok(table)
}

/// The component-section IDs of one section, in input order.
pub open spec fn section_component_ids(s: crate::input::ChangeSetSectionInput) -> Seq<Seq<char>> {
    s.component_sections@.map_values(|c: crate::input::ComponentSectionInput| c.id@)
}

/// The component-section IDs of one change set, section by section, in
/// input order.
pub open spec fn change_set_component_ids(cs: crate::input::ChangeSetInput) -> Seq<Seq<char>> {
    change_set_component_ids_prefix(cs, cs.sections@.len() as int)
}

/// The component-section IDs of the first `n` sections of a change set.
pub open spec fn change_set_component_ids_prefix(
    cs: crate::input::ChangeSetInput,
    n: int,
) -> Seq<Seq<char>>
    decreases n,
{
    if n <= 0 {
        Seq::empty()
    } else {
        change_set_component_ids_prefix(cs, n - 1) + section_component_ids(
            cs.sections@[n - 1],
        )
    }
}

/// The component-section IDs of the first `n` releases of a snapshot.
pub open spec fn releases_component_ids_prefix(input: ChangelogInput, n: int) -> Seq<Seq<char>>
    decreases n,
{
    if n <= 0 {
        Seq::empty()
    } else {
        releases_component_ids_prefix(input, n - 1) + change_set_component_ids(
            input.releases@[n - 1].changes,
        )
    }
}

/// The IDs of every component directory a changelog snapshot mentions, in
/// traversal order: the unreleased change set's first, then release by
/// release; duplicates are kept.
pub open spec fn snapshot_component_ids(input: ChangelogInput) -> Seq<Seq<char>> {
    (match input.unreleased {
        Some(u) => change_set_component_ids(u),
        None => Seq::<Seq<char>>::empty(),
    }) + releases_component_ids_prefix(input, input.releases@.len() as int)
}

fn collect_section_component_ids(input: &crate::input::ChangeSetInput, out: &mut Vec<String>)
    ensures
        final(out).deep_view() == old(out).deep_view() + change_set_component_ids(*input),
{
    let ghost base: Seq<Seq<char>> = out.deep_view();
    let sn: usize = input.sections.len();
    let mut si: usize = 0;
    proof {
        assert(out.deep_view() =~= base + change_set_component_ids_prefix(*input, 0));
    }
    while si < sn
        invariant
            si <= sn,
            sn == input.sections@.len(),
            out.deep_view() == base + change_set_component_ids_prefix(*input, si as int),
        decreases sn - si,
    {
        let cn: usize = input.sections[si].component_sections.len();
        let ghost sec = input.sections@[si as int];
        let ghost before_section: Seq<Seq<char>> = out.deep_view();
        let mut ci: usize = 0;
        proof {
            assert(out.deep_view() =~= before_section + section_component_ids(sec).take(0));
        }
        while ci < cn
            invariant
                ci <= cn,
                si < sn,
                sn == input.sections@.len(),
                sec == input.sections@[si as int],
                cn == input.sections@[si as int].component_sections@.len(),
                out.deep_view() == before_section + section_component_ids(sec).take(ci as int),
            decreases cn - ci,
        {
            let ghost before: Seq<Seq<char>> = out.deep_view();
            out.push(input.sections[si].component_sections[ci].id.clone());
            proof {
                let ids = section_component_ids(sec);
                assert(ids.take(ci as int + 1) =~= ids.take(ci as int).push(ids[ci as int]));
                assert(ids[ci as int] == sec.component_sections@[ci as int].id@);
                assert(out.deep_view() =~= before.push(out@.last()@));
            }
            ci = ci + 1;
        }
        proof {
            assert(section_component_ids(sec).take(cn as int) =~= section_component_ids(sec));
            assert(out.deep_view() =~= base + change_set_component_ids_prefix(
                *input,
                si as int + 1,
            ));
        }
        si = si + 1;
    }
    proof {
        assert(out.deep_view() =~= base + change_set_component_ids(*input));
    }
}

/// Collects the snapshot's component-section IDs, per
/// `snapshot_component_ids`.
fn collect_component_ids(input: &ChangelogInput) -> (r: Vec<String>)
    ensures
        r.deep_view() == snapshot_component_ids(*input),
{
    let mut out: Vec<String> = Vec::new();
    proof {
        assert(out.deep_view() =~= Seq::<Seq<char>>::empty());
    }
    match &input.unreleased {
        Some(u) => collect_section_component_ids(u, &mut out),
        None => {},
    }
    let ghost head: Seq<Seq<char>> = out.deep_view();
    proof {
        assert(head =~= match input.unreleased {
            Some(u) => change_set_component_ids(u),
            None => Seq::<Seq<char>>::empty(),
        });
        assert(out.deep_view() =~= head + releases_component_ids_prefix(*input, 0));
    }
    let rn: usize = input.releases.len();
    let mut ri: usize = 0;
    while ri < rn
        invariant
            ri <= rn,
            rn == input.releases@.len(),
            head == (match input.unreleased {
                Some(u) => change_set_component_ids(u),
                None => Seq::<Seq<char>>::empty(),
            }),
            out.deep_view() == head + releases_component_ids_prefix(*input, ri as int),
        decreases rn - ri,
    {
        collect_section_component_ids(&input.releases[ri].changes, &mut out);
        proof {
            assert(input.releases@[ri as int].changes == input.releases[ri as int].changes);
            assert(out.deep_view() =~= head + releases_component_ids_prefix(
                *input,
                ri as int + 1,
            ));
        }
        ri = ri + 1;
    }
    proof {
        assert(out.deep_view() =~= snapshot_component_ids(*input));
    }
    out
}

/// A project, with project-specific component loader.
#[derive(Debug, Clone)]
pub struct Project<C> {
    /// The path of the project's changelog directory.
    pub path: String,
    /// The loader that resolves the components change entries are
    /// attributed to.
    pub component_loader: C,
}

/// Whether a snapshot mentions no component directories at all; loading
/// such a snapshot never consults the component loader.
pub open spec fn snapshot_has_no_components(input: ChangelogInput) -> bool {
    snapshot_component_ids(input).len() == 0
}

impl<C: ComponentLoader> Project<C> {
    /// Create a project using the given path and given custom component
    /// loader, stored verbatim.
    pub fn new_with_component_loader(path: &str, component_loader: C) -> (r: Project<C>)
        ensures
            r.path@ == path@,
            r.component_loader == component_loader,
    {
        Project { path: path.to_owned(), component_loader }
    }

    /// The path of the project's changelog directory.
    pub fn path(&self) -> (r: &str)
        ensures
            r@ == self.path@,
    {
        self.path.as_str()
    }

    /// Attempt to build the changelog of this project from its directory
    /// snapshot, resolving every component the snapshot mentions through
    /// the project's component loader. On success the result is the
    /// parse of the snapshot under a resolver table whose keys are
    /// exactly the snapshot's component IDs, in traversal order; what
    /// the table maps them to is whatever the loader answered. For a
    /// snapshot that mentions no components the loader is never
    /// consulted, so the outcome is exactly `Changelog::from_input`'s
    /// under the empty table.
    ///
    /// Consumes the project.
    pub fn read_changelog(self, config: &Config, input: &ChangelogInput) -> (r: Result<
        Changelog,
        Error,
    >)
        ensures
            match r {
                Ok(log) => exists|table: Seq<(String, ResolvedComponent)>|
                    {
                        &&& table.len() == snapshot_component_ids(*input).len()
                        &&& (forall|i: int|
                            0 <= i < table.len() ==> (#[trigger] table[i].0)@
                                == snapshot_component_ids(*input)[i])
                        &&& changelog_input_valid(table, *input)
                        &&& log@ == changelog_view_of(*config, table, *input)
                    },
                Err(e) => snapshot_has_no_components(*input) ==> {
                    &&& !changelog_input_valid(Seq::empty(), *input)
                    &&& crate::changelog::changelog_error_matches(Seq::empty(), *input, e)
                },
            },
            snapshot_has_no_components(*input) && changelog_input_valid(Seq::empty(), *input)
                ==> r is Ok,
    {
        let mut loader: C = self.component_loader;
        let ids: Vec<String> = collect_component_ids(input);
        proof {
            assert(ids@.len() == ids.deep_view().len());
        }
        let table: Vec<(String, ResolvedComponent)> = match resolve_components(&mut loader, &ids) {
            Ok(t) => t,
            Err(e) => {
                proof {
                    assert(snapshot_component_ids(*input).len() > 0);
                }
                return Err(e);
            },
        };
        let ghost no_components = snapshot_has_no_components(*input);
        proof {
            if no_components {
                assert(table@ =~= Seq::<(String, ResolvedComponent)>::empty());
            }
        }
        match Changelog::from_input(config, input, &table) {
            Ok(log) => {
                proof {
                    let witness = table@;
                    assert forall|i: int| 0 <= i < witness.len() implies (#[trigger] witness[
                        i
                    ].0)@ == snapshot_component_ids(*input)[i] by {
                        assert(witness[i].0@ == ids@[i]@);
                        assert(ids@[i]@ == ids.deep_view()[i]);
                    }
                    assert(changelog_input_valid(witness, *input) && log@ == changelog_view_of(
                        *config,
                        witness,
                        *input,
                    ));
                }
                Ok(log)
            },
            Err(e) => {
                proof {
                    if no_components {
                        assert(!changelog_input_valid(table@, *input));
                        assert(crate::changelog::changelog_error_matches(table@, *input, e));
                    }
                }
                Err(e)
            },
        }
    }
}

} // verus!
