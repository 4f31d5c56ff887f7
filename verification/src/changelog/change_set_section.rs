//! A single section in a set of changes.
//!
//! For example, the "FEATURES" or "BREAKING CHANGES" section.

use crate::changelog::component::Component;
use crate::changelog::component_section::{
    all_components_valid, components_error_matches, read_components_sorted,
    render_component_section_spec, sorted_component_views, ComponentSection, ComponentSectionIter,
    ComponentSectionView,
};
use crate::changelog::entry_path::ChangeSetComponentPath;
use crate::changelog::config::Config;
use crate::changelog::entry::{
    all_entries_valid, entries_error_matches, read_entries_sorted, sorted_entry_views, Entry,
    EntryView,
};
use crate::error::Error;
use crate::input::ChangeSetSectionInput;
use crate::text::{
    join_strings, join_with, push_char, repeat_char, spaces, split_lines, split_lines_spec,
    trim_spec, trim_str, upper_of,
};
use vstd::prelude::*;

verus! {

/// The mathematical model of a [`ChangeSetSection`].
#[verifier::ext_equal]
pub ghost struct ChangeSetSectionView {
    /// The section's ID: the directory name.
    pub id: Seq<char>,
    /// The section's rendered title.
    pub title: Seq<char>,
    /// The section's general entries, in their sorted order.
    pub entries: Seq<EntryView>,
    /// The section's component sections, in their sorted order.
    pub component_sections: Seq<ComponentSectionView>,
}

/// A single section in a set of changes.
///
/// For example, the "FEATURES" or "BREAKING CHANGES" section.
#[derive(Debug, Clone)]
pub struct ChangeSetSection {
    /// Original ID of this change set section (the folder name).
    pub id: String,
    /// A short, descriptive title for this section (e.g. "BREAKING
    /// CHANGES").
    pub title: String,
    /// General entries in the change set section.
    pub entries: Vec<Entry>,
    /// Entries associated with a specific component/package/submodule.
    pub component_sections: Vec<ComponentSection>,
}

impl View for ChangeSetSection {
    type V = ChangeSetSectionView;

    open spec fn view(&self) -> ChangeSetSectionView {
        ChangeSetSectionView {
            id: self.id@,
            title: self.title@,
            entries: self.entries.deep_view(),
            component_sections: self.component_sections.deep_view(),
        }
    }
}

impl DeepView for ChangeSetSection {
    type V = ChangeSetSectionView;

    open spec fn deep_view(&self) -> ChangeSetSectionView {
        self.view()
    }
}

/// Whether a section holds neither general entries nor component
/// sections.
pub open spec fn section_is_empty(v: ChangeSetSectionView) -> bool {
    v.entries.len() == 0 && v.component_sections.len() == 0
}

/// One character of a section ID with hyphens turned into spaces.
pub open spec fn hyphen_to_space(c: char) -> char {
    if c == '-' {
        ' '
    } else {
        c
    }
}

/// The title derived from a section ID: hyphens become spaces and the
/// result is upper-cased, e.g. `breaking-changes` becomes
/// `BREAKING CHANGES`.
pub open spec fn section_title_spec(id: Seq<char>) -> Seq<char> {
    upper_of(id.map_values(|c: char| hyphen_to_space(c)))
}

/// The title derived from a section ID, per `section_title_spec`.
pub fn change_set_section_title(s: &str) -> (r: String)
    ensures
        r@ == section_title_spec(s@),
{
    let n: usize = s.unicode_len();
    let mut spaced: String = String::new();
    let mut i: usize = 0;
    proof {
        assert(spaced@ =~= s@.take(0).map_values(|c: char| hyphen_to_space(c)));
    }
    while i < n
        invariant
            i <= n,
            n == s@.len(),
            spaced@ == s@.take(i as int).map_values(|c: char| hyphen_to_space(c)),
        decreases n - i,
    {
        let c: char = s.get_char(i);
        if c == '-' {
            push_char(&mut spaced, ' ');
        } else {
            push_char(&mut spaced, c);
        }
        proof {
            let f = |c2: char| hyphen_to_space(c2);
            assert(s@.take(i as int + 1) =~= s@.take(i as int).push(s@[i as int]));
            assert(s@.take(i as int + 1).map_values(f) =~= s@.take(i as int).map_values(f).push(
                f(s@[i as int]),
            ));
        }
        i = i + 1;
    }
    proof {
        assert(s@.take(n as int) =~= s@);
    }
    crate::text::to_upper(spaced.as_str())
}

/// The indent width for continuation lines: two more than the base
/// width, capped at the largest width the configuration can hold.
pub open spec fn overflow_indent_of(ind: int) -> int {
    if ind + 2 <= 255 {
        ind + 2
    } else {
        255
    }
}

/// One line of an entry, indented: a line whose trimmed text starts with
/// a bullet marker gets the base width, any other line the overflow
/// width.
pub open spec fn indent_line_spec(line: Seq<char>, ind: int, ov: int) -> Seq<char> {
    let t = trim_spec(line);
    if t.len() > 0 && (t.first() == '*' || t.first() == '-') {
        repeat_char(' ', ind as nat) + t
    } else {
        repeat_char(' ', ov as nat) + t
    }
}

/// The lines of a bulleted string, each indented per `indent_line_spec`.
pub open spec fn indent_lines_spec(s: Seq<char>, ind: int, ov: int) -> Seq<Seq<char>> {
    split_lines_spec(s).map_values(|l: Seq<char>| indent_line_spec(l, ind, ov))
}

/// The indented lines of a run of entries, in order.
pub open spec fn indent_entries_spec(entries: Seq<EntryView>, ind: int, ov: int) -> Seq<Seq<char>>
    decreases entries.len(),
{
    if entries.len() == 0 {
        Seq::empty()
    } else {
        indent_entries_spec(entries.drop_last(), ind, ov) + indent_lines_spec(
            entries.last().details,
            ind,
            ov,
        )
    }
}

/// Indents the given string according to `indent` and `overflow_indent`,
/// assuming that the string contains one or more bulleted entries in
/// Markdown: bulleted lines get `indent` spaces, continuation lines
/// `overflow_indent`.
pub fn indent_bulleted_str(s: &str, indent: u8, overflow_indent: u8) -> (r: Vec<String>)
    ensures
        r.deep_view() == indent_lines_spec(s@, indent as int, overflow_indent as int),
{
    let lines: Vec<String> = split_lines(s);
    let mut out: Vec<String> = Vec::new();
    let n: usize = lines.len();
    let mut i: usize = 0;
    while i < n
        invariant
            i <= n,
            n == lines@.len(),
            lines.deep_view() == split_lines_spec(s@),
            out.deep_view() =~= split_lines_spec(s@).take(i as int).map_values(
                |l: Seq<char>| indent_line_spec(l, indent as int, overflow_indent as int),
            ),
        decreases n - i,
    {
        let t: String = trim_str(lines[i].as_str());
        let tn: usize = t.as_str().unicode_len();
        let mut bullet: bool = false;
        if tn > 0 {
            let c0: char = t.as_str().get_char(0);
            if c0 == '*' || c0 == '-' {
                bullet = true;
            }
        }
        let mut line: String = if bullet {
            spaces(indent)
        } else {
            spaces(overflow_indent)
        };
        line.append(t.as_str());
        proof {
            assert(lines.deep_view()[i as int] == lines@[i as int]@);
            assert(line@ == indent_line_spec(
                split_lines_spec(s@)[i as int],
                indent as int,
                overflow_indent as int,
            ));
        }
        out.push(line);
        proof {
            let f = |l: Seq<char>| indent_line_spec(l, indent as int, overflow_indent as int);
            assert(split_lines_spec(s@).take(i as int + 1) =~= split_lines_spec(s@).take(
                i as int,
            ).push(split_lines_spec(s@)[i as int]));
            assert(split_lines_spec(s@).take(i as int + 1).map_values(f) =~= split_lines_spec(
                s@,
            ).take(i as int).map_values(f).push(f(split_lines_spec(s@)[i as int])));
            assert(out.deep_view() =~= out@.drop_last().map_values(|x: String| x@).push(
                out@.last()@,
            ));
            assert(out@.drop_last().map_values(|x: String| x@) =~= out.deep_view().drop_last());
        }
        i = i + 1;
    }
    proof {
        assert(split_lines_spec(s@).take(n as int) =~= split_lines_spec(s@));
    }
    out
}

/// The indented lines of a run of entries, per `indent_entries_spec`.
pub fn indent_entries(entries: &Vec<Entry>, indent: u8, overflow_indent: u8) -> (r: Vec<String>)
    ensures
        r.deep_view() == indent_entries_spec(
            entries.deep_view(),
            indent as int,
            overflow_indent as int,
        ),
{
    let mut out: Vec<String> = Vec::new();
    let n: usize = entries.len();
    let mut i: usize = 0;
    proof {
        assert(out.deep_view() =~= indent_entries_spec(
            entries.deep_view().take(0),
            indent as int,
            overflow_indent as int,
        ));
    }
    while i < n
        invariant
            i <= n,
            n == entries@.len(),
            entries.deep_view().len() == n,
            out.deep_view() == indent_entries_spec(
                entries.deep_view().take(i as int),
                indent as int,
                overflow_indent as int,
            ),
        decreases n - i,
    {
        let mut lines: Vec<String> = indent_bulleted_str(
            entries[i].details.as_str(),
            indent,
            overflow_indent,
        );
        let ghost old_out: Seq<Seq<char>> = out.deep_view();
        let ghost new_lines: Seq<Seq<char>> = lines.deep_view();
        out.append(&mut lines);
        proof {
            let dv = entries.deep_view();
            assert(out.deep_view() =~= old_out + new_lines);
            assert(dv.take(i as int + 1).drop_last() =~= dv.take(i as int));
            assert(dv.take(i as int + 1).last() == dv[i as int]);
            assert(dv[i as int].details == entries@[i as int]@.details);
        }
        i = i + 1;
    }
    proof {
        assert(entries.deep_view().take(n as int) =~= entries.deep_view());
    }
    out
}

/// The general entries of a section, one element per entry, each holding
/// the entry's text as stored (bullet markers included).
pub open spec fn plain_entry_lines(entries: Seq<EntryView>) -> Seq<Seq<char>> {
    entries.map_values(|e: EntryView| e.details)
}

/// The rendered blocks of a run of component sections, in order.
pub open spec fn component_blocks_spec(comps: Seq<ComponentSectionView>, cfg: Config) -> Seq<
    Seq<char>,
> {
    comps.map_values(|c: ComponentSectionView| render_component_section_spec(c, cfg))
}

/// The body lines of a section: with no component sections, the general
/// entries as stored; otherwise the general entries gathered under the
/// configured sub-heading and indented, followed by each component
/// section's block.
pub open spec fn section_lines_spec(v: ChangeSetSectionView, cfg: Config) -> Seq<Seq<char>> {
    let ind = cfg.components.entry_indent as int;
    if v.component_sections.len() == 0 {
        plain_entry_lines(v.entries)
    } else {
        (if v.entries.len() > 0 {
            seq![
                seq![cfg.bullet_style.char_spec(), ' '] + cfg.components.general_entries_title@,
            ] + indent_entries_spec(v.entries, ind, overflow_indent_of(ind))
        } else {
            Seq::<Seq<char>>::empty()
        }) + component_blocks_spec(v.component_sections, cfg)
    }
}

/// The rendering of a section: a `###` heading with the title, a blank
/// line, then the body lines joined line by line.
pub open spec fn render_section_spec(v: ChangeSetSectionView, cfg: Config) -> Seq<char> {
    seq!['#', '#', '#', ' '] + v.title + seq!['\n', '\n'] + join_with(
        section_lines_spec(v, cfg),
        seq!['\n'],
    )
}

/// The model that a section input parses to, under the given resolver
/// table and entry ordering; meaningful when `section_input_valid` holds
/// of the input.
pub open spec fn section_view_of(
    table: Seq<(String, Component)>,
    by: crate::changelog::config::SortEntriesBy,
    input: ChangeSetSectionInput,
) -> ChangeSetSectionView {
    ChangeSetSectionView {
        id: input.id@,
        title: section_title_spec(input.id@),
        entries: sorted_entry_views(by, input.entries@),
        component_sections: sorted_component_views(table, by, input.component_sections@),
    }
}

/// Whether a section input can be loaded: every component section
/// resolves and every entry filename carries a valid ID.
pub open spec fn section_input_valid(
    table: Seq<(String, Component)>,
    input: ChangeSetSectionInput,
) -> bool {
    all_components_valid(table, input.component_sections@) && all_entries_valid(input.entries@)
}

/// Whether `e` is the error that loading one section input produces: the
/// first failing component section's error, else the first failing
/// entry's error.
pub open spec fn section_error_matches(
    table: Seq<(String, Component)>,
    input: ChangeSetSectionInput,
    e: Error,
) -> bool {
    if !all_components_valid(table, input.component_sections@) {
        components_error_matches(table, input.component_sections@, e)
    } else {
        entries_error_matches(input.entries@, e)
    }
}

impl ChangeSetSection {
    /// Returns whether or not this section is empty.
    pub fn is_empty(&self) -> (r: bool)
        ensures
            r == section_is_empty(self@),
    {
        self.entries.len() == 0 && self.component_sections.len() == 0
    }

    /// Builds one section from its raw input: the title is derived from
    /// the ID, component sections are resolved and sorted by component
    /// ID, and general entries are parsed and sorted.
    pub fn from_input(
        config: &Config,
        input: &ChangeSetSectionInput,
        components: &Vec<(String, Component)>,
    ) -> (r: Result<ChangeSetSection, Error>)
        ensures
            match r {
                Ok(s) => {
                    &&& all_components_valid(components@, input.component_sections@)
                    &&& all_entries_valid(input.entries@)
                    &&& s@.id == input.id@
                    &&& s@.title == section_title_spec(input.id@)
                    &&& s@.component_sections == sorted_component_views(
                        components@,
                        config.change_set_sections.sort_entries_by,
                        input.component_sections@,
                    )
                    &&& s@.entries == sorted_entry_views(
                        config.change_set_sections.sort_entries_by,
                        input.entries@,
                    )
                },
                Err(e) => {
                    if !all_components_valid(components@, input.component_sections@) {
                        components_error_matches(components@, input.component_sections@, e)
                    } else {
                        &&& !all_entries_valid(input.entries@)
                        &&& entries_error_matches(input.entries@, e)
                    }
                },
            },
    {
        let title: String = change_set_section_title(input.id.as_str());
        let component_sections: Vec<ComponentSection> = match read_components_sorted(
            config,
            &input.component_sections,
            components,
        ) {
            Ok(v) => v,
            Err(e) => {
                return Err(e);
            },
        };
        let entries: Vec<Entry> = match read_entries_sorted(
            config.change_set_sections.sort_entries_by,
            &input.entries,
        ) {
            Ok(v) => v,
            Err(e) => {
                return Err(e);
            },
        };
        Ok(ChangeSetSection { id: input.id.clone(), title, entries, component_sections })
    }

    /// Render this change set section to a string using the given
    /// configuration, per `render_section_spec`.
    pub fn render(&self, config: &Config) -> (r: String)
        ensures
            r@ == render_section_spec(self@, *config),
    {
        let ind: u8 = config.components.entry_indent;
        let ov: u8 = if ind <= 253 {
            ind + 2
        } else {
            255
        };
        let mut lines: Vec<String> = Vec::new();
        if self.component_sections.len() == 0 {
            let n: usize = self.entries.len();
            let mut i: usize = 0;
            proof {
                assert(lines.deep_view() =~= plain_entry_lines(self@.entries.take(0)));
            }
            while i < n
                invariant
                    i <= n,
                    n == self.entries@.len(),
                    self@.entries.len() == n,
                    self@.component_sections.len() == 0,
                    lines.deep_view() == plain_entry_lines(self@.entries.take(i as int)),
                decreases n - i,
            {
                lines.push(self.entries[i].details.clone());
                proof {
                    let dv = self@.entries;
                    assert(dv.take(i as int + 1) =~= dv.take(i as int).push(dv[i as int]));
                    assert(plain_entry_lines(dv.take(i as int + 1)) =~= plain_entry_lines(
                        dv.take(i as int),
                    ).push(dv[i as int].details));
                    assert(lines.deep_view() =~= lines.deep_view().drop_last().push(
                        lines@.last()@,
                    ));
                    assert(dv[i as int].details == self.entries@[i as int]@.details);
                }
                i = i + 1;
            }
            proof {
                assert(self@.entries.take(n as int) =~= self@.entries);
                assert(lines.deep_view() =~= section_lines_spec(self@, *config));
            }
        } else {
            if self.entries.len() > 0 {
                let mut header: String = String::new();
                header.append(config.bullet_style.as_str());
                push_char(&mut header, ' ');
                header.append(config.components.general_entries_title.as_str());
                lines.push(header);
                let ghost header_view: Seq<char> = lines@[0]@;
                let mut indented: Vec<String> = indent_entries(&self.entries, ind, ov);
                let ghost indented_view: Seq<Seq<char>> = indented.deep_view();
                lines.append(&mut indented);
                proof {
                    assert(header_view =~= seq![config.bullet_style.char_spec(), ' ']
                        + config.components.general_entries_title@);
                    assert(lines.deep_view() =~= seq![header_view] + indented_view);
                }
            }
            let ghost general_view: Seq<Seq<char>> = lines.deep_view();
            let n: usize = self.component_sections.len();
            let mut i: usize = 0;
            proof {
                assert(component_blocks_spec(self@.component_sections.take(0), *config)
                    =~= Seq::<Seq<char>>::empty());
                assert(lines.deep_view() =~= general_view + component_blocks_spec(
                    self@.component_sections.take(0),
                    *config,
                ));
            }
            while i < n
                invariant
                    i <= n,
                    n == self.component_sections@.len(),
                    self@.component_sections.len() == n,
                    lines.deep_view() == general_view + component_blocks_spec(
                        self@.component_sections.take(i as int),
                        *config,
                    ),
                decreases n - i,
            {
                let block: String = self.component_sections[i].render(config);
                let ghost before: Seq<Seq<char>> = lines.deep_view();
                lines.push(block);
                proof {
                    let dv = self@.component_sections;
                    let f = |c: ComponentSectionView| render_component_section_spec(c, *config);
                    assert(dv.take(i as int + 1) =~= dv.take(i as int).push(dv[i as int]));
                    assert(component_blocks_spec(dv.take(i as int + 1), *config)
                        =~= component_blocks_spec(dv.take(i as int), *config).push(
                        f(dv[i as int]),
                    ));
                    assert(dv[i as int] == self.component_sections@[i as int]@);
                    assert(lines.deep_view() =~= before.push(lines@.last()@));
                }
                i = i + 1;
            }
            proof {
                assert(self@.component_sections.take(n as int) =~= self@.component_sections);
                assert(lines.deep_view() =~= section_lines_spec(self@, *config));
            }
        }
        let body: String = join_strings(&lines, "\n");
        let mut out: String = String::new();
        out.append("### ");
        out.append(self.title.as_str());
        out.append("\n\n");
        out.append(body.as_str());
        proof {
            reveal_strlit("\n");
            reveal_strlit("\n\n");
            reveal_strlit("### ");
            assert("\n"@ =~= seq!['\n']);
            assert("\n\n"@ =~= seq!['\n', '\n']);
            assert("### "@ =~= seq!['#', '#', '#', ' ']);
            assert(out@ =~= render_section_spec(self@, *config));
        }
        out
    }
}

/// The paths of a section's general entries, in order.
pub open spec fn general_paths(v: ChangeSetSectionView) -> Seq<ChangeSetComponentPath> {
    Seq::new(v.entries.len(), |e: int| ChangeSetComponentPath::General(e as usize))
}

/// The paths of the entries of the component section at position `ci`,
/// in order.
pub open spec fn comp_paths_at(v: ChangeSetSectionView, ci: int) -> Seq<ChangeSetComponentPath> {
    Seq::new(
        v.component_sections[ci].entries.len(),
        |e: int| ChangeSetComponentPath::Component(ci as usize, e as usize),
    )
}

/// The paths of all entries of the component sections from position `ci`
/// on, in order.
pub open spec fn comps_from(v: ChangeSetSectionView, ci: int) -> Seq<ChangeSetComponentPath>
    decreases v.component_sections.len() - ci,
{
    if ci < 0 || ci >= v.component_sections.len() {
        Seq::empty()
    } else {
        comp_paths_at(v, ci) + comps_from(v, ci + 1)
    }
}

/// The paths of all entries of a section in render order: the general
/// entries, then each component section's entries.
pub open spec fn section_paths(v: ChangeSetSectionView) -> Seq<ChangeSetComponentPath> {
    general_paths(v) + comps_from(v, 0)
}

/// A cursor over the entries of a section's component sections.
#[derive(Debug, Clone, Copy)]
pub struct ComponentSectionsIter {
    /// The position of the component section the cursor is in.
    pub section_id: usize,
    /// The cursor within that component section.
    pub section_iter: ComponentSectionIter,
}

impl ComponentSectionsIter {
    /// Whether the cursor points into the section's component sections.
    pub open spec fn wf(self, v: ChangeSetSectionView) -> bool {
        self.section_id < v.component_sections.len() ==> self.section_iter.wf(
            v.component_sections[self.section_id as int],
        )
    }

    /// The paths the cursor has yet to yield.
    pub open spec fn remaining(self, v: ChangeSetSectionView) -> Seq<ChangeSetComponentPath> {
        if self.section_id >= v.component_sections.len() {
            Seq::empty()
        } else {
            comp_paths_at(v, self.section_id as int).skip(self.section_iter.entry_id as int)
                + comps_from(v, self.section_id as int + 1)
        }
    }

    /// A cursor at the first entry of the first non-empty component
    /// section, or nothing if every component section is empty.
    pub fn new(change_set_section: &ChangeSetSection) -> (r: Option<ComponentSectionsIter>)
        ensures
            match r {
                Some(it) => it.wf(change_set_section@) && it.remaining(change_set_section@)
                    == comps_from(change_set_section@, 0) && comps_from(
                    change_set_section@,
                    0,
                ).len() > 0,
                None => comps_from(change_set_section@, 0).len() == 0,
            },
    {
        let ghost v = change_set_section@;
        let n: usize = change_set_section.component_sections.len();
        let mut ci: usize = 0;
        while ci < n
            invariant
                ci <= n,
                n == v.component_sections.len(),
                v == change_set_section@,
                comps_from(v, 0) == comps_from(v, ci as int),
            decreases n - ci,
        {
            proof {
                assert(v.component_sections[ci as int]
                    == change_set_section.component_sections@[ci as int]@);
            }
            match ComponentSectionIter::new(&change_set_section.component_sections[ci]) {
                Some(it) => {
                    let result = ComponentSectionsIter { section_id: ci, section_iter: it };
                    proof {
                        assert(comp_paths_at(v, ci as int).skip(0) =~= comp_paths_at(v, ci as int));
                        assert(result.remaining(v) =~= comps_from(v, ci as int));
                    }
                    return Some(result);
                },
                None => {
                    proof {
                        assert(comp_paths_at(v, ci as int) =~= Seq::<
                            ChangeSetComponentPath,
                        >::empty());
                        assert(comps_from(v, ci as int) =~= comps_from(v, ci as int + 1));
                    }
                },
            }
            ci = ci + 1;
        }
        None
    }

    /// Yields the next entry's path, advancing the cursor past empty
    /// component sections.
    pub fn next(&mut self, section: &ChangeSetSection) -> (r: Option<ChangeSetComponentPath>)
        requires
            old(self).wf(section@),
        ensures
            final(self).wf(section@),
            match r {
                Some(p) => old(self).remaining(section@).len() > 0 && p == old(self).remaining(
                    section@,
                ).first() && final(self).remaining(section@) == old(self).remaining(
                    section@,
                ).drop_first(),
                None => old(self).remaining(section@).len() == 0 && final(self).remaining(
                    section@,
                ).len() == 0,
            },
    {
        let ghost v = section@;
        let n: usize = section.component_sections.len();
        if self.section_id >= n {
            return None;
        }
        let ci: usize = self.section_id;
        proof {
            assert(v.component_sections[ci as int] == section.component_sections@[ci as int]@);
        }
        let mut inner: ComponentSectionIter = self.section_iter;
        match inner.next(&section.component_sections[ci]) {
            Some(e) => {
                self.section_iter = inner;
                proof {
                    let part = comp_paths_at(v, ci as int);
                    assert(part.skip(e as int)[0] == part[e as int]);
                    assert(part.skip(e as int).drop_first() =~= part.skip(e as int + 1));
                    assert((part.skip(e as int) + comps_from(v, ci as int + 1)).drop_first()
                        =~= part.skip(e as int + 1) + comps_from(v, ci as int + 1));
                }
                return Some(ChangeSetComponentPath::Component(ci, e));
            },
            None => {
                proof {
                    let part = comp_paths_at(v, ci as int);
                    assert(part.skip(part.len() as int) =~= Seq::<ChangeSetComponentPath>::empty());
                    assert(old(self).remaining(v) =~= comps_from(v, ci as int + 1));
                }
                let mut cj: usize = ci + 1;
                while cj < n
                    invariant
                        ci < cj <= n,
                        n == v.component_sections.len(),
                        v == section@,
                        old(self).remaining(v) == comps_from(v, ci as int + 1),
                        comps_from(v, ci as int + 1) == comps_from(v, cj as int),
                    decreases n - cj,
                {
                    proof {
                        assert(v.component_sections[cj as int]
                            == section.component_sections@[cj as int]@);
                    }
                    match ComponentSectionIter::new(&section.component_sections[cj]) {
                        Some(fresh) => {
                            self.section_id = cj;
                            self.section_iter = ComponentSectionIter { entry_id: 1 };
                            proof {
                                let part = comp_paths_at(v, cj as int);
                                assert(part.len() > 0);
                                assert((part.skip(0) + comps_from(v, cj as int + 1)).first()
                                    == part[0]);
                                assert(part.skip(1) + comps_from(v, cj as int + 1) =~= (part.skip(0)
                                    + comps_from(v, cj as int + 1)).drop_first());
                                assert(comps_from(v, cj as int) =~= part.skip(0) + comps_from(
                                    v,
                                    cj as int + 1,
                                ));
                            }
                            return Some(ChangeSetComponentPath::Component(cj, 0));
                        },
                        None => {
                            proof {
                                assert(comp_paths_at(v, cj as int) =~= Seq::<
                                    ChangeSetComponentPath,
                                >::empty());
                                assert(comps_from(v, cj as int) =~= comps_from(v, cj as int + 1));
                            }
                        },
                    }
                    cj = cj + 1;
                }
                self.section_id = n;
                return None;
            },
        }
    }
}

/// The inner position of a [`ChangeSetSectionIter`]: among the general
/// entries, or within the component sections.
#[derive(Debug, Clone, Copy)]
pub enum ChangeSetSectionIterState {
    /// The position of the next general entry to yield.
    General(usize),
    /// A cursor over the component sections.
    ComponentSection(ComponentSectionsIter),
}

/// A cursor over all entries of one section, general entries first.
#[derive(Debug, Clone, Copy)]
pub struct ChangeSetSectionIter {
    /// The cursor's position within the section.
    pub state: ChangeSetSectionIterState,
}

impl ChangeSetSectionIter {
    /// Whether the cursor points into the section.
    pub open spec fn wf(self, v: ChangeSetSectionView) -> bool {
        match self.state {
            ChangeSetSectionIterState::General(e) => e <= v.entries.len(),
            ChangeSetSectionIterState::ComponentSection(it) => it.wf(v),
        }
    }

    /// The paths the cursor has yet to yield.
    pub open spec fn remaining(self, v: ChangeSetSectionView) -> Seq<ChangeSetComponentPath> {
        match self.state {
            ChangeSetSectionIterState::General(e) => general_paths(v).skip(e as int) + comps_from(
                v,
                0,
            ),
            ChangeSetSectionIterState::ComponentSection(it) => it.remaining(v),
        }
    }

    /// A cursor at the section's first entry in render order, or nothing
    /// if the section yields no entries.
    pub fn new(section: &ChangeSetSection) -> (r: Option<ChangeSetSectionIter>)
        ensures
            match r {
                Some(it) => it.wf(section@) && it.remaining(section@) == section_paths(section@)
                    && section_paths(section@).len() > 0,
                None => section_paths(section@).len() == 0,
            },
    {
        let ghost v = section@;
        if section.entries.len() > 0 {
            let it = ChangeSetSectionIter { state: ChangeSetSectionIterState::General(0) };
            proof {
                assert(general_paths(v).skip(0) =~= general_paths(v));
                assert(it.remaining(v) =~= section_paths(v));
            }
            Some(it)
        } else {
            proof {
                assert(general_paths(v) =~= Seq::<ChangeSetComponentPath>::empty());
                assert(section_paths(v) =~= comps_from(v, 0));
            }
            match ComponentSectionsIter::new(section) {
                Some(inner) => {
                    let it = ChangeSetSectionIter {
                        state: ChangeSetSectionIterState::ComponentSection(inner),
                    };
                    proof {
                        assert(it.remaining(v) =~= section_paths(v));
                    }
                    Some(it)
                },
                None => None,
            }
        }
    }

    /// Yields the next entry's path in render order, advancing the
    /// cursor.
    pub fn next(&mut self, section: &ChangeSetSection) -> (r: Option<ChangeSetComponentPath>)
        requires
            old(self).wf(section@),
        ensures
            final(self).wf(section@),
            match r {
                Some(p) => old(self).remaining(section@).len() > 0 && p == old(self).remaining(
                    section@,
                ).first() && final(self).remaining(section@) == old(self).remaining(
                    section@,
                ).drop_first(),
                None => old(self).remaining(section@).len() == 0 && final(self).remaining(
                    section@,
                ).len() == 0,
            },
    {
        let ghost v = section@;
        let st: ChangeSetSectionIterState = self.state;
        match st {
            ChangeSetSectionIterState::General(e) => {
                if e < section.entries.len() {
                    self.state = ChangeSetSectionIterState::General(e + 1);
                    proof {
                        let g = general_paths(v);
                        assert(g.skip(e as int)[0] == g[e as int]);
                        assert(g.skip(e as int).drop_first() =~= g.skip(e as int + 1));
                        assert((g.skip(e as int) + comps_from(v, 0)).drop_first() =~= g.skip(
                            e as int + 1,
                        ) + comps_from(v, 0));
                    }
                    Some(ChangeSetComponentPath::General(e))
                } else {
                    proof {
                        let g = general_paths(v);
                        assert(g.skip(g.len() as int) =~= Seq::<ChangeSetComponentPath>::empty());
                        assert(old(self).remaining(v) =~= comps_from(v, 0));
                    }
                    match ComponentSectionsIter::new(section) {
                        Some(inner) => {
                            let mut inner2: ComponentSectionsIter = inner;
                            let r: Option<ChangeSetComponentPath> = inner2.next(section);
                            self.state = ChangeSetSectionIterState::ComponentSection(inner2);
                            r
                        },
                        None => None,
                    }
                }
            },
            ChangeSetSectionIterState::ComponentSection(inner) => {
                let mut inner2: ComponentSectionsIter = inner;
                let r: Option<ChangeSetComponentPath> = inner2.next(section);
                self.state = ChangeSetSectionIterState::ComponentSection(inner2);
                r
            },
        }
    }
}

} // verus!
