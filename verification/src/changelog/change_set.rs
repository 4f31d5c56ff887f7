//! A set of changes, either associated with a release or not.

use crate::changelog::change_set_section::{
    render_section_spec, section_error_matches, section_input_valid, section_is_empty,
    section_paths, section_view_of, ChangeSetSection, ChangeSetSectionIter, ChangeSetSectionView,
};
use crate::changelog::entry_path::{
    ChangeSetComponentPath, ChangeSetSectionPath, EntryChangeSetPath,
};
use crate::changelog::component::Component;
use crate::changelog::config::Config;
use crate::changelog::parsing_utils::trim_newlines;
use crate::error::Error;
use crate::input::{ChangeSetInput, ChangeSetSectionInput};
use crate::text::{join_strings, join_with, lex_le, lex_le_str, trim_end_newlines_spec};
use vstd::prelude::*;

verus! {

/// The mathematical model of a [`ChangeSet`].
#[verifier::ext_equal]
pub ghost struct ChangeSetView {
    /// The change set's summary, if a summary file exists.
    pub maybe_summary: Option<Seq<char>>,
    /// The change set's sections, in their sorted order.
    pub sections: Seq<ChangeSetSectionView>,
}

/// A set of changes, either associated with a release or not.
#[derive(Debug, Clone)]
pub struct ChangeSet {
    /// An optional high-level summary of the set of changes.
    pub maybe_summary: Option<String>,
    /// The sections making up the change set.
    pub sections: Vec<ChangeSetSection>,
}

impl View for ChangeSet {
    type V = ChangeSetView;

    open spec fn view(&self) -> ChangeSetView {
        ChangeSetView {
            maybe_summary: self.maybe_summary.deep_view(),
            sections: self.sections.deep_view(),
        }
    }
}

impl DeepView for ChangeSet {
    type V = ChangeSetView;

    open spec fn deep_view(&self) -> ChangeSetView {
        self.view()
    }
}

/// Whether every section of the sequence is empty.
pub open spec fn sections_all_empty(sections: Seq<ChangeSetSectionView>) -> bool {
    forall|i: int| 0 <= i < sections.len() ==> section_is_empty(#[trigger] sections[i])
}

/// Whether a change set holds nothing: no or an empty summary, and only
/// empty sections.
pub open spec fn change_set_is_empty(v: ChangeSetView) -> bool {
    (match v.maybe_summary {
        Some(s) => s.len() == 0,
        None => true,
    }) && sections_all_empty(v.sections)
}

/// The ordering of sections within a change set: ascending title.
pub open spec fn section_view_leq() -> spec_fn(ChangeSetSectionView, ChangeSetSectionView) -> bool {
    |a: ChangeSetSectionView, b: ChangeSetSectionView| lex_le(a.title, b.title)
}

/// Whether every section input of the sequence can be loaded.
pub open spec fn all_sections_valid(
    table: Seq<(String, Component)>,
    inputs: Seq<ChangeSetSectionInput>,
) -> bool {
    forall|i: int| 0 <= i < inputs.len() ==> section_input_valid(table, #[trigger] inputs[i])
}

/// Whether `e` is the error that loading the section inputs produces: the
/// error of the first input that cannot be loaded.
pub open spec fn sections_error_matches(
    table: Seq<(String, Component)>,
    inputs: Seq<ChangeSetSectionInput>,
    e: Error,
) -> bool {
    exists|i: int|
        0 <= i < inputs.len() && !section_input_valid(table, #[trigger] inputs[i]) && (forall|
            j: int,
        |
            0 <= j < i ==> section_input_valid(table, #[trigger] inputs[j]))
            && section_error_matches(table, inputs[i], e)
}

/// The models of the given section inputs, sorted stably by title.
pub open spec fn sorted_section_views(
    table: Seq<(String, Component)>,
    by: crate::changelog::config::SortEntriesBy,
    inputs: Seq<ChangeSetSectionInput>,
) -> Seq<ChangeSetSectionView> {
    crate::sort::spec_sort_by(
        section_view_leq(),
        inputs.map_values(|si: ChangeSetSectionInput| section_view_of(table, by, si)),
    )
}

/// Whether a change set input can be loaded: every section input can be.
pub open spec fn change_set_input_valid(
    table: Seq<(String, Component)>,
    input: ChangeSetInput,
) -> bool {
    all_sections_valid(table, input.sections@)
}

/// The model that a change set input parses to, under the given resolver
/// table and entry ordering; meaningful when `change_set_input_valid`
/// holds of the input.
pub open spec fn change_set_view_of(
    table: Seq<(String, Component)>,
    by: crate::changelog::config::SortEntriesBy,
    input: ChangeSetInput,
) -> ChangeSetView {
    ChangeSetView {
        maybe_summary: match input.summary {
            Some(s) => Some(trim_end_newlines_spec(s@)),
            None => None,
        },
        sections: sorted_section_views(table, by, input.sections@),
    }
}

/// The rendered blocks of the non-empty sections of a change set, in
/// order; empty sections render nothing.
pub open spec fn section_blocks_spec(sections: Seq<ChangeSetSectionView>, cfg: Config) -> Seq<
    Seq<char>,
>
    decreases sections.len(),
{
    if sections.len() == 0 {
        Seq::empty()
    } else {
        section_blocks_spec(sections.drop_last(), cfg) + (if section_is_empty(sections.last()) {
            Seq::<Seq<char>>::empty()
        } else {
            seq![render_section_spec(sections.last(), cfg)]
        })
    }
}

/// The paragraphs of a change set: its summary, if any, then each
/// non-empty section's rendering.
pub open spec fn change_set_paragraphs(v: ChangeSetView, cfg: Config) -> Seq<Seq<char>> {
    (match v.maybe_summary {
        Some(s) => seq![s],
        None => Seq::<Seq<char>>::empty(),
    }) + section_blocks_spec(v.sections, cfg)
}

/// The rendering of a change set: its paragraphs joined with blank
/// lines.
pub open spec fn render_change_set_spec(v: ChangeSetView, cfg: Config) -> Seq<char> {
    join_with(change_set_paragraphs(v, cfg), seq!['\n', '\n'])
}

proof fn lemma_sections_error_witness(
    table: Seq<(String, Component)>,
    inputs: Seq<ChangeSetSectionInput>,
    k: int,
    e: Error,
)
    requires
        0 <= k < inputs.len(),
        forall|j: int| 0 <= j < k ==> section_input_valid(table, #[trigger] inputs[j]),
        !section_input_valid(table, inputs[k]),
        section_error_matches(table, inputs[k], e),
    ensures
        !all_sections_valid(table, inputs),
        sections_error_matches(table, inputs, e),
{
    assert(0 <= k < inputs.len() && !section_input_valid(table, #[trigger] inputs[k]) && (forall|
        j: int,
    |
        0 <= j < k ==> section_input_valid(table, #[trigger] inputs[j])) && section_error_matches(
        table,
        inputs[k],
        e,
    ));
}

impl ChangeSet {
    /// Returns true if this change set has no summary and no entries
    /// associated with it.
    pub fn is_empty(&self) -> (r: bool)
        ensures
            r == change_set_is_empty(self@),
    {
        let summary_empty: bool = match &self.maybe_summary {
            Some(s) => s.as_str().unicode_len() == 0,
            None => true,
        };
        summary_empty && self.are_sections_empty()
    }

    /// Returns whether or not all the sections are empty.
    pub fn are_sections_empty(&self) -> (r: bool)
        ensures
            r == sections_all_empty(self@.sections),
    {
        let n: usize = self.sections.len();
        let mut i: usize = 0;
        while i < n
            invariant
                i <= n,
                n == self.sections@.len(),
                self@.sections.len() == n,
                forall|j: int| 0 <= j < i ==> section_is_empty(#[trigger] self@.sections[j]),
            decreases n - i,
        {
            if !self.sections[i].is_empty() {
                proof {
                    assert(!section_is_empty(self@.sections[i as int]));
                }
                return false;
            }
            i = i + 1;
        }
        true
    }

    /// Builds one change set from its raw input: the summary loses its
    /// trailing newlines, and the sections are loaded and sorted
    /// alphabetically by title.
    pub fn from_input(
        config: &Config,
        input: &ChangeSetInput,
        components: &Vec<(String, Component)>,
    ) -> (r: Result<ChangeSet, Error>)
        ensures
            match r {
                Ok(cs) => change_set_input_valid(components@, *input) && cs@ == change_set_view_of(
                    components@,
                    config.change_set_sections.sort_entries_by,
                    *input,
                ),
                Err(e) => !change_set_input_valid(components@, *input) && sections_error_matches(
                    components@,
                    input.sections@,
                    e,
                ),
            },
    {
        let ghost by = config.change_set_sections.sort_entries_by;
        let ghost f = |si: ChangeSetSectionInput| section_view_of(components@, by, si);
        let maybe_summary: Option<String> = match &input.summary {
            Some(s) => Some(trim_newlines(s.as_str()).to_owned()),
            None => None,
        };
        let mut sections: Vec<ChangeSetSection> = Vec::new();
        let n: usize = input.sections.len();
        let mut k: usize = 0;
        proof {
            assert(sections@.map_values(|s: ChangeSetSection| s@) =~= input.sections@.take(
                0,
            ).map_values(f));
        }
        while k < n
            invariant
                0 <= k <= n,
                n == input.sections@.len(),
                by == config.change_set_sections.sort_entries_by,
                f == (|si: ChangeSetSectionInput| section_view_of(components@, by, si)),
                sections@.map_values(|s: ChangeSetSection| s@) == input.sections@.take(
                    k as int,
                ).map_values(f),
                forall|j: int|
                    0 <= j < k ==> section_input_valid(components@, #[trigger] input.sections@[j]),
            decreases n - k,
        {
            match ChangeSetSection::from_input(config, &input.sections[k], components) {
                Ok(s) => {
                    proof {
                        assert(s@ =~= section_view_of(components@, by, input.sections@[k as int]));
                    }
                    let ghost before = sections@;
                    sections.push(s);
                    proof {
                        assert(input.sections@.take(k as int + 1) =~= input.sections@.take(
                            k as int,
                        ).push(input.sections@[k as int]));
                        assert(input.sections@.take(k as int + 1).map_values(f)
                            =~= input.sections@.take(k as int).map_values(f).push(
                            f(input.sections@[k as int]),
                        ));
                        assert(sections@.map_values(|s2: ChangeSetSection| s2@)
                            =~= before.map_values(|s2: ChangeSetSection| s2@).push(
                            sections@.last()@,
                        ));
                    }
                },
                Err(e) => {
                    proof {
                        lemma_sections_error_witness(components@, input.sections@, k as int, e);
                    }
                    return Err(e);
                },
            }
            k = k + 1;
        }
        proof {
            assert(input.sections@.take(input.sections@.len() as int) =~= input.sections@);
        }
        let ghost leq: spec_fn(ChangeSetSection, ChangeSetSection) -> bool = |a: ChangeSetSection,
            b: ChangeSetSection|
            lex_le(a@.title, b@.title);
        let cmp = |a: &ChangeSetSection, b: &ChangeSetSection| -> (r: bool)
            ensures
                r == lex_le(a@.title, b@.title),
            { lex_le_str(a.title.as_str(), b.title.as_str()) };
        let ghost parsed: Seq<ChangeSetSection> = sections@;
        let sorted: Vec<ChangeSetSection> = crate::sort::sort_by(Ghost(leq), &cmp, sections);
        proof {
            let g = |s: ChangeSetSection| s@;
            assert forall|a: ChangeSetSection, b: ChangeSetSection| #[trigger]
                leq(a, b) == section_view_leq()(g(a), g(b)) by {}
            crate::sort::lemma_sort_by_map(leq, section_view_leq(), g, parsed);
            assert(parsed.map_values(g) == input.sections@.map_values(f));
        }
        let result = ChangeSet { maybe_summary, sections: sorted };
        proof {
            assert(result@.sections =~= sorted@.map_values(|s: ChangeSetSection| s@));
            assert(result@ =~= change_set_view_of(components@, by, *input));
        }
        Ok(result)
    }

    /// Renders this change set, per `render_change_set_spec`.
    pub fn render(&self, config: &Config) -> (r: String)
        ensures
            r@ == render_change_set_spec(self@, *config),
    {
        let mut paragraphs: Vec<String> = Vec::new();
        match &self.maybe_summary {
            Some(summary) => {
                paragraphs.push(summary.clone());
            },
            None => {},
        }
        let ghost head: Seq<Seq<char>> = paragraphs.deep_view();
        proof {
            assert(head =~= match self@.maybe_summary {
                Some(s) => seq![s],
                None => Seq::<Seq<char>>::empty(),
            });
            assert(section_blocks_spec(self@.sections.take(0), *config) =~= Seq::<
                Seq<char>,
            >::empty());
            assert(paragraphs.deep_view() =~= head + section_blocks_spec(
                self@.sections.take(0),
                *config,
            ));
        }
        let n: usize = self.sections.len();
        let mut i: usize = 0;
        while i < n
            invariant
                i <= n,
                n == self.sections@.len(),
                self@.sections.len() == n,
                paragraphs.deep_view() == head + section_blocks_spec(
                    self@.sections.take(i as int),
                    *config,
                ),
            decreases n - i,
        {
            proof {
                let dv = self@.sections;
                assert(dv.take(i as int + 1).drop_last() =~= dv.take(i as int));
                assert(dv.take(i as int + 1).last() == dv[i as int]);
                assert(dv[i as int] == self.sections@[i as int]@);
            }
            if !self.sections[i].is_empty() {
                let block: String = self.sections[i].render(config);
                let ghost before: Seq<Seq<char>> = paragraphs.deep_view();
                paragraphs.push(block);
                proof {
                    assert(paragraphs.deep_view() =~= before.push(paragraphs@.last()@));
                    assert(paragraphs.deep_view() =~= head + (section_blocks_spec(
                        self@.sections.take(i as int),
                        *config,
                    ) + seq![render_section_spec(self@.sections[i as int], *config)]));
                }
            }
            proof {
                assert(paragraphs.deep_view() =~= head + section_blocks_spec(
                    self@.sections.take(i as int + 1),
                    *config,
                ));
            }
            i = i + 1;
        }
        proof {
            assert(self@.sections.take(n as int) =~= self@.sections);
            reveal_strlit("\n\n");
            assert("\n\n"@ =~= seq!['\n', '\n']);
        }
        join_strings(&paragraphs, "\n\n")
    }
}

/// The paths of all entries of the section at position `si`, in render
/// order.
pub open spec fn change_set_paths_at(v: ChangeSetView, si: int) -> Seq<EntryChangeSetPath> {
    section_paths(v.sections[si]).map_values(
        |p: ChangeSetComponentPath|
            EntryChangeSetPath {
                section_path: ChangeSetSectionPath { section: si as usize, component_path: p },
            },
    )
}

/// The paths of all entries of the sections from position `si` on, in
/// render order.
pub open spec fn change_set_paths_from(v: ChangeSetView, si: int) -> Seq<EntryChangeSetPath>
    decreases v.sections.len() - si,
{
    if si < 0 || si >= v.sections.len() {
        Seq::empty()
    } else {
        change_set_paths_at(v, si) + change_set_paths_from(v, si + 1)
    }
}

/// The paths of all entries of a change set in render order.
pub open spec fn change_set_paths(v: ChangeSetView) -> Seq<EntryChangeSetPath> {
    change_set_paths_from(v, 0)
}

/// A cursor over all entries of one change set, section by section.
#[derive(Debug, Clone, Copy)]
pub struct ChangeSetIter {
    /// The position of the section the cursor is in.
    pub section_id: usize,
    /// The cursor within that section.
    pub section_iter: ChangeSetSectionIter,
}

impl ChangeSetIter {
    /// Whether the cursor points into the change set.
    pub open spec fn wf(self, v: ChangeSetView) -> bool {
        self.section_id < v.sections.len() ==> self.section_iter.wf(
            v.sections[self.section_id as int],
        )
    }

    /// The paths the cursor has yet to yield.
    pub open spec fn remaining(self, v: ChangeSetView) -> Seq<EntryChangeSetPath> {
        if self.section_id >= v.sections.len() {
            Seq::empty()
        } else {
            self.section_iter.remaining(v.sections[self.section_id as int]).map_values(
                |p: ChangeSetComponentPath|
                    EntryChangeSetPath {
                        section_path: ChangeSetSectionPath {
                            section: self.section_id,
                            component_path: p,
                        },
                    },
            ) + change_set_paths_from(v, self.section_id as int + 1)
        }
    }

    /// A cursor at the change set's first entry in render order, or
    /// nothing if the change set yields no entries; empty sections are
    /// skipped.
    pub fn new(change_set: &ChangeSet) -> (r: Option<ChangeSetIter>)
        ensures
            match r {
                Some(it) => it.wf(change_set@) && it.remaining(change_set@) == change_set_paths(
                    change_set@,
                ) && change_set_paths(change_set@).len() > 0,
                None => change_set_paths(change_set@).len() == 0,
            },
    {
        let ghost v = change_set@;
        let n: usize = change_set.sections.len();
        let mut si: usize = 0;
        while si < n
            invariant
                si <= n,
                n == v.sections.len(),
                v == change_set@,
                change_set_paths(v) == change_set_paths_from(v, si as int),
            decreases n - si,
        {
            proof {
                assert(v.sections[si as int] == change_set.sections@[si as int]@);
            }
            match ChangeSetSectionIter::new(&change_set.sections[si]) {
                Some(it) => {
                    let result = ChangeSetIter { section_id: si, section_iter: it };
                    proof {
                        assert(result.remaining(v) =~= change_set_paths_from(v, si as int));
                        assert(change_set_paths_at(v, si as int).len() == section_paths(
                            v.sections[si as int],
                        ).len());
                    }
                    return Some(result);
                },
                None => {
                    proof {
                        assert(change_set_paths_at(v, si as int) =~= Seq::<
                            EntryChangeSetPath,
                        >::empty());
                        assert(change_set_paths_from(v, si as int) =~= change_set_paths_from(
                            v,
                            si as int + 1,
                        ));
                    }
                },
            }
            si = si + 1;
        }
        None
    }

    /// Yields the next entry's path in render order, advancing the
    /// cursor past empty sections.
    pub fn next(&mut self, change_set: &ChangeSet) -> (r: Option<EntryChangeSetPath>)
        requires
            old(self).wf(change_set@),
        ensures
            final(self).wf(change_set@),
            match r {
                Some(p) => old(self).remaining(change_set@).len() > 0 && p == old(self).remaining(
                    change_set@,
                ).first() && final(self).remaining(change_set@) == old(self).remaining(
                    change_set@,
                ).drop_first(),
                None => old(self).remaining(change_set@).len() == 0 && final(self).remaining(
                    change_set@,
                ).len() == 0,
            },
    {
        let ghost v = change_set@;
        let n: usize = change_set.sections.len();
        if self.section_id >= n {
            return None;
        }
        let si: usize = self.section_id;
        proof {
            assert(v.sections[si as int] == change_set.sections@[si as int]@);
        }
        let ghost wrap = |p: ChangeSetComponentPath|
            EntryChangeSetPath {
                section_path: ChangeSetSectionPath { section: si, component_path: p },
            };
        let mut inner: ChangeSetSectionIter = self.section_iter;
        let ghost inner_rem = inner.remaining(v.sections[si as int]);
        match inner.next(&change_set.sections[si]) {
            Some(p) => {
                self.section_iter = inner;
                proof {
                    assert(inner_rem.map_values(wrap).first() == wrap(inner_rem.first()));
                    assert(inner_rem.map_values(wrap).drop_first() =~= inner_rem.drop_first(
                    ).map_values(wrap));
                    assert((inner_rem.map_values(wrap) + change_set_paths_from(v, si as int + 1))
                        .drop_first() =~= inner_rem.drop_first().map_values(wrap)
                        + change_set_paths_from(v, si as int + 1));
                }
                return Some(
                    EntryChangeSetPath {
                        section_path: ChangeSetSectionPath { section: si, component_path: p },
                    },
                );
            },
            None => {
                proof {
                    assert(inner_rem.map_values(wrap) =~= Seq::<EntryChangeSetPath>::empty());
                    assert(old(self).remaining(v) =~= change_set_paths_from(v, si as int + 1));
                }
                let mut sj: usize = si + 1;
                while sj < n
                    invariant
                        si < sj <= n,
                        n == v.sections.len(),
                        v == change_set@,
                        old(self).remaining(v) == change_set_paths_from(v, si as int + 1),
                        change_set_paths_from(v, si as int + 1) == change_set_paths_from(
                            v,
                            sj as int,
                        ),
                    decreases n - sj,
                {
                    proof {
                        assert(v.sections[sj as int] == change_set.sections@[sj as int]@);
                    }
                    match ChangeSetSectionIter::new(&change_set.sections[sj]) {
                        Some(fresh) => {
                            let mut fresh2: ChangeSetSectionIter = fresh;
                            let ghost fresh_rem = fresh2.remaining(v.sections[sj as int]);
                            let r: Option<ChangeSetComponentPath> = fresh2.next(
                                &change_set.sections[sj],
                            );
                            self.section_id = sj;
                            self.section_iter = fresh2;
                            let ghost wrap2 = |p: ChangeSetComponentPath|
                                EntryChangeSetPath {
                                    section_path: ChangeSetSectionPath {
                                        section: sj,
                                        component_path: p,
                                    },
                                };
                            match r {
                                Some(p) => {
                                    proof {
                                        assert(change_set_paths_at(v, sj as int) =~= fresh_rem
                                            .map_values(wrap2));
                                        assert(fresh_rem.map_values(wrap2).first() == wrap2(
                                            fresh_rem.first(),
                                        ));
                                        assert(fresh_rem.map_values(wrap2).drop_first()
                                            =~= fresh_rem.drop_first().map_values(wrap2));
                                        assert((fresh_rem.map_values(wrap2)
                                            + change_set_paths_from(v, sj as int + 1)).drop_first()
                                            =~= fresh_rem.drop_first().map_values(wrap2)
                                            + change_set_paths_from(v, sj as int + 1));
                                        assert(change_set_paths_from(v, sj as int)
                                            =~= fresh_rem.map_values(wrap2)
                                            + change_set_paths_from(v, sj as int + 1));
                                    }
                                    return Some(
                                        EntryChangeSetPath {
                                            section_path: ChangeSetSectionPath {
                                                section: sj,
                                                component_path: p,
                                            },
                                        },
                                    );
                                },
                                None => {
                                    // A fresh cursor over a section with
                                    // paths always yields one.
                                    proof {
                                        assert(fresh_rem.len() > 0);
                                    }
                                    return None;
                                },
                            }
                        },
                        None => {
                            proof {
                                assert(change_set_paths_at(v, sj as int) =~= Seq::<
                                    EntryChangeSetPath,
                                >::empty());
                                assert(change_set_paths_from(v, sj as int)
                                    =~= change_set_paths_from(v, sj as int + 1));
                            }
                        },
                    }
                    sj = sj + 1;
                }
                self.section_id = n;
                return None;
            },
        }
    }
}

} // verus!
