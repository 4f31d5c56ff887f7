//! A section of entries related to a specific component/submodule/package.

use crate::changelog::change_set_section::{
    indent_entries, indent_entries_spec, overflow_indent_of,
};
use crate::changelog::component::Component;
use crate::changelog::config::{Config, SortEntriesBy};
use crate::changelog::entry::{
    all_entries_valid, entries_error_matches, read_entries_sorted, sorted_entry_views, Entry,
    EntryView,
};
use crate::error::Error;
use crate::input::ComponentSectionInput;
use crate::text::{join_strings, join_with, str_eq};
use vstd::prelude::*;

verus! {

/// The mathematical model of a [`ComponentSection`].
#[verifier::ext_equal]
pub ghost struct ComponentSectionView {
    /// The component's ID: the directory name.
    pub id: Seq<char>,
    /// The component's display name.
    pub name: Seq<char>,
    /// The component's relative path, if known.
    pub maybe_path: Option<Seq<char>>,
    /// The component's entries, in their sorted order.
    pub entries: Seq<EntryView>,
}

/// A section of entries related to a specific component/submodule/package.
#[derive(Debug, Clone)]
pub struct ComponentSection {
    /// The ID of the component.
    pub id: String,
    /// The name of the component.
    pub name: String,
    /// The path to the component, from the root of the project, if any.
    /// Pre-computed and ready to render.
    pub maybe_path: Option<String>,
    /// The entries associated with the component.
    pub entries: Vec<Entry>,
}

impl View for ComponentSection {
    type V = ComponentSectionView;

    open spec fn view(&self) -> ComponentSectionView {
        ComponentSectionView {
            id: self.id@,
            name: self.name@,
            maybe_path: self.maybe_path.deep_view(),
            entries: self.entries.deep_view(),
        }
    }
}

impl DeepView for ComponentSection {
    type V = ComponentSectionView;

    open spec fn deep_view(&self) -> ComponentSectionView {
        self.view()
    }
}

/// Whether a component section holds no entries.
pub open spec fn component_section_is_empty(v: ComponentSectionView) -> bool {
    v.entries.len() == 0
}

/// The component that a resolver table associates with `id`: the first
/// pair whose key is `id`, if any.
pub open spec fn lookup_component(table: Seq<(String, Component)>, id: Seq<char>) -> Option<
    Component,
>
    decreases table.len(),
{
    if table.len() == 0 {
        None
    } else if table.first().0@ == id {
        Some(table.first().1)
    } else {
        lookup_component(table.drop_first(), id)
    }
}

fn lookup_component_exec(table: &Vec<(String, Component)>, id: &str) -> (r: Option<Component>)
    ensures
        r is Some == lookup_component(table@, id@) is Some,
        r is Some ==> r->Some_0@ == lookup_component(table@, id@)->Some_0@,
{
    let n: usize = table.len();
    let mut i: usize = 0;
    proof {
        assert(table@.skip(0) =~= table@);
    }
    while i < n
        invariant
            i <= n,
            n == table@.len(),
            lookup_component(table@, id@) == lookup_component(table@.skip(i as int), id@),
        decreases n - i,
    {
        proof {
            let t = table@.skip(i as int);
            assert(t.first() == table@[i as int]);
            assert(t.drop_first() =~= table@.skip(i as int + 1));
        }
        if str_eq(table[i].0.as_str(), id) {
            let c: &Component = &table[i].1;
            let maybe_path: Option<String> = match &c.maybe_path {
                Some(p) => Some(p.clone()),
                None => None,
            };
            return Some(Component { name: c.name.clone(), maybe_path });
        }
        i = i + 1;
    }
    None
}

/// The name a component section renders under: a Markdown hyperlink
/// `[name](path)` when a path is known, else the plain name.
pub open spec fn component_name_spec(v: ComponentSectionView) -> Seq<char> {
    match v.maybe_path {
        Some(p) => seq!['['] + v.name + seq![']', '('] + p + seq![')'],
        None => v.name,
    }
}

/// The rendering of a component section: a bulleted name line, then the
/// component's entries, indented.
pub open spec fn render_component_section_spec(v: ComponentSectionView, cfg: Config) -> Seq<char> {
    let ind = cfg.components.entry_indent as int;
    let lines = seq![seq![cfg.bullet_style.char_spec(), ' '] + component_name_spec(v)]
        + indent_entries_spec(v.entries, ind, overflow_indent_of(ind));
    join_with(lines, seq!['\n'])
}

impl ComponentSection {
    /// Returns whether or not this section is empty (it's considered
    /// empty when it has no entries).
    pub fn is_empty(&self) -> (r: bool)
        ensures
            r == component_section_is_empty(self@),
    {
        self.entries.len() == 0
    }

    /// Builds one component section from its raw input: the component ID
    /// must resolve through the given resolver table, and the entries are
    /// parsed and sorted.
    pub fn from_input(
        config: &Config,
        input: &ComponentSectionInput,
        components: &Vec<(String, Component)>,
    ) -> (r: Result<ComponentSection, Error>)
        ensures
            match r {
                Ok(cs) => {
                    &&& lookup_component(components@, input.id@) is Some
                    &&& all_entries_valid(input.entries@)
                    &&& cs@.id == input.id@
                    &&& cs@.name == lookup_component(components@, input.id@)->Some_0@.name
                    &&& cs@.maybe_path == lookup_component(
                        components@,
                        input.id@,
                    )->Some_0@.maybe_path
                    &&& cs@.entries == sorted_entry_views(
                        config.change_set_sections.sort_entries_by,
                        input.entries@,
                    )
                },
                Err(e) => {
                    if lookup_component(components@, input.id@) is None {
                        &&& e matches Error::ComponentNotDefined(t)
                        &&& t@ == input.id@
                    } else {
                        &&& !all_entries_valid(input.entries@)
                        &&& entries_error_matches(input.entries@, e)
                    }
                },
            },
    {
        let component: Component = match lookup_component_exec(components, input.id.as_str()) {
            Some(c) => c,
            None => {
                return Err(Error::ComponentNotDefined(input.id.clone()));
            },
        };
        let entries: Vec<Entry> = match read_entries_sorted(
            config.change_set_sections.sort_entries_by,
            &input.entries,
        ) {
            Ok(v) => v,
            Err(e) => {
                return Err(e);
            },
        };
        Ok(
            ComponentSection {
                id: input.id.clone(),
                name: component.name,
                maybe_path: component.maybe_path,
                entries,
            },
        )
    }

    /// Renders this component section, per `render_component_section_spec`.
    pub fn render(&self, config: &Config) -> (r: String)
        ensures
            r@ == render_component_section_spec(self@, *config),
    {
        let ind: u8 = config.components.entry_indent;
        let ov: u8 = if ind <= 253 {
            ind + 2
        } else {
            255
        };
        let mut entries_lines: Vec<String> = indent_entries(&self.entries, ind, ov);
        let name: String = match &self.maybe_path {
            Some(p) => {
                let mut s: String = String::new();
                s.append("[");
                s.append(self.name.as_str());
                s.append("](");
                s.append(p.as_str());
                s.append(")");
                proof {
                    reveal_strlit("[");
                    reveal_strlit("](");
                    reveal_strlit(")");
                    assert("["@ =~= seq!['[']);
                    assert("]("@ =~= seq![']', '(']);
                    assert(")"@ =~= seq![')']);
                }
                s
            },
            None => self.name.clone(),
        };
        let mut header: String = String::new();
        header.append(config.bullet_style.as_str());
        crate::text::push_char(&mut header, ' ');
        header.append(name.as_str());
        proof {
            assert(header@ =~= seq![config.bullet_style.char_spec(), ' '] + component_name_spec(
                self@,
            ));
        }
        let mut lines: Vec<String> = Vec::new();
        lines.push(header);
        let ghost header_view: Seq<char> = lines@[0]@;
        let ghost entry_lines_view: Seq<Seq<char>> = entries_lines.deep_view();
        lines.append(&mut entries_lines);
        proof {
            assert(lines.deep_view() =~= seq![header_view] + entry_lines_view);
            reveal_strlit("\n");
            assert("\n"@ =~= seq!['\n']);
        }
        join_strings(&lines, "\n")
    }
}

/// A cursor over the entries of one component section.
#[derive(Debug, Clone, Copy)]
pub struct ComponentSectionIter {
    /// The position of the next entry to yield.
    pub entry_id: usize,
}

impl ComponentSectionIter {
    /// Whether the cursor points into (or just past) the section's
    /// entries.
    pub open spec fn wf(self, v: ComponentSectionView) -> bool {
        self.entry_id <= v.entries.len()
    }

    /// A cursor over the section's entries, or nothing if the section is
    /// empty.
    pub fn new(section: &ComponentSection) -> (r: Option<ComponentSectionIter>)
        ensures
            match r {
                Some(it) => it.entry_id == 0 && section@.entries.len() > 0,
                None => section@.entries.len() == 0,
            },
    {
        if section.is_empty() {
            None
        } else {
            Some(ComponentSectionIter { entry_id: 0 })
        }
    }

    /// Yields the next entry's position, advancing the cursor.
    pub fn next(&mut self, section: &ComponentSection) -> (r: Option<usize>)
        requires
            old(self).wf(section@),
        ensures
            final(self).wf(section@),
            match r {
                Some(e) => old(self).entry_id < section@.entries.len() && e == old(self).entry_id
                    && final(self).entry_id == old(self).entry_id + 1,
                None => old(self).entry_id == section@.entries.len() && final(self).entry_id == old(
                    self,
                ).entry_id,
            },
    {
        if self.entry_id < section.entries.len() {
            let e: usize = self.entry_id;
            self.entry_id = e + 1;
            Some(e)
        } else {
            None
        }
    }
}

/// The model that a component section input parses to, under the given
/// resolver table and entry ordering; meaningful when
/// `component_input_valid` holds of the input.
pub open spec fn component_view_of(
    table: Seq<(String, Component)>,
    by: SortEntriesBy,
    input: ComponentSectionInput,
) -> ComponentSectionView {
    ComponentSectionView {
        id: input.id@,
        name: lookup_component(table, input.id@)->Some_0@.name,
        maybe_path: lookup_component(table, input.id@)->Some_0@.maybe_path,
        entries: sorted_entry_views(by, input.entries@),
    }
}

/// Whether a component section input can be loaded: its ID resolves and
/// every entry filename carries a valid ID.
pub open spec fn component_input_valid(
    table: Seq<(String, Component)>,
    input: ComponentSectionInput,
) -> bool {
    lookup_component(table, input.id@) is Some && all_entries_valid(input.entries@)
}

/// Whether every component section input can be loaded.
pub open spec fn all_components_valid(
    table: Seq<(String, Component)>,
    inputs: Seq<ComponentSectionInput>,
) -> bool {
    forall|i: int| 0 <= i < inputs.len() ==> component_input_valid(table, #[trigger] inputs[i])
}

/// Whether `e` is the error that loading one component section input
/// produces: an unresolvable ID, else the entry error.
pub open spec fn component_error_matches(
    table: Seq<(String, Component)>,
    input: ComponentSectionInput,
    e: Error,
) -> bool {
    if lookup_component(table, input.id@) is None {
        match e {
            Error::ComponentNotDefined(t) => t@ == input.id@,
            _ => false,
        }
    } else {
        entries_error_matches(input.entries@, e)
    }
}

/// Whether `e` is the error that loading the component section inputs
/// produces: the error of the first input that cannot be loaded.
pub open spec fn components_error_matches(
    table: Seq<(String, Component)>,
    inputs: Seq<ComponentSectionInput>,
    e: Error,
) -> bool {
    exists|i: int|
        0 <= i < inputs.len() && !component_input_valid(table, #[trigger] inputs[i]) && (forall|
            j: int,
        |
            0 <= j < i ==> component_input_valid(table, #[trigger] inputs[j]))
            && component_error_matches(table, inputs[i], e)
}

/// The ordering of component sections within a section: ascending
/// component ID.
pub open spec fn component_view_leq() -> spec_fn(ComponentSectionView, ComponentSectionView) -> bool {
    |a: ComponentSectionView, b: ComponentSectionView| crate::text::lex_le(a.id, b.id)
}

/// The models of the given component section inputs, sorted stably by
/// component ID.
pub open spec fn sorted_component_views(
    table: Seq<(String, Component)>,
    by: SortEntriesBy,
    inputs: Seq<ComponentSectionInput>,
) -> Seq<ComponentSectionView> {
    crate::sort::spec_sort_by(
        component_view_leq(),
        inputs.map_values(|ci: ComponentSectionInput| component_view_of(table, by, ci)),
    )
}

proof fn lemma_components_error_witness(
    table: Seq<(String, Component)>,
    inputs: Seq<ComponentSectionInput>,
    k: int,
    e: Error,
)
    requires
        0 <= k < inputs.len(),
        forall|j: int| 0 <= j < k ==> component_input_valid(table, #[trigger] inputs[j]),
        !component_input_valid(table, inputs[k]),
        component_error_matches(table, inputs[k], e),
    ensures
        !all_components_valid(table, inputs),
        components_error_matches(table, inputs, e),
{
    assert(0 <= k < inputs.len() && !component_input_valid(table, #[trigger] inputs[k]) && (forall|
        j: int,
    |
        0 <= j < k ==> component_input_valid(table, #[trigger] inputs[j]))
        && component_error_matches(table, inputs[k], e));
}

/// Loads every component section input under the resolver table and sorts
/// the component sections stably by ID; the first failure aborts the
/// whole read.
pub fn read_components_sorted(
    config: &Config,
    inputs: &Vec<ComponentSectionInput>,
    components: &Vec<(String, Component)>,
) -> (r: Result<Vec<ComponentSection>, Error>)
    ensures
        match r {
            Ok(v) => all_components_valid(components@, inputs@) && v.deep_view()
                == sorted_component_views(
                components@,
                config.change_set_sections.sort_entries_by,
                inputs@,
            ),
            Err(e) => !all_components_valid(components@, inputs@) && components_error_matches(
                components@,
                inputs@,
                e,
            ),
        },
{
    let ghost by = config.change_set_sections.sort_entries_by;
    let ghost f = |ci: ComponentSectionInput| component_view_of(components@, by, ci);
    let mut sections: Vec<ComponentSection> = Vec::new();
    let n: usize = inputs.len();
    let mut k: usize = 0;
    proof {
        assert(sections@.map_values(|cs: ComponentSection| cs@) =~= inputs@.take(0).map_values(f));
    }
    while k < n
        invariant
            0 <= k <= n,
            n == inputs@.len(),
            by == config.change_set_sections.sort_entries_by,
            f == (|ci: ComponentSectionInput| component_view_of(components@, by, ci)),
            sections@.map_values(|cs: ComponentSection| cs@) == inputs@.take(k as int).map_values(
                f,
            ),
            forall|j: int| 0 <= j < k ==> component_input_valid(components@, #[trigger] inputs@[j]),
        decreases n - k,
    {
        match ComponentSection::from_input(config, &inputs[k], components) {
            Ok(cs) => {
                proof {
                    assert(cs@ =~= component_view_of(components@, by, inputs@[k as int]));
                }
                sections.push(cs);
                proof {
                    assert(inputs@.take(k as int + 1) =~= inputs@.take(k as int).push(
                        inputs@[k as int],
                    ));
                    assert(inputs@.take(k as int + 1).map_values(f) =~= inputs@.take(
                        k as int,
                    ).map_values(f).push(f(inputs@[k as int])));
                    assert(sections@.map_values(|cs2: ComponentSection| cs2@)
                        =~= sections@.drop_last().map_values(|cs2: ComponentSection| cs2@).push(
                        sections@.last()@,
                    ));
                }
            },
            Err(e) => {
                proof {
                    lemma_components_error_witness(components@, inputs@, k as int, e);
                }
                return Err(e);
            },
        }
        k = k + 1;
    }
    proof {
        assert(inputs@.take(inputs@.len() as int) =~= inputs@);
    }
    let ghost leq: spec_fn(ComponentSection, ComponentSection) -> bool = |a: ComponentSection,
        b: ComponentSection|
        crate::text::lex_le(a@.id, b@.id);
    let cmp = |a: &ComponentSection, b: &ComponentSection| -> (r: bool)
        ensures
            r == crate::text::lex_le(a@.id, b@.id),
        { crate::text::lex_le_str(a.id.as_str(), b.id.as_str()) };
    let ghost parsed: Seq<ComponentSection> = sections@;
    let sorted: Vec<ComponentSection> = crate::sort::sort_by(Ghost(leq), &cmp, sections);
    proof {
        let g = |cs: ComponentSection| cs@;
        assert forall|a: ComponentSection, b: ComponentSection| #[trigger]
            leq(a, b) == component_view_leq()(g(a), g(b)) by {}
        crate::sort::lemma_sort_by_map(leq, component_view_leq(), g, parsed);
        assert(parsed.map_values(g) == inputs@.map_values(f));
        assert(sorted.deep_view() =~= sorted@.map_values(g));
    }
    Ok(sorted)
}

} // verus!
