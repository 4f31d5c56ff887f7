//! A single entry in a set of changes, backed by one file.

use crate::changelog::config::SortEntriesBy;
use crate::changelog::parsing_utils::{
    digits_val, is_digit, is_digit_char, leading_digits_len, lemma_leading_digits_len_from_scan,
    trim_newlines,
};
use crate::error::Error;
use crate::input::EntryInput;
use crate::text::{lex_le, lex_le_str, trim_end_newlines_spec};
use vstd::prelude::*;

verus! {

/// The mathematical model of an [`Entry`].
#[verifier::ext_equal]
pub ghost struct EntryView {
    /// The entry's filename.
    pub filename: Seq<char>,
    /// The entry's numeric ID.
    pub id: int,
    /// The entry's text.
    pub details: Seq<char>,
}

/// A single entry in a set of changes.
#[derive(Debug, Clone)]
pub struct Entry {
    /// The filename this entry was loaded from, extension included.
    pub filename: String,
    /// The issue/pull request ID relating to this entry, parsed from the
    /// filename's leading run of decimal digits.
    pub id: u64,
    /// The content of the entry, trailing newlines trimmed.
    pub details: String,
}

impl View for Entry {
    type V = EntryView;

    open spec fn view(&self) -> EntryView {
        EntryView { filename: self.filename@, id: self.id as int, details: self.details@ }
    }
}

impl DeepView for Entry {
    type V = EntryView;

    open spec fn deep_view(&self) -> EntryView {
        self.view()
    }
}

/// Whether an entry ID can be read off the filename `name`: a non-empty
/// leading run of decimal digits, followed by at least one more character,
/// whose value fits a `u64`.
pub open spec fn entry_id_valid(name: Seq<char>) -> bool {
    let d = leading_digits_len(name);
    0 < d < name.len() && digits_val(name.take(d)) <= u64::MAX
}

/// The numeric value of the filename's leading run of decimal digits.
pub open spec fn entry_id_val(name: Seq<char>) -> int {
    digits_val(name.take(leading_digits_len(name)))
}

/// The error that reading an entry ID off the filename `name` produces,
/// when `entry_id_valid(name)` does not hold: a filename that is all
/// digits (or empty) carries no ID at all; otherwise the digit run itself
/// is unusable, because it is empty or its value overflows.
pub open spec fn entry_id_error_matches(name: Seq<char>, e: Error) -> bool {
    match e {
        Error::InvalidEntryId(t) => t@ == name && leading_digits_len(name) == name.len(),
        Error::InvalidEntryNumber(t) => {
            let d = leading_digits_len(name);
            t@ == name && d < name.len() && (d == 0 || digits_val(name.take(d)) > u64::MAX)
        },
        _ => false,
    }
}

/// The model an entry input parses to, meaningful when
/// `entry_id_valid(input.filename@)` holds.
pub open spec fn parse_entry_view(input: EntryInput) -> EntryView {
    EntryView {
        filename: input.filename@,
        id: entry_id_val(input.filename@),
        details: trim_end_newlines_spec(input.details@),
    }
}

proof fn lemma_digits_val_nonneg(s: Seq<char>)
    requires
        forall|j: int| 0 <= j < s.len() ==> is_digit_char(#[trigger] s[j]),
    ensures
        digits_val(s) >= 0,
    decreases s.len(),
{
    if s.len() > 0 {
        lemma_digits_val_nonneg(s.drop_last());
    }
}

proof fn lemma_digits_val_mono(s: Seq<char>, i: int, j: int)
    requires
        0 <= i <= j <= s.len(),
        forall|k: int| 0 <= k < s.len() ==> is_digit_char(#[trigger] s[k]),
    ensures
        digits_val(s.take(i)) <= digits_val(s.take(j)),
    decreases j - i,
{
    if i < j {
        lemma_digits_val_mono(s, i, j - 1);
        let t = s.take(j);
        assert(t.drop_last() =~= s.take(j - 1));
        assert(forall|k: int| 0 <= k < s.take(j - 1).len() ==> is_digit_char(
            #[trigger] s.take(j - 1)[k],
        ));
        lemma_digits_val_nonneg(s.take(j - 1));
        assert(digits_val(s.take(j)) == digits_val(s.take(j - 1)) * 10 + ((t.last() as u32) - 48));
        assert(is_digit_char(t.last()));
        assert(digits_val(s.take(j - 1)) * 10 >= digits_val(s.take(j - 1))) by (nonlinear_arith)
            requires
                digits_val(s.take(j - 1)) >= 0,
        ;
    }
}

/// The entry ID parsed from the filename's leading run of decimal digits:
/// e.g. `830-something.md` yields 830. A filename with no leading digit,
/// or nothing but digits, or a digit run too large for a `u64`, fails.
pub fn extract_entry_id(s: &str) -> (r: Result<u64, Error>)
    ensures
        match r {
            Ok(v) => entry_id_valid(s@) && v as int == entry_id_val(s@),
            Err(e) => !entry_id_valid(s@) && entry_id_error_matches(s@, e),
        },
{
    let n: usize = s.unicode_len();
    let mut d: usize = 0;
    while d < n && is_digit(s.get_char(d))
        invariant
            d <= n,
            n == s@.len(),
            forall|j: int| 0 <= j < d ==> is_digit_char(#[trigger] s@[j]),
        decreases n - d,
    {
        d = d + 1;
    }
    proof {
        lemma_leading_digits_len_from_scan(s@, d as int);
    }
    if d == n {
        return Err(Error::InvalidEntryId(s.to_owned()));
    }
    if d == 0 {
        return Err(Error::InvalidEntryNumber(s.to_owned()));
    }
    let mut value: u64 = 0;
    let mut i: usize = 0;
    proof {
        assert(s@.take(0) =~= Seq::<char>::empty());
    }
    while i < d
        invariant
            0 <= i <= d <= n,
            0 < d < n,
            leading_digits_len(s@) == d as int,
            n == s@.len(),
            forall|j: int| 0 <= j < d ==> is_digit_char(#[trigger] s@[j]),
            value as int == digits_val(s@.take(i as int)),
        decreases d - i,
    {
        let c: char = s.get_char(i);
        proof {
            assert(is_digit_char(s@[i as int]));
        }
        let dv: u64 = ((c as u32) - 48) as u64;
        proof {
            assert(s@.take(i as int + 1).drop_last() =~= s@.take(i as int));
            assert(digits_val(s@.take(i as int + 1)) == digits_val(s@.take(i as int)) * 10 + dv);
        }
        if value > (u64::MAX - dv) / 10 {
            proof {
                assert(digits_val(s@.take(i as int + 1)) > u64::MAX) by (nonlinear_arith)
                    requires
                        digits_val(s@.take(i as int + 1)) == digits_val(s@.take(i as int)) * 10
                            + dv,
                        value as int == digits_val(s@.take(i as int)),
                        value > (u64::MAX - dv) / 10,
                        0 <= dv <= 9,
                ;
                lemma_digits_val_mono(s@.take(d as int), i as int + 1, d as int);
                assert(s@.take(d as int).take(i as int + 1) =~= s@.take(i as int + 1));
                assert(s@.take(d as int).take(d as int) =~= s@.take(d as int));
            }
            return Err(Error::InvalidEntryNumber(s.to_owned()));
        }
        proof {
            assert(value * 10 + dv <= u64::MAX) by (nonlinear_arith)
                requires
                    value <= (u64::MAX - dv) / 10,
                    0 <= dv <= 9,
                    value >= 0,
            ;
        }
        value = value * 10 + dv;
        i = i + 1;
    }
    Ok(value)
}

impl Entry {
    /// Builds one entry from its raw input: the ID is parsed from the
    /// filename's leading digits and the contents lose their trailing
    /// newlines.
    pub fn from_input(input: &EntryInput) -> (r: Result<Entry, Error>)
        ensures
            match r {
                Ok(en) => entry_id_valid(input.filename@) && en@ == parse_entry_view(*input),
                Err(e) => !entry_id_valid(input.filename@) && entry_id_error_matches(
                    input.filename@,
                    e,
                ),
            },
    {
        let id: u64 = match extract_entry_id(input.filename.as_str()) {
            Ok(v) => v,
            Err(e) => {
                return Err(e);
            },
        };
        let details: String = trim_newlines(input.details.as_str()).to_owned();
        Ok(Entry { filename: input.filename.clone(), id, details })
    }
}

/// The ordering of entries within a section, under the configured key;
/// ties are broken by enumeration order, which the stable sort keeps.
pub open spec fn entry_leq(by: SortEntriesBy, a: EntryView, b: EntryView) -> bool {
    match by {
        SortEntriesBy::Id => a.id <= b.id,
        SortEntriesBy::EntryText => lex_le(a.details, b.details),
    }
}

/// Decides `entry_leq` on two entries.
pub fn entry_le(by: SortEntriesBy, a: &Entry, b: &Entry) -> (r: bool)
    ensures
        r == entry_leq(by, a@, b@),
{
    match by {
        SortEntriesBy::Id => a.id <= b.id,
        SortEntriesBy::EntryText => lex_le_str(a.details.as_str(), b.details.as_str()),
    }
}

/// The entry ordering of `entry_leq`, as a relation on entry models.
pub open spec fn entry_view_leq(by: SortEntriesBy) -> spec_fn(EntryView, EntryView) -> bool {
    |a: EntryView, b: EntryView| entry_leq(by, a, b)
}

/// Whether every entry input's filename carries a valid entry ID.
pub open spec fn all_entries_valid(inputs: Seq<EntryInput>) -> bool {
    forall|i: int| 0 <= i < inputs.len() ==> entry_id_valid(#[trigger] inputs[i].filename@)
}

/// The models of the given entry inputs, in input order.
pub open spec fn parsed_entry_views(inputs: Seq<EntryInput>) -> Seq<EntryView> {
    inputs.map_values(|inp: EntryInput| parse_entry_view(inp))
}

/// The models of the given entry inputs, sorted stably under the
/// configured key.
pub open spec fn sorted_entry_views(by: SortEntriesBy, inputs: Seq<EntryInput>) -> Seq<EntryView> {
    crate::sort::spec_sort_by(entry_view_leq(by), parsed_entry_views(inputs))
}

/// Whether `e` is the error that parsing the entry inputs produces: the
/// error of the first input whose filename carries no valid entry ID.
pub open spec fn entries_error_matches(inputs: Seq<EntryInput>, e: Error) -> bool {
    exists|i: int|
        0 <= i < inputs.len() && !entry_id_valid(#[trigger] inputs[i].filename@) && (forall|j: int|
            0 <= j < i ==> entry_id_valid(#[trigger] inputs[j].filename@))
            && entry_id_error_matches(inputs[i].filename@, e)
}

proof fn lemma_entries_error_witness(inputs: Seq<EntryInput>, k: int, e: Error)
    requires
        0 <= k < inputs.len(),
        forall|j: int| 0 <= j < k ==> entry_id_valid(#[trigger] inputs[j].filename@),
        !entry_id_valid(inputs[k].filename@),
        entry_id_error_matches(inputs[k].filename@, e),
    ensures
        !all_entries_valid(inputs),
        entries_error_matches(inputs, e),
{
    assert(0 <= k < inputs.len() && !entry_id_valid(#[trigger] inputs[k].filename@) && (forall|
        j: int,
    |
        0 <= j < k ==> entry_id_valid(#[trigger] inputs[j].filename@)) && entry_id_error_matches(
        inputs[k].filename@,
        e,
    ));
}

/// Sort stability, under the numeric-ID key: for every ID, the entries
/// carrying that ID appear in the sorted result exactly as they were
/// enumerated in the input.
pub proof fn lemma_entry_sort_stable_by_id(inputs: Seq<EntryInput>, k: int)
    ensures
        sorted_entry_views(SortEntriesBy::Id, inputs).filter(|e: EntryView| e.id == k)
            == parsed_entry_views(inputs).filter(|e: EntryView| e.id == k),
{
    let p = |e: EntryView| e.id == k;
    let leq = entry_view_leq(SortEntriesBy::Id);
    assert forall|a: EntryView, b: EntryView| (#[trigger] p(a)) && (#[trigger] p(b)) implies leq(
        a,
        b,
    ) by {}
    crate::sort::lemma_sort_by_stable(leq, parsed_entry_views(inputs), p);
}

/// Sort stability, under the entry-text key: for every text, the entries
/// carrying that text appear in the sorted result exactly as they were
/// enumerated in the input.
pub proof fn lemma_entry_sort_stable_by_text(inputs: Seq<EntryInput>, d: Seq<char>)
    ensures
        sorted_entry_views(SortEntriesBy::EntryText, inputs).filter(|e: EntryView| e.details == d)
            == parsed_entry_views(inputs).filter(|e: EntryView| e.details == d),
{
    let p = |e: EntryView| e.details == d;
    let leq = entry_view_leq(SortEntriesBy::EntryText);
    assert forall|a: EntryView, b: EntryView| (#[trigger] p(a)) && (#[trigger] p(b)) implies leq(
        a,
        b,
    ) by {
        crate::text::lemma_lex_le_refl(d);
    }
    crate::sort::lemma_sort_by_stable(leq, parsed_entry_views(inputs), p);
}

/// Parses every entry input and sorts the entries stably under the
/// configured key; the first unparseable filename aborts the whole read.
pub fn read_entries_sorted(by: SortEntriesBy, inputs: &Vec<EntryInput>) -> (r: Result<
    Vec<Entry>,
    Error,
>)
    ensures
        match r {
            Ok(v) => all_entries_valid(inputs@) && v.deep_view() == sorted_entry_views(
                by,
                inputs@,
            ),
            Err(e) => !all_entries_valid(inputs@) && entries_error_matches(inputs@, e),
        },
{
    let mut entries: Vec<Entry> = Vec::new();
    let n: usize = inputs.len();
    let mut k: usize = 0;
    proof {
        assert(entries@.map_values(|en: Entry| en@) =~= parsed_entry_views(inputs@.take(0)));
    }
    while k < n
        invariant
            0 <= k <= n,
            n == inputs@.len(),
            entries@.map_values(|en: Entry| en@) == parsed_entry_views(inputs@.take(k as int)),
            forall|j: int| 0 <= j < k ==> entry_id_valid(#[trigger] inputs@[j].filename@),
        decreases n - k,
    {
        match Entry::from_input(&inputs[k]) {
            Ok(en) => {
                entries.push(en);
                proof {
                    assert(inputs@.take(k as int + 1) =~= inputs@.take(k as int).push(
                        inputs@[k as int],
                    ));
                    assert(parsed_entry_views(inputs@.take(k as int + 1)) =~= parsed_entry_views(
                        inputs@.take(k as int),
                    ).push(parse_entry_view(inputs@[k as int])));
                    assert(entries@.map_values(|x: Entry| x@) =~= entries@.drop_last().map_values(
                        |x: Entry| x@,
                    ).push(en@));
                }
            },
            Err(e) => {
                proof {
                    lemma_entries_error_witness(inputs@, k as int, e);
                }
                return Err(e);
            },
        }
        k = k + 1;
    }
    proof {
        assert(inputs@.take(inputs@.len() as int) =~= inputs@);
    }
    let ghost leq: spec_fn(Entry, Entry) -> bool = |a: Entry, b: Entry| entry_leq(by, a@, b@);
    let cmp = |a: &Entry, b: &Entry| -> (r: bool)
        ensures
            r == entry_leq(by, a@, b@),
        { entry_le(by, a, b) };
    let ghost parsed: Seq<Entry> = entries@;
    let sorted: Vec<Entry> = crate::sort::sort_by(Ghost(leq), &cmp, entries);
    proof {
        let f = |en: Entry| en@;
        assert forall|a: Entry, b: Entry| #[trigger] leq(a, b) == entry_view_leq(by)(f(a), f(b)) by {
        }
        crate::sort::lemma_sort_by_map(leq, entry_view_leq(by), f, parsed);
        assert(parsed.map_values(f) == parsed_entry_views(inputs@));
        assert(sorted.deep_view() =~= sorted@.map_values(f));
    }
    Ok(sorted)
}

} // verus!
