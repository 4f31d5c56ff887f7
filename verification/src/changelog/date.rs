//! Calendar dates: the model a release date parses to, and the date order
//! the release sort can use. Parsing against a date format string is done
//! by the `chrono` crate.

use crate::changelog::version::{cmp_int, then_cmp, Cmp};
use chrono::Datelike;
use vstd::prelude::*;

verus! {

/// The mathematical model of a [`Date`].
#[verifier::ext_equal]
pub ghost struct DateView {
    pub year: int,
    pub month: int,
    pub day: int,
}

/// A calendar date, parsed from the first line of a release summary.
#[derive(Debug, Clone, Copy)]
pub struct Date {
    pub year: i32,
    pub month: u32,
    pub day: u32,
}

impl View for Date {
    type V = DateView;

    open spec fn view(&self) -> DateView {
        DateView { year: self.year as int, month: self.month as int, day: self.day as int }
    }
}

impl DeepView for Date {
    type V = DateView;

    open spec fn deep_view(&self) -> DateView {
        self.view()
    }
}

/// Calendar order on dates: by year, then month, then day.
pub open spec fn cmp_date(a: DateView, b: DateView) -> Cmp {
    then_cmp(cmp_int(a.year, b.year), then_cmp(cmp_int(a.month, b.month), cmp_int(a.day, b.day)))
}

/// What `chrono::NaiveDate::parse_from_str` yields on a given text and
/// format: the date's year, month and day, or nothing when the text does
/// not match the format.
pub uninterp spec fn date_of(line: Seq<char>, fmt: Seq<char>) -> Option<(i32, u32, u32)>;

/// The date model that `date_of(line, fmt)` describes, meaningful when it
/// is `Some`.
pub open spec fn date_view_of(line: Seq<char>, fmt: Seq<char>) -> DateView {
    let d = date_of(line, fmt)->Some_0;
    DateView { year: d.0 as int, month: d.1 as int, day: d.2 as int }
}

impl Date {
    /// Relies on `chrono::NaiveDate::parse_from_str`, which parses `line`
    /// against the date format string `fmt`, and on the `Datelike`
    /// accessors for the parsed date's year, month and day.
    #[verifier::external_body]
    pub(crate) fn parse(line: &str, fmt: &str) -> (r: Option<Date>)
        ensures
            match r {
                Some(d) => date_of(line@, fmt@) == Some((d.year, d.month, d.day)),
                None => date_of(line@, fmt@) is None,
            },
    {
        match chrono::NaiveDate::parse_from_str(line, fmt) {
            Ok(d) => Some(Date { year: d.year(), month: d.month(), day: d.day() }),
            Err(_) => None,
        }
    }
}

/// Three-way calendar comparison, per `cmp_date`.
pub fn date_cmp(a: &Date, b: &Date) -> (r: Cmp)
    ensures
        r == cmp_date(a@, b@),
{
    if a.year < b.year {
        Cmp::Less
    } else if a.year > b.year {
        Cmp::Greater
    } else if a.month < b.month {
        Cmp::Less
    } else if a.month > b.month {
        Cmp::Greater
    } else if a.day < b.day {
        Cmp::Less
    } else if a.day > b.day {
        Cmp::Greater
    } else {
        Cmp::Equal
    }
}

} // verus!
