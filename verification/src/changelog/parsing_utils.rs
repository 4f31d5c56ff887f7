//! Utilities to assist in parsing changelogs.

use crate::error::Error;
use crate::text::{is_newline_char, trim_end_newlines_spec};
use vstd::prelude::*;

verus! {

/// Whether `c` is a decimal digit.
pub open spec fn is_digit_char(c: char) -> bool {
    '0' <= c && c <= '9'
}

/// The number of leading decimal digits of `s`.
pub open spec fn leading_digits_len(s: Seq<char>) -> int
    decreases s.len(),
{
    if s.len() == 0 || !is_digit_char(s.first()) {
        0
    } else {
        1 + leading_digits_len(s.drop_first())
    }
}

/// The index of the first decimal digit of `s`, or `s.len()` if there is
/// none.
pub open spec fn first_digit_index(s: Seq<char>) -> int
    decreases s.len(),
{
    if s.len() == 0 {
        0
    } else if is_digit_char(s.first()) {
        0
    } else {
        1 + first_digit_index(s.drop_first())
    }
}

pub proof fn lemma_leading_digits_len_from_scan(s: Seq<char>, i: int)
    requires
        0 <= i <= s.len(),
        forall|j: int| 0 <= j < i ==> is_digit_char(#[trigger] s[j]),
        i < s.len() ==> !is_digit_char(s[i]),
    ensures
        leading_digits_len(s) == i,
    decreases s.len(),
{
    if s.len() == 0 {
    } else if i == 0 {
    } else {
        assert(is_digit_char(s[0]));
        assert forall|j: int| 0 <= j < i - 1 implies is_digit_char(#[trigger] s.drop_first()[j]) by {
            assert(s.drop_first()[j] == s[j + 1]);
        }
        assert(i - 1 < s.drop_first().len() ==> !is_digit_char(s.drop_first()[i - 1]));
        lemma_leading_digits_len_from_scan(s.drop_first(), i - 1);
    }
}

pub proof fn lemma_first_digit_index_from_scan(s: Seq<char>, i: int)
    requires
        0 <= i <= s.len(),
        forall|j: int| 0 <= j < i ==> !is_digit_char(#[trigger] s[j]),
        i < s.len() ==> is_digit_char(s[i]),
    ensures
        first_digit_index(s) == i,
    decreases s.len(),
{
    if s.len() == 0 {
    } else if i == 0 {
    } else {
        assert(!is_digit_char(s[0]));
        assert forall|j: int| 0 <= j < i - 1 implies !is_digit_char(
            #[trigger] s.drop_first()[j],
        ) by {
            assert(s.drop_first()[j] == s[j + 1]);
        }
        assert(i - 1 < s.drop_first().len() ==> is_digit_char(s.drop_first()[i - 1]));
        lemma_first_digit_index_from_scan(s.drop_first(), i - 1);
    }
}

/// The numeric value of a sequence of decimal digits, most significant
/// first.
pub open spec fn digits_val(s: Seq<char>) -> int
    decreases s.len(),
{
    if s.len() == 0 {
        0
    } else {
        digits_val(s.drop_last()) * 10 + ((s.last() as u32) - 48)
    }
}

fn is_nl(c: char) -> (r: bool)
    ensures
        r == is_newline_char(c),
{
    c == '\n' || c == '\r'
}

/// Whether `c` is a decimal digit.
pub fn is_digit(c: char) -> (r: bool)
    ensures
        r == is_digit_char(c),
{
    '0' <= c && c <= '9'
}

/// `s` with trailing line feeds and carriage returns removed.
pub fn trim_newlines(s: &str) -> (r: &str)
    ensures
        r@ == trim_end_newlines_spec(s@),
{
    let n: usize = s.unicode_len();
    let mut hi: usize = n;
    proof {
        assert(s@.subrange(0, n as int) =~= s@);
    }
    while hi > 0 && is_nl(s.get_char(hi - 1))
        invariant
            hi <= n,
            n == s@.len(),
            trim_end_newlines_spec(s@) == trim_end_newlines_spec(s@.subrange(0, hi as int)),
        decreases hi,
    {
        proof {
            let t = s@.subrange(0, hi as int);
            assert(is_newline_char(t.last()));
            assert(t.drop_last() =~= s@.subrange(0, hi as int - 1));
        }
        hi = hi - 1;
    }
    proof {
        let t = s@.subrange(0, hi as int);
        assert(trim_end_newlines_spec(t) == t);
    }
    s.substring_char(0, hi)
}

/// The version substring of a release directory name: everything from the
/// first digit on. A name with no digit carries no version.
pub fn extract_release_version(s: &str) -> (r: Result<&str, Error>)
    ensures
        match r {
            Ok(v) => first_digit_index(s@) < s@.len() && v@ == s@.skip(first_digit_index(s@)),
            Err(e) => first_digit_index(s@) == s@.len() && (match e {
                Error::CannotExtractVersion(t) => t@ == s@,
                _ => false,
            }),
        },
{
    let n: usize = s.unicode_len();
    let mut i: usize = 0;
    while i < n && !is_digit(s.get_char(i))
        invariant
            i <= n,
            n == s@.len(),
            forall|j: int| 0 <= j < i ==> !is_digit_char(#[trigger] s@[j]),
        decreases n - i,
    {
        i = i + 1;
    }
    proof {
        lemma_first_digit_index_from_scan(s@, i as int);
    }
    if i == n {
        Err(Error::CannotExtractVersion(s.to_owned()))
    } else {
        let v: &str = s.substring_char(i, n);
        proof {
            assert(v@ =~= s@.skip(i as int));
        }
        Ok(v)
    }
}

} // verus!
