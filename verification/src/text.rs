//! Verified text utilities: trimming, line splitting, joining, repetition
//! and lexicographic comparison, each specified over `Seq<char>` views,
//! together with the trusted upper-casing wrapper.

use vstd::prelude::*;

verus! {

/// Characters that count as blank space at the edges of a line: the
/// Unicode white-space characters, as `char::is_whitespace` knows them.
pub open spec fn is_blank_char(c: char) -> bool {
    ||| c == '\u{0009}'
    ||| c == '\u{000A}'
    ||| c == '\u{000B}'
    ||| c == '\u{000C}'
    ||| c == '\u{000D}'
    ||| c == ' '
    ||| c == '\u{0085}'
    ||| c == '\u{00A0}'
    ||| c == '\u{1680}'
    ||| ('\u{2000}' <= c && c <= '\u{200A}')
    ||| c == '\u{2028}'
    ||| c == '\u{2029}'
    ||| c == '\u{202F}'
    ||| c == '\u{205F}'
    ||| c == '\u{3000}'
}

/// Characters trimmed from the tail of a loaded file: line feeds and
/// carriage returns.
pub open spec fn is_newline_char(c: char) -> bool {
    c == '\n' || c == '\r'
}

/// `s` with every trailing line feed or carriage return removed.
pub open spec fn trim_end_newlines_spec(s: Seq<char>) -> Seq<char>
    decreases s.len(),
{
    if s.len() > 0 && is_newline_char(s.last()) {
        trim_end_newlines_spec(s.drop_last())
    } else {
        s
    }
}

/// `s` with every leading blank character removed.
pub open spec fn trim_start_spec(s: Seq<char>) -> Seq<char>
    decreases s.len(),
{
    if s.len() > 0 && is_blank_char(s.first()) {
        trim_start_spec(s.drop_first())
    } else {
        s
    }
}

/// `s` with every trailing blank character removed.
pub open spec fn trim_end_spec(s: Seq<char>) -> Seq<char>
    decreases s.len(),
{
    if s.len() > 0 && is_blank_char(s.last()) {
        trim_end_spec(s.drop_last())
    } else {
        s
    }
}

/// `s` with blank characters removed from both ends.
pub open spec fn trim_spec(s: Seq<char>) -> Seq<char> {
    trim_end_spec(trim_start_spec(s))
}

/// The character `c` repeated `n` times.
pub open spec fn repeat_char(c: char, n: nat) -> Seq<char>
    decreases n,
{
    if n == 0 {
        Seq::empty()
    } else {
        repeat_char(c, (n - 1) as nat).push(c)
    }
}

/// The parts of `s`, split on the separator `sep`. A text without the
/// separator is one part; every separator ends a part, so a trailing
/// separator yields a final empty part.
pub open spec fn split_on_spec(s: Seq<char>, sep: char) -> Seq<Seq<char>>
    decreases s.len(),
{
    if s.len() == 0 {
        seq![Seq::<char>::empty()]
    } else if s.first() == sep {
        seq![Seq::<char>::empty()] + split_on_spec(s.drop_first(), sep)
    } else {
        let rest = split_on_spec(s.drop_first(), sep);
        seq![seq![s.first()] + rest.first()] + rest.drop_first()
    }
}

/// The lines of `s`, split on `'\n'`.
pub open spec fn split_lines_spec(s: Seq<char>) -> Seq<Seq<char>> {
    split_on_spec(s, '\n')
}

/// The parts joined with `sep` between consecutive parts.
pub open spec fn join_with(parts: Seq<Seq<char>>, sep: Seq<char>) -> Seq<char>
    decreases parts.len(),
{
    if parts.len() == 0 {
        Seq::empty()
    } else if parts.len() == 1 {
        parts.first()
    } else {
        parts.first() + sep + join_with(parts.drop_first(), sep)
    }
}

/// Lexicographic order on character sequences: `a` is no greater than `b`.
/// Characters compare by code point, so for valid text this agrees with
/// Rust's byte-wise string order.
pub open spec fn lex_le(a: Seq<char>, b: Seq<char>) -> bool
    decreases a.len(),
{
    if a.len() == 0 {
        true
    } else if b.len() == 0 {
        false
    } else if a.first() != b.first() {
        a.first() < b.first()
    } else {
        lex_le(a.drop_first(), b.drop_first())
    }
}

/// Lexicographic order is reflexive.
pub proof fn lemma_lex_le_refl(a: Seq<char>)
    ensures
        lex_le(a, a),
    decreases a.len(),
{
    if a.len() > 0 {
        lemma_lex_le_refl(a.drop_first());
    }
}

/// What `str::to_uppercase` yields on a given text: its Unicode
/// uppercase equivalent. A function of the text alone, fixed by the
/// Unicode tables the standard library was built with.
pub uninterp spec fn upper_of(s: Seq<char>) -> Seq<char>;

/// Relies on `String::push`, which appends one character to the string.
#[verifier::external_body]
pub fn push_char(s: &mut String, c: char)
    ensures
        final(s)@ == old(s)@.push(c),
{
    s.push(c)
}

/// Relies on `str::to_uppercase`, which returns the text's Unicode
/// uppercase equivalent.
#[verifier::external_body]
pub(crate) fn to_upper(s: &str) -> (r: String)
    ensures
        r@ == upper_of(s@),
{
    s.to_uppercase()
}

/// Whether two string slices hold the same text.
pub fn str_eq(a: &str, b: &str) -> (r: bool)
    ensures
        r == (a@ == b@),
{
    let x: String = a.to_owned();
    let y: String = b.to_owned();
    x == y
}

fn is_blank(c: char) -> (r: bool)
    ensures
        r == is_blank_char(c),
{
    c == '\u{0009}' || c == '\u{000A}' || c == '\u{000B}' || c == '\u{000C}' || c == '\u{000D}'
        || c == ' ' || c == '\u{0085}' || c == '\u{00A0}' || c == '\u{1680}' || ('\u{2000}' <= c
        && c <= '\u{200A}') || c == '\u{2028}' || c == '\u{2029}' || c == '\u{202F}' || c
        == '\u{205F}' || c == '\u{3000}'
}

/// `s` with blank characters removed from both ends.
pub fn trim_str(s: &str) -> (r: String)
    ensures
        r@ == trim_spec(s@),
{
    let n: usize = s.unicode_len();
    let mut lo: usize = 0;
    proof {
        assert(s@.subrange(0, n as int) =~= s@);
    }
    while lo < n && is_blank(s.get_char(lo))
        invariant
            lo <= n,
            n == s@.len(),
            trim_start_spec(s@) == trim_start_spec(s@.subrange(lo as int, n as int)),
        decreases n - lo,
    {
        proof {
            let t = s@.subrange(lo as int, n as int);
            assert(t.drop_first() =~= s@.subrange(lo as int + 1, n as int));
        }
        lo = lo + 1;
    }
    proof {
        let t = s@.subrange(lo as int, n as int);
        assert(trim_start_spec(t) == t);
        assert(trim_start_spec(s@) == t);
    }
    let mut hi: usize = n;
    while hi > lo && is_blank(s.get_char(hi - 1))
        invariant
            lo <= hi <= n,
            n == s@.len(),
            trim_start_spec(s@) == s@.subrange(lo as int, n as int),
            trim_end_spec(s@.subrange(lo as int, n as int)) == trim_end_spec(
                s@.subrange(lo as int, hi as int),
            ),
        decreases hi,
    {
        proof {
            let t = s@.subrange(lo as int, hi as int);
            assert(t.drop_last() =~= s@.subrange(lo as int, hi as int - 1));
        }
        hi = hi - 1;
    }
    proof {
        let t = s@.subrange(lo as int, hi as int);
        assert(trim_end_spec(t) == t);
    }
    let out: &str = s.substring_char(lo, hi);
    out.to_owned()
}

/// A string of `n` spaces.
pub fn spaces(n: u8) -> (r: String)
    ensures
        r@ == repeat_char(' ', n as nat),
{
    let mut out: String = String::new();
    let mut i: u8 = 0;
    while i < n
        invariant
            i <= n,
            out@ == repeat_char(' ', i as nat),
        decreases n - i,
    {
        push_char(&mut out, ' ');
        i = i + 1;
    }
    out
}

/// A split always yields at least one part.
pub proof fn lemma_split_on_nonempty(s: Seq<char>, sep: char)
    ensures
        split_on_spec(s, sep).len() >= 1,
    decreases s.len(),
{
    if s.len() > 0 {
        lemma_split_on_nonempty(s.drop_first(), sep);
    }
}

/// The first line of the split, extended at the front with `p`.
spec fn prepend_first(p: Seq<char>, lines: Seq<Seq<char>>) -> Seq<Seq<char>> {
    seq![p + lines.first()] + lines.drop_first()
}

/// The parts of `s`, split on the separator `sep`.
pub fn split_on(s: &str, sep: char) -> (r: Vec<String>)
    ensures
        r.deep_view() == split_on_spec(s@, sep),
{
    let n: usize = s.unicode_len();
    let mut out: Vec<String> = Vec::new();
    let mut cur: String = String::new();
    let mut i: usize = 0;
    proof {
        lemma_split_on_nonempty(s@, sep);
        assert(s@.skip(0) =~= s@);
        assert(prepend_first(cur@, split_on_spec(s@, sep)) =~= split_on_spec(s@, sep));
    }
    while i < n
        invariant
            i <= n,
            n == s@.len(),
            split_on_spec(s@, sep) =~= out.deep_view() + prepend_first(
                cur@,
                split_on_spec(s@.skip(i as int), sep),
            ),
        decreases n - i,
    {
        let c: char = s.get_char(i);
        proof {
            let t = s@.skip(i as int);
            assert(t.len() > 0 && t.first() == s@[i as int]);
            assert(t.drop_first() =~= s@.skip(i as int + 1));
            lemma_split_on_nonempty(s@.skip(i as int + 1), sep);
        }
        if c == sep {
            let done: String = cur;
            cur = String::new();
            proof {
                let rest = split_on_spec(s@.skip(i as int + 1), sep);
                assert(prepend_first(done@, split_on_spec(s@.skip(i as int), sep)) =~= seq![done@]
                    + prepend_first(Seq::<char>::empty(), rest));
            }
            out.push(done);
            proof {
                assert(out.deep_view() =~= out.deep_view().drop_last().push(done@));
            }
        } else {
            proof {
                let rest = split_on_spec(s@.skip(i as int + 1), sep);
                assert(cur@ + (seq![c] + rest.first()) =~= cur@.push(c) + rest.first());
                assert(prepend_first(cur@, split_on_spec(s@.skip(i as int), sep)) =~= prepend_first(
                    cur@.push(c),
                    rest,
                ));
            }
            push_char(&mut cur, c);
        }
        i = i + 1;
    }
    proof {
        assert(s@.skip(n as int) =~= Seq::<char>::empty());
        assert(prepend_first(cur@, split_on_spec(Seq::<char>::empty(), sep)) =~= seq![cur@]);
    }
    out.push(cur);
    proof {
        assert(out.deep_view() =~= out.deep_view().drop_last().push(out@.last()@));
    }
    out
}

/// The lines of `s`, split on `'\n'`.
pub fn split_lines(s: &str) -> (r: Vec<String>)
    ensures
        r.deep_view() == split_lines_spec(s@),
{
    split_on(s, '\n')
}

/// Joining after appending one more part appends a separator and the part.
pub proof fn lemma_join_push(parts: Seq<Seq<char>>, x: Seq<char>, sep: Seq<char>)
    requires
        parts.len() >= 1,
    ensures
        join_with(parts.push(x), sep) == join_with(parts, sep) + sep + x,
    decreases parts.len(),
{
    if parts.len() == 1 {
        let p = parts.push(x);
        assert(p.drop_first() =~= seq![x]);
        assert(join_with(p.drop_first(), sep) == x);
        assert(join_with(parts.push(x), sep) == parts.first() + sep + x);
    } else {
        lemma_join_push(parts.drop_first(), x, sep);
        assert(parts.push(x).drop_first() =~= parts.drop_first().push(x));
        assert(join_with(parts, sep) + sep + x =~= parts.first() + sep + (join_with(
            parts.drop_first(),
            sep,
        ) + sep + x));
    }
}

/// The strings of `parts` joined with `sep` between consecutive parts.
pub fn join_strings(parts: &Vec<String>, sep: &str) -> (r: String)
    ensures
        r@ == join_with(parts.deep_view(), sep@),
{
    if parts.len() == 0 {
        return String::new();
    }
    let mut out: String = parts[0].clone();
    let mut i: usize = 1;
    proof {
        assert(parts.deep_view().take(1) =~= seq![parts@[0]@]);
    }
    while i < parts.len()
        invariant
            1 <= i <= parts.len(),
            parts.deep_view().len() == parts.len(),
            out@ == join_with(parts.deep_view().take(i as int), sep@),
        decreases parts.len() - i,
    {
        out.append(sep);
        out.append(parts[i].as_str());
        proof {
            let dv = parts.deep_view();
            assert(dv.take(i as int + 1) =~= dv.take(i as int).push(dv[i as int]));
            lemma_join_push(dv.take(i as int), dv[i as int], sep@);
        }
        i = i + 1;
    }
    proof {
        assert(parts.deep_view().take(parts.len() as int) =~= parts.deep_view());
    }
    out
}

/// Whether `a` is lexicographically no greater than `b`.
pub fn lex_le_str(a: &str, b: &str) -> (r: bool)
    ensures
        r == lex_le(a@, b@),
{
    let an: usize = a.unicode_len();
    let bn: usize = b.unicode_len();
    let mut i: usize = 0;
    proof {
        assert(a@.skip(0) =~= a@);
        assert(b@.skip(0) =~= b@);
    }
    loop
        invariant
            i <= an,
            i <= bn,
            an == a@.len(),
            bn == b@.len(),
            lex_le(a@, b@) == lex_le(a@.skip(i as int), b@.skip(i as int)),
        decreases an - i,
    {
        if i >= an {
            return true;
        }
        if i >= bn {
            return false;
        }
        let ca: char = a.get_char(i);
        let cb: char = b.get_char(i);
        proof {
            let ta = a@.skip(i as int);
            let tb = b@.skip(i as int);
            assert(ta.first() == a@[i as int] && tb.first() == b@[i as int]);
            assert(ta.drop_first() =~= a@.skip(i as int + 1));
            assert(tb.drop_first() =~= b@.skip(i as int + 1));
        }
        if ca != cb {
            return ca < cb;
        }
        i = i + 1;
    }
}

} // verus!
