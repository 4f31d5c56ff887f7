//! Semantic versions: the model a release's version parses to, and the
//! semantic-version order the release sort uses.
//!
//! Parsing and validation of the version grammar are done by the `semver`
//! crate; the comparison itself is the library's own verified logic,
//! following the semantic-versioning precedence rules (numeric identifier
//! lists, with build metadata as the final tie-break, as `semver` orders
//! versions).

use crate::changelog::parsing_utils::is_digit_char;
use crate::error::Error;
use crate::text::{split_on, split_on_spec};
use vstd::prelude::*;

verus! {

/// The outcome of a three-way comparison.
#[derive(Debug, Clone, Copy, PartialEq, Eq, Structural)]
pub enum Cmp {
    Less,
    Equal,
    Greater,
}

impl Cmp {
    /// The opposite outcome: used for descending orders.
    pub open spec fn reverse_spec(self) -> Cmp {
        match self {
            Cmp::Less => Cmp::Greater,
            Cmp::Equal => Cmp::Equal,
            Cmp::Greater => Cmp::Less,
        }
    }

    /// Reverses the outcome.
    pub fn reverse(self) -> (r: Cmp)
        ensures
            r == self.reverse_spec(),
    {
        match self {
            Cmp::Less => Cmp::Greater,
            Cmp::Equal => Cmp::Equal,
            Cmp::Greater => Cmp::Less,
        }
    }
}

/// `a` if it decides, else `b`: chains comparison criteria.
pub open spec fn then_cmp(a: Cmp, b: Cmp) -> Cmp {
    if a is Equal {
        b
    } else {
        a
    }
}

/// Three-way comparison of two integers.
pub open spec fn cmp_int(a: int, b: int) -> Cmp {
    if a < b {
        Cmp::Less
    } else if a == b {
        Cmp::Equal
    } else {
        Cmp::Greater
    }
}

/// Three-way lexicographic comparison of character sequences.
pub open spec fn lex_cmp(a: Seq<char>, b: Seq<char>) -> Cmp
    decreases a.len(),
{
    if a.len() == 0 && b.len() == 0 {
        Cmp::Equal
    } else if a.len() == 0 {
        Cmp::Less
    } else if b.len() == 0 {
        Cmp::Greater
    } else if a.first() != b.first() {
        cmp_int(a.first() as u32 as int, b.first() as u32 as int)
    } else {
        lex_cmp(a.drop_first(), b.drop_first())
    }
}

/// Whether every character of `s` is a decimal digit (vacuously true of
/// the empty sequence, as for an empty identifier).
pub open spec fn all_digits(s: Seq<char>) -> bool {
    forall|i: int| 0 <= i < s.len() ==> is_digit_char(#[trigger] s[i])
}

/// `s` without its leading zeros.
pub open spec fn trim_zeros(s: Seq<char>) -> Seq<char>
    decreases s.len(),
{
    if s.len() > 0 && s.first() == '0' {
        trim_zeros(s.drop_first())
    } else {
        s
    }
}

/// Numeric comparison of two digit runs without leading zeros: a longer
/// run is larger, equal lengths compare lexicographically.
pub open spec fn cmp_num(a: Seq<char>, b: Seq<char>) -> Cmp {
    then_cmp(cmp_int(a.len() as int, b.len() as int), lex_cmp(a, b))
}

/// Comparison of two pre-release identifiers: digit runs compare
/// numerically, a digit run is less than any other identifier, and other
/// identifiers compare lexicographically.
pub open spec fn cmp_pre_ident(a: Seq<char>, b: Seq<char>) -> Cmp {
    if all_digits(a) && all_digits(b) {
        cmp_num(a, b)
    } else if all_digits(a) {
        Cmp::Less
    } else if all_digits(b) {
        Cmp::Greater
    } else {
        lex_cmp(a, b)
    }
}

/// Comparison of two build-metadata identifiers: like pre-release
/// identifiers, but digit runs may carry leading zeros, which are ignored
/// for the numeric comparison and then tie-break by run length.
pub open spec fn cmp_build_ident(a: Seq<char>, b: Seq<char>) -> Cmp {
    if all_digits(a) && all_digits(b) {
        then_cmp(
            cmp_num(trim_zeros(a), trim_zeros(b)),
            cmp_int(a.len() as int, b.len() as int),
        )
    } else if all_digits(a) {
        Cmp::Less
    } else if all_digits(b) {
        Cmp::Greater
    } else {
        lex_cmp(a, b)
    }
}

/// Comparison of two identifier lists under a per-identifier comparison:
/// identifier by identifier, with a shorter list less than a longer one it
/// is a prefix of.
pub open spec fn cmp_ident_list(
    per: spec_fn(Seq<char>, Seq<char>) -> Cmp,
    xs: Seq<Seq<char>>,
    ys: Seq<Seq<char>>,
) -> Cmp
    decreases xs.len(),
{
    if xs.len() == 0 && ys.len() == 0 {
        Cmp::Equal
    } else if xs.len() == 0 {
        Cmp::Less
    } else if ys.len() == 0 {
        Cmp::Greater
    } else {
        then_cmp(per(xs.first(), ys.first()), cmp_ident_list(per, xs.drop_first(), ys.drop_first()))
    }
}

/// The pre-release identifiers of a version: the pre-release text split on
/// `'.'`.
pub open spec fn idents_of(s: Seq<char>) -> Seq<Seq<char>> {
    split_on_spec(s, '.')
}

/// Comparison of two pre-release texts: no pre-release is greater than any
/// pre-release; otherwise the identifier lists compare.
pub open spec fn cmp_prerelease(a: Seq<char>, b: Seq<char>) -> Cmp {
    if a.len() == 0 && b.len() == 0 {
        Cmp::Equal
    } else if a.len() == 0 {
        Cmp::Greater
    } else if b.len() == 0 {
        Cmp::Less
    } else {
        cmp_ident_list(|x: Seq<char>, y: Seq<char>| cmp_pre_ident(x, y), idents_of(a), idents_of(b))
    }
}

/// Comparison of two build-metadata texts by their identifier lists.
pub open spec fn cmp_build(a: Seq<char>, b: Seq<char>) -> Cmp {
    cmp_ident_list(|x: Seq<char>, y: Seq<char>| cmp_build_ident(x, y), idents_of(a), idents_of(b))
}

/// The mathematical model of a [`Version`].
#[verifier::ext_equal]
pub ghost struct VersionView {
    pub major: int,
    pub minor: int,
    pub patch: int,
    /// The pre-release text, empty if none.
    pub pre: Seq<char>,
    /// The build metadata text, empty if none.
    pub build: Seq<char>,
}

/// Semantic-version order: major, minor and patch numerically, then the
/// pre-release (absent beats present), then the build metadata as the
/// final tie-break.
pub open spec fn cmp_version(a: VersionView, b: VersionView) -> Cmp {
    then_cmp(
        cmp_int(a.major, b.major),
        then_cmp(
            cmp_int(a.minor, b.minor),
            then_cmp(
                cmp_int(a.patch, b.patch),
                then_cmp(cmp_prerelease(a.pre, b.pre), cmp_build(a.build, b.build)),
            ),
        ),
    )
}

/// A semantic version, as parsed from a release directory name.
#[derive(Debug, Clone)]
pub struct Version {
    pub major: u64,
    pub minor: u64,
    pub patch: u64,
    /// The pre-release text (e.g. `beta.1`), empty if none.
    pub pre: String,
    /// The build metadata text, empty if none.
    pub build: String,
}

impl View for Version {
    type V = VersionView;

    open spec fn view(&self) -> VersionView {
        VersionView {
            major: self.major as int,
            minor: self.minor as int,
            patch: self.patch as int,
            pre: self.pre@,
            build: self.build@,
        }
    }
}

impl DeepView for Version {
    type V = VersionView;

    open spec fn deep_view(&self) -> VersionView {
        self.view()
    }
}

/// What `semver::Version::parse` yields on a given text: the numeric
/// triple and the pre-release and build texts, or nothing when the text is
/// not a valid semantic version.
pub uninterp spec fn semver_of(s: Seq<char>) -> Option<(u64, u64, u64, Seq<char>, Seq<char>)>;

/// The version model that `semver_of(s)` describes, meaningful when it is
/// `Some`.
pub open spec fn semver_view_of(s: Seq<char>) -> VersionView {
    let p = semver_of(s)->Some_0;
    VersionView {
        major: p.0 as int,
        minor: p.1 as int,
        patch: p.2 as int,
        pre: p.3,
        build: p.4,
    }
}

impl Version {
    /// Relies on `semver::Version::parse` for the semantic-version
    /// grammar: on success it yields the version's numeric components and
    /// its pre-release and build texts.
    #[verifier::external_body]
    pub fn parse(s: &str) -> (r: Result<Version, Error>)
        ensures
            match r {
                Ok(v) => semver_of(s@) == Some(
                    (v.major, v.minor, v.patch, v.pre@, v.build@),
                ),
                Err(e) => semver_of(s@) is None && e is InvalidSemanticVersion,
            },
    {
        match semver::Version::parse(s) {
            Ok(v) => Ok(
                Version {
                    major: v.major,
                    minor: v.minor,
                    patch: v.patch,
                    pre: v.pre.as_str().to_string(),
                    build: v.build.as_str().to_string(),
                },
            ),
            Err(e) => Err(Error::InvalidSemanticVersion(e.to_string())),
        }
    }
}

fn all_digits_str(s: &str) -> (r: bool)
    ensures
        r == all_digits(s@),
{
    let n: usize = s.unicode_len();
    let mut i: usize = 0;
    while i < n
        invariant
            i <= n,
            n == s@.len(),
            forall|j: int| 0 <= j < i ==> is_digit_char(#[trigger] s@[j]),
        decreases n - i,
    {
        let c: char = s.get_char(i);
        if !('0' <= c && c <= '9') {
            return false;
        }
        i = i + 1;
    }
    true
}

fn lex_cmp_str(a: &str, b: &str) -> (r: Cmp)
    ensures
        r == lex_cmp(a@, b@),
{
    let an: usize = a.unicode_len();
    let bn: usize = b.unicode_len();
    let mut i: usize = 0;
    proof {
        assert(a@.skip(0) =~= a@);
        assert(b@.skip(0) =~= b@);
    }
    loop
        invariant
            i <= an,
            i <= bn,
            an == a@.len(),
            bn == b@.len(),
            lex_cmp(a@, b@) == lex_cmp(a@.skip(i as int), b@.skip(i as int)),
        decreases an - i,
    {
        if i >= an && i >= bn {
            return Cmp::Equal;
        }
        if i >= an {
            return Cmp::Less;
        }
        if i >= bn {
            return Cmp::Greater;
        }
        let ca: char = a.get_char(i);
        let cb: char = b.get_char(i);
        proof {
            let ta = a@.skip(i as int);
            let tb = b@.skip(i as int);
            assert(ta.first() == a@[i as int] && tb.first() == b@[i as int]);
            assert(ta.drop_first() =~= a@.skip(i as int + 1));
            assert(tb.drop_first() =~= b@.skip(i as int + 1));
        }
        if ca != cb {
            if (ca as u32) < (cb as u32) {
                return Cmp::Less;
            } else {
                return Cmp::Greater;
            }
        }
        i = i + 1;
    }
}

fn trim_zeros_str(s: &str) -> (r: String)
    ensures
        r@ == trim_zeros(s@),
{
    let n: usize = s.unicode_len();
    let mut lo: usize = 0;
    proof {
        assert(s@.subrange(0, n as int) =~= s@);
    }
    while lo < n && s.get_char(lo) == '0'
        invariant
            lo <= n,
            n == s@.len(),
            trim_zeros(s@) == trim_zeros(s@.subrange(lo as int, n as int)),
        decreases n - lo,
    {
        proof {
            let t = s@.subrange(lo as int, n as int);
            assert(t.drop_first() =~= s@.subrange(lo as int + 1, n as int));
        }
        lo = lo + 1;
    }
    proof {
        let t = s@.subrange(lo as int, n as int);
        assert(trim_zeros(t) == t);
    }
    let out: &str = s.substring_char(lo, n);
    out.to_owned()
}

fn cmp_num_str(a: &str, b: &str) -> (r: Cmp)
    ensures
        r == cmp_num(a@, b@),
{
    let an: usize = a.unicode_len();
    let bn: usize = b.unicode_len();
    if an < bn {
        Cmp::Less
    } else if an > bn {
        Cmp::Greater
    } else {
        lex_cmp_str(a, b)
    }
}

fn cmp_pre_ident_str(a: &str, b: &str) -> (r: Cmp)
    ensures
        r == cmp_pre_ident(a@, b@),
{
    let da: bool = all_digits_str(a);
    let db: bool = all_digits_str(b);
    if da && db {
        cmp_num_str(a, b)
    } else if da {
        Cmp::Less
    } else if db {
        Cmp::Greater
    } else {
        lex_cmp_str(a, b)
    }
}

fn cmp_build_ident_str(a: &str, b: &str) -> (r: Cmp)
    ensures
        r == cmp_build_ident(a@, b@),
{
    let da: bool = all_digits_str(a);
    let db: bool = all_digits_str(b);
    if da && db {
        let ta: String = trim_zeros_str(a);
        let tb: String = trim_zeros_str(b);
        let num: Cmp = cmp_num_str(ta.as_str(), tb.as_str());
        if num != Cmp::Equal {
            num
        } else {
            let an: usize = a.unicode_len();
            let bn: usize = b.unicode_len();
            if an < bn {
                Cmp::Less
            } else if an > bn {
                Cmp::Greater
            } else {
                Cmp::Equal
            }
        }
    } else if da {
        Cmp::Less
    } else if db {
        Cmp::Greater
    } else {
        lex_cmp_str(a, b)
    }
}

fn cmp_ident_list_str(pre: bool, xs: &Vec<String>, ys: &Vec<String>) -> (r: Cmp)
    ensures
        pre ==> r == cmp_ident_list(
            |x: Seq<char>, y: Seq<char>| cmp_pre_ident(x, y),
            xs.deep_view(),
            ys.deep_view(),
        ),
        !pre ==> r == cmp_ident_list(
            |x: Seq<char>, y: Seq<char>| cmp_build_ident(x, y),
            xs.deep_view(),
            ys.deep_view(),
        ),
{
    let ghost per: spec_fn(Seq<char>, Seq<char>) -> Cmp = if pre {
        |x: Seq<char>, y: Seq<char>| cmp_pre_ident(x, y)
    } else {
        |x: Seq<char>, y: Seq<char>| cmp_build_ident(x, y)
    };
    let xn: usize = xs.len();
    let yn: usize = ys.len();
    let mut i: usize = 0;
    proof {
        assert(xs.deep_view().skip(0) =~= xs.deep_view());
        assert(ys.deep_view().skip(0) =~= ys.deep_view());
    }
    loop
        invariant
            i <= xn,
            i <= yn,
            xn == xs.deep_view().len(),
            yn == ys.deep_view().len(),
            xn == xs@.len(),
            yn == ys@.len(),
            per == (if pre {
                |x: Seq<char>, y: Seq<char>| cmp_pre_ident(x, y)
            } else {
                |x: Seq<char>, y: Seq<char>| cmp_build_ident(x, y)
            }),
            cmp_ident_list(per, xs.deep_view(), ys.deep_view()) == cmp_ident_list(
                per,
                xs.deep_view().skip(i as int),
                ys.deep_view().skip(i as int),
            ),
        decreases xn - i,
    {
        if i >= xn && i >= yn {
            return Cmp::Equal;
        }
        if i >= xn {
            return Cmp::Less;
        }
        if i >= yn {
            return Cmp::Greater;
        }
        let c: Cmp = if pre {
            cmp_pre_ident_str(xs[i].as_str(), ys[i].as_str())
        } else {
            cmp_build_ident_str(xs[i].as_str(), ys[i].as_str())
        };
        proof {
            let tx = xs.deep_view().skip(i as int);
            let ty = ys.deep_view().skip(i as int);
            assert(tx.first() == xs.deep_view()[i as int] && ty.first() == ys.deep_view()[
                i as int
            ]);
            assert(tx.drop_first() =~= xs.deep_view().skip(i as int + 1));
            assert(ty.drop_first() =~= ys.deep_view().skip(i as int + 1));
        }
        if c != Cmp::Equal {
            return c;
        }
        i = i + 1;
    }
}

fn cmp_prerelease_str(a: &str, b: &str) -> (r: Cmp)
    ensures
        r == cmp_prerelease(a@, b@),
{
    let an: usize = a.unicode_len();
    let bn: usize = b.unicode_len();
    if an == 0 && bn == 0 {
        Cmp::Equal
    } else if an == 0 {
        Cmp::Greater
    } else if bn == 0 {
        Cmp::Less
    } else {
        let xs: Vec<String> = split_on(a, '.');
        let ys: Vec<String> = split_on(b, '.');
        cmp_ident_list_str(true, &xs, &ys)
    }
}

fn cmp_build_str(a: &str, b: &str) -> (r: Cmp)
    ensures
        r == cmp_build(a@, b@),
{
    let xs: Vec<String> = split_on(a, '.');
    let ys: Vec<String> = split_on(b, '.');
    cmp_ident_list_str(false, &xs, &ys)
}

/// Three-way semantic-version comparison, per `cmp_version`.
pub fn version_cmp(a: &Version, b: &Version) -> (r: Cmp)
    ensures
        r == cmp_version(a@, b@),
{
    if a.major < b.major {
        return Cmp::Less;
    }
    if a.major > b.major {
        return Cmp::Greater;
    }
    if a.minor < b.minor {
        return Cmp::Less;
    }
    if a.minor > b.minor {
        return Cmp::Greater;
    }
    if a.patch < b.patch {
        return Cmp::Less;
    }
    if a.patch > b.patch {
        return Cmp::Greater;
    }
    let pre: Cmp = cmp_prerelease_str(a.pre.as_str(), b.pre.as_str());
    if pre != Cmp::Equal {
        return pre;
    }
    cmp_build_str(a.build.as_str(), b.build.as_str())
}

} // verus!
