//! API for dealing with VCS platforms (e.g. GitHub, GitLab): deducing the
//! hosting platform of a project from a URL, and building the project's
//! canonical URL back. URL parsing itself is done by the `url` crate.

use crate::error::Error;
use crate::text::str_eq;
use vstd::prelude::*;

verus! {

/// Provides a way of referencing a change through the VCS platform.
#[derive(Debug, Clone, Copy, PartialEq, Eq, Structural)]
pub enum PlatformId {
    /// The change is referenced by way of issue number.
    Issue(u32),
    /// The change is referenced by way of pull request number.
    PullRequest(u32),
}

impl PlatformId {
    /// The integer ID associated with this platform-specific ID.
    pub fn id(&self) -> (r: u32)
        ensures
            r == (match *self {
                PlatformId::Issue(n) => n,
                PlatformId::PullRequest(n) => n,
            }),
    {
        match self {
            PlatformId::Issue(issue) => *issue,
            PlatformId::PullRequest(pull_request) => *pull_request,
        }
    }
}

/// The parts of a parsed URL that platform deduction reads: the host, if
/// any, and the path segments, when the URL has a path that can be
/// segmented.
#[derive(Debug, Clone)]
pub struct UrlParts {
    /// The URL's host, if it has one.
    pub host: Option<String>,
    /// The URL's path segments, absent for URLs that cannot be a base.
    pub segments: Option<Vec<String>>,
}

/// What `url::Url::parse` yields on a given text: the host and path
/// segments of the parsed, normalized URL, or nothing when the text is
/// not a valid URL.
pub uninterp spec fn url_parts_of(s: Seq<char>) -> Option<
    (Option<Seq<char>>, Option<Seq<Seq<char>>>),
>;

/// Relies on `url::Url::parse` for URL parsing and normalization, and on
/// `Url::host_str` and `Url::path_segments` for the parsed URL's host
/// and path segments.
#[verifier::external_body]
fn parse_url_parts(s: &str) -> (r: Result<UrlParts, Error>)
    ensures
        match r {
            Ok(p) => url_parts_of(s@) == Some((p.host.deep_view(), p.segments.deep_view())),
            Err(e) => url_parts_of(s@) is None && (match e {
                Error::InvalidUrl(t) => t@ == s@,
                _ => false,
            }),
        },
{
    match url::Url::parse(s) {
        Ok(u) => {
            let host = u.host_str().map(|h| h.to_string());
            let segments = u.path_segments().map(|it| it.map(|seg| seg.to_string()).collect());
            Ok(UrlParts { host, segments })
        },
        Err(_) => Err(Error::InvalidUrl(s.to_string())),
    }
}

/// Whether `s` ends with the suffix `.git`.
pub open spec fn has_git_suffix(s: Seq<char>) -> bool {
    s.len() >= 4 && s.skip(s.len() - 4) == seq!['.', 'g', 'i', 't']
}

/// `s` with every trailing `.git` suffix removed.
pub open spec fn strip_git_suffix(s: Seq<char>) -> Seq<char>
    decreases s.len(),
{
    if has_git_suffix(s) {
        strip_git_suffix(s.take(s.len() - 4))
    } else {
        s
    }
}

/// `s` with every trailing `.git` suffix removed, per
/// `strip_git_suffix`.
fn trim_git_suffix(s: &str) -> (r: String)
    ensures
        r@ == strip_git_suffix(s@),
{
    let mut n: usize = s.unicode_len();
    let mut hi: usize = n;
    proof {
        assert(s@.subrange(0, n as int) =~= s@);
    }
    loop
        invariant
            hi <= n,
            n == s@.len(),
            strip_git_suffix(s@) == strip_git_suffix(s@.subrange(0, hi as int)),
        ensures
            hi <= n,
            n == s@.len(),
            strip_git_suffix(s@) == strip_git_suffix(s@.subrange(0, hi as int)),
            !has_git_suffix(s@.subrange(0, hi as int)),
        decreases hi,
    {
        let ghost t = s@.subrange(0, hi as int);
        if hi >= 4 {
            let c1: char = s.get_char(hi - 4);
            let c2: char = s.get_char(hi - 3);
            let c3: char = s.get_char(hi - 2);
            let c4: char = s.get_char(hi - 1);
            if c1 == '.' && c2 == 'g' && c3 == 'i' && c4 == 't' {
                proof {
                    assert(t.skip(t.len() - 4) =~= seq!['.', 'g', 'i', 't']);
                    assert(t.take(t.len() - 4) =~= s@.subrange(0, hi as int - 4));
                }
                hi = hi - 4;
            } else {
                proof {
                    assert(t.skip(t.len() - 4)[0] == s@[hi as int - 4]);
                    assert(t.skip(t.len() - 4)[1] == s@[hi as int - 3]);
                    assert(t.skip(t.len() - 4)[2] == s@[hi as int - 2]);
                    assert(t.skip(t.len() - 4)[3] == s@[hi as int - 1]);
                    assert(!has_git_suffix(t)) by {
                        if has_git_suffix(t) {
                            assert(t.skip(t.len() - 4) =~= seq!['.', 'g', 'i', 't']);
                        }
                    }
                }
                break ;
            }
        } else {
            proof {
                assert(!has_git_suffix(t));
            }
            break ;
        }
    }
    proof {
        let t = s@.subrange(0, hi as int);
        assert(strip_git_suffix(t) == t);
    }
    s.substring_char(0, hi).to_owned()
}

/// Whether `needle` occurs as a contiguous part of `hay`.
pub open spec fn contains_seq(hay: Seq<char>, needle: Seq<char>) -> bool {
    exists|i: int|
        0 <= i && i + needle.len() <= hay.len() && #[trigger] hay.subrange(i, i + needle.len())
            == needle
}

fn contains_str(hay: &str, needle: &str) -> (r: bool)
    ensures
        r == contains_seq(hay@, needle@),
{
    let hn: usize = hay.unicode_len();
    let nn: usize = needle.unicode_len();
    if nn == 0 {
        proof {
            assert(contains_seq(hay@, needle@)) by {
                assert(hay@.subrange(0, 0 + needle@.len() as int) =~= needle@);
            }
        }
        return true;
    }
    if nn > hn {
        proof {
            assert(!contains_seq(hay@, needle@)) by {
                if contains_seq(hay@, needle@) {
                    let i = choose|i: int|
                        0 <= i && i + needle@.len() <= hay@.len() && #[trigger] hay@.subrange(
                            i,
                            i + needle@.len(),
                        ) == needle@;
                }
            }
        }
        return false;
    }
    let mut i: usize = 0;
    while i <= hn - nn
        invariant
            1 <= nn <= hn,
            hn == hay@.len(),
            nn == needle@.len(),
            i <= hn - nn + 1,
            forall|k: int|
                0 <= k < i ==> #[trigger] hay@.subrange(k, k + needle@.len()) != needle@,
        decreases hn - nn + 1 - i,
    {
        let part: &str = hay.substring_char(i, i + nn);
        if str_eq(part, needle) {
            proof {
                assert(hay@.subrange(i as int, i as int + needle@.len()) == needle@);
            }
            return true;
        }
        i = i + 1;
    }
    proof {
        assert(!contains_seq(hay@, needle@)) by {
            if contains_seq(hay@, needle@) {
                let k = choose|k: int|
                    0 <= k && k + needle@.len() <= hay@.len() && #[trigger] hay@.subrange(
                        k,
                        k + needle@.len(),
                    ) == needle@;
                assert(k < i);
            }
        }
    }
    false
}

/// A project on GitHub.
#[derive(Debug, Clone, PartialEq, Eq)]
pub struct GitHubProject {
    /// The organization or user associated with this project.
    pub owner: String,
    /// The ID of the project.
    pub project: String,
}

/// A project on GitLab.
#[derive(Debug, Clone, PartialEq, Eq)]
pub struct GitLabProject {
    /// The root url of the project.
    pub root_url: String,
    /// The host of the project.
    pub host: String,
    /// The ID of the project.
    pub project: String,
}

impl GitHubProject {
    /// Deduces a GitHub project from a URL's parts: the host must be
    /// `github.com` and the path must hold at least an owner and a
    /// project segment; a trailing `.git` on the project is dropped.
    pub fn try_from(url: &str, parts: &UrlParts) -> (r: Result<GitHubProject, Error>)
        ensures
            match r {
                Ok(p) => {
                    &&& parts.host.deep_view() == Some("github.com"@)
                    &&& parts.segments is Some
                    &&& parts.segments->Some_0@.len() >= 2
                    &&& p.owner@ == parts.segments->Some_0@[0]@
                    &&& p.project@ == strip_git_suffix(parts.segments->Some_0@[1]@)
                },
                Err(e) => match e {
                    Error::UrlMissingHost(t) => parts.host is None && t@ == url@,
                    Error::NotGitHubProject(t) => parts.host is Some && parts.host->Some_0@
                        != "github.com"@ && t@ == url@,
                    Error::GitHubProjectMissingPath(t) => parts.host.deep_view() == Some(
                        "github.com"@,
                    ) && parts.segments is None && t@ == url@,
                    Error::InvalidGitHubProjectPath(t) => parts.host.deep_view() == Some(
                        "github.com"@,
                    ) && parts.segments is Some && parts.segments->Some_0@.len() < 2 && t@
                        == url@,
                    _ => false,
                },
            },
    {
        let host: &String = match &parts.host {
            Some(h) => h,
            None => {
                return Err(Error::UrlMissingHost(url.to_owned()));
            },
        };
        if !str_eq(host.as_str(), "github.com") {
            return Err(Error::NotGitHubProject(url.to_owned()));
        }
        let segments: &Vec<String> = match &parts.segments {
            Some(s) => s,
            None => {
                return Err(Error::GitHubProjectMissingPath(url.to_owned()));
            },
        };
        if segments.len() < 2 {
            return Err(Error::InvalidGitHubProjectPath(url.to_owned()));
        }
        let owner: String = segments[0].clone();
        let project: String = trim_git_suffix(segments[1].as_str());
        Ok(GitHubProject { owner, project })
    }

    /// The canonical URL of this project, as a string:
    /// `https://github.com/{owner}/{project}`.
    pub fn url_str(&self) -> (r: String)
        ensures
            r@ == "https://github.com/"@ + self.owner@ + seq!['/'] + self.project@,
    {
        let mut out: String = String::new();
        out.append("https://github.com/");
        out.append(self.owner.as_str());
        out.append("/");
        out.append(self.project.as_str());
        proof {
            reveal_strlit("/");
            assert("/"@ =~= seq!['/']);
        }
        out
    }
}

/// The non-empty path segments of a segment list.
pub open spec fn nonempty_segments(segs: Seq<Seq<char>>) -> Seq<Seq<char>> {
    segs.filter(|x: Seq<char>| x.len() > 0)
}

impl GitLabProject {
    /// Deduces a GitLab project from a URL's parts: the host must
    /// mention `gitlab` and the path must hold at least two non-empty
    /// segments; the last segment names the project (a trailing `.git`
    /// dropped) and the segments before it, joined with `/`, form the
    /// root.
    pub fn try_from(url: &str, parts: &UrlParts) -> (r: Result<GitLabProject, Error>)
        ensures
            match r {
                Ok(p) => {
                    &&& parts.host is Some
                    &&& contains_seq(parts.host->Some_0@, "gitlab"@)
                    &&& parts.segments is Some
                    &&& nonempty_segments(parts.segments->Some_0.deep_view()).len() >= 2
                    &&& p.host@ == parts.host->Some_0@
                    &&& p.root_url@ == crate::text::join_with(
                        nonempty_segments(parts.segments->Some_0.deep_view()).drop_last(),
                        seq!['/'],
                    )
                    &&& p.project@ == strip_git_suffix(
                        nonempty_segments(parts.segments->Some_0.deep_view()).last(),
                    )
                },
                Err(e) => match e {
                    Error::UrlMissingHost(t) => parts.host is None && t@ == url@,
                    Error::NotGitHubProject(t) => parts.host is Some && !contains_seq(
                        parts.host->Some_0@,
                        "gitlab"@,
                    ) && t@ == url@,
                    Error::GitHubProjectMissingPath(t) => parts.host is Some && contains_seq(
                        parts.host->Some_0@,
                        "gitlab"@,
                    ) && parts.segments is None && t@ == url@,
                    Error::InvalidGitHubProjectPath(t) => parts.host is Some && contains_seq(
                        parts.host->Some_0@,
                        "gitlab"@,
                    ) && parts.segments is Some && nonempty_segments(
                        parts.segments->Some_0.deep_view(),
                    ).len() < 2 && t@ == url@,
                    _ => false,
                },
            },
    {
        let host: &String = match &parts.host {
            Some(h) => h,
            None => {
                return Err(Error::UrlMissingHost(url.to_owned()));
            },
        };
        if !contains_str(host.as_str(), "gitlab") {
            return Err(Error::NotGitHubProject(url.to_owned()));
        }
        let segments: &Vec<String> = match &parts.segments {
            Some(s) => s,
            None => {
                return Err(Error::GitHubProjectMissingPath(url.to_owned()));
            },
        };
        let ghost segs = segments.deep_view();
        let mut nonempty: Vec<String> = Vec::new();
        let n: usize = segments.len();
        let mut i: usize = 0;
        proof {
            assert(segs.take(0).filter(|x: Seq<char>| x.len() > 0) =~= Seq::<Seq<char>>::empty())
                by {
                reveal_with_fuel(Seq::filter, 1);
            }
            assert(nonempty.deep_view() =~= segs.take(0).filter(|x: Seq<char>| x.len() > 0));
        }
        while i < n
            invariant
                i <= n,
                n == segments@.len(),
                segs == segments.deep_view(),
                segs.len() == n,
                nonempty.deep_view() == segs.take(i as int).filter(|x: Seq<char>| x.len() > 0),
            decreases n - i,
        {
            let keep: bool = segments[i].as_str().unicode_len() > 0;
            let ghost before = nonempty.deep_view();
            if keep {
                nonempty.push(segments[i].clone());
            }
            proof {
                reveal_with_fuel(Seq::filter, 2);
                let pred = |x: Seq<char>| x.len() > 0;
                assert(segs.take(i as int + 1).drop_last() =~= segs.take(i as int));
                assert(segs.take(i as int + 1).last() == segs[i as int]);
                assert(segs[i as int] == segments@[i as int]@);
                if keep {
                    assert(nonempty.deep_view() =~= before.push(segs[i as int]));
                } else {
                    assert(nonempty.deep_view() =~= before);
                }
            }
            i = i + 1;
        }
        proof {
            assert(segs.take(n as int) =~= segs);
        }
        if nonempty.len() < 2 {
            return Err(Error::InvalidGitHubProjectPath(url.to_owned()));
        }
        let ghost ne = nonempty.deep_view();
        let last: usize = nonempty.len() - 1;
        let mut root_url: String = String::new();
        let mut j: usize = 0;
        proof {
            assert(root_url@ =~= crate::text::join_with(ne.take(0), seq!['/']));
        }
        while j < last
            invariant
                j <= last,
                last < nonempty@.len(),
                ne == nonempty.deep_view(),
                ne.len() == nonempty@.len(),
                root_url@ == crate::text::join_with(ne.take(j as int), seq!['/']),
            decreases last - j,
        {
            if j > 0 {
                root_url.append("/");
                proof {
                    reveal_strlit("/");
                    assert("/"@ =~= seq!['/']);
                }
            }
            root_url.append(nonempty[j].as_str());
            proof {
                assert(ne.take(j as int + 1) =~= ne.take(j as int).push(ne[j as int]));
                assert(ne[j as int] == nonempty@[j as int]@);
                if j > 0 {
                    crate::text::lemma_join_push(ne.take(j as int), ne[j as int], seq!['/']);
                } else {
                    assert(crate::text::join_with(ne.take(1), seq!['/']) == ne.take(1).first());
                }
            }
            j = j + 1;
        }
        proof {
            assert(ne.take(last as int) =~= ne.drop_last());
            assert(ne[last as int] == nonempty@[last as int]@);
        }
        let project: String = trim_git_suffix(nonempty[last].as_str());
        Ok(GitLabProject { host: host.clone(), root_url, project })
    }

    /// The canonical URL of this project, as a string:
    /// `https://{host}/{root_url}/{project}`.
    pub fn url_str(&self) -> (r: String)
        ensures
            r@ == "https://"@ + self.host@ + seq!['/'] + self.root_url@ + seq!['/']
                + self.project@,
    {
        let mut out: String = String::new();
        out.append("https://");
        out.append(self.host.as_str());
        out.append("/");
        out.append(self.root_url.as_str());
        out.append("/");
        out.append(self.project.as_str());
        proof {
            reveal_strlit("/");
            assert("/"@ =~= seq!['/']);
        }
        out
    }
}

/// An online Git project on a recognized hosting platform.
#[derive(Debug, Clone)]
pub enum Project {
    GitHubProject(GitHubProject),
    GitLabProject(GitLabProject),
}

impl Project {
    /// The canonical URL of this project, as a string.
    pub fn url_str(&self) -> (r: String)
        ensures
            r@ == (match *self {
                Project::GitHubProject(g) => "https://github.com/"@ + g.owner@ + seq!['/']
                    + g.project@,
                Project::GitLabProject(g) => "https://"@ + g.host@ + seq!['/'] + g.root_url@
                    + seq!['/'] + g.project@,
            }),
    {
        match self {
            Project::GitHubProject(github) => github.url_str(),
            Project::GitLabProject(gitlab) => gitlab.url_str(),
        }
    }
}

impl core::str::FromStr for GitHubProject {
    type Err = Error;

    fn from_str(s: &str) -> Result<GitHubProject, Error> {
        let parts: UrlParts = match parse_url_parts(s) {
            Ok(p) => p,
            Err(e) => {
                return Err(e);
            },
        };
        GitHubProject::try_from(s, &parts)
    }
}

impl core::str::FromStr for GitLabProject {
    type Err = Error;

    fn from_str(s: &str) -> Result<GitLabProject, Error> {
        let parts: UrlParts = match parse_url_parts(s) {
            Ok(p) => p,
            Err(e) => {
                return Err(e);
            },
        };
        GitLabProject::try_from(s, &parts)
    }
}

/// Whether a URL's parts name a GitHub project: the host is
/// `github.com` and the path holds at least two segments.
pub open spec fn github_deducible(host: Option<Seq<char>>, segs: Option<Seq<Seq<char>>>) -> bool {
    host == Some("github.com"@) && segs is Some && segs->Some_0.len() >= 2
}

/// Whether a URL's parts name a GitLab project: the host mentions
/// `gitlab` and the path holds at least two non-empty segments.
pub open spec fn gitlab_deducible(host: Option<Seq<char>>, segs: Option<Seq<Seq<char>>>) -> bool {
    &&& host is Some
    &&& contains_seq(host->Some_0, "gitlab"@)
    &&& segs is Some
    &&& nonempty_segments(segs->Some_0).len() >= 2
}

/// Deduces the hosting platform of the project at the given URL: GitHub
/// first, then GitLab; a URL matching neither platform is unrecognized.
pub fn try_from(url: &str) -> (r: Result<Project, Error>)
    ensures
        match r {
            Ok(p) => url_parts_of(url@) is Some && {
                let parts = url_parts_of(url@)->Some_0;
                match p {
                    Project::GitHubProject(g) => github_deducible(parts.0, parts.1),
                    Project::GitLabProject(g) => !github_deducible(parts.0, parts.1)
                        && gitlab_deducible(parts.0, parts.1),
                }
            },
            Err(e) => match e {
                Error::InvalidUrl(t) => url_parts_of(url@) is None && t@ == url@,
                Error::UnrecognizedProjectType(t) => url_parts_of(url@) is Some && {
                    let parts = url_parts_of(url@)->Some_0;
                    &&& !github_deducible(parts.0, parts.1)
                    &&& !gitlab_deducible(parts.0, parts.1)
                    &&& t@ == url@
                },
                _ => false,
            },
        },
{
    let parts: UrlParts = match parse_url_parts(url) {
        Ok(p) => p,
        Err(e) => {
            return Err(e);
        },
    };
    match GitHubProject::try_from(url, &parts) {
        Ok(g) => Ok(Project::GitHubProject(g)),
        Err(_) => match GitLabProject::try_from(url, &parts) {
            Ok(g) => Ok(Project::GitLabProject(g)),
            Err(_) => Err(Error::UnrecognizedProjectType(url.to_owned())),
        },
    }
}

/// One character of an SSH remote, normalized: `:` becomes `/`.
pub open spec fn remote_char(c: char) -> char {
    if c == ':' {
        '/'
    } else {
        c
    }
}

/// Whether `s` starts with the prefix `p`.
pub open spec fn starts_with_spec(s: Seq<char>, p: Seq<char>) -> bool {
    p.len() <= s.len() && s.take(p.len() as int) == p
}

/// Normalizes a Git remote URL to something the URL parser accepts: an
/// `http(s)` URL is kept as is; anything else is treated as an SSH
/// remote, with `:` turned into `/` and an `ssh://` scheme put in
/// front.
pub fn normalized_remote_url(u: &str) -> (r: String)
    ensures
        r@ == (if starts_with_spec(u@, "http://"@) || starts_with_spec(u@, "https://"@) {
            u@
        } else {
            "ssh://"@ + u@.map_values(|c: char| remote_char(c))
        }),
{
    let n: usize = u.unicode_len();
    let is_http: bool = starts_with_str(u, "http://") || starts_with_str(u, "https://");
    if is_http {
        return u.to_owned();
    }
    let mut out: String = String::new();
    out.append("ssh://");
    let mut i: usize = 0;
    proof {
        assert(u@.take(0).map_values(|c: char| remote_char(c)) =~= Seq::<char>::empty());
        assert(out@ =~= "ssh://"@ + u@.take(0).map_values(|c: char| remote_char(c)));
    }
    while i < n
        invariant
            i <= n,
            n == u@.len(),
            out@ == "ssh://"@ + u@.take(i as int).map_values(|c: char| remote_char(c)),
        decreases n - i,
    {
        let c: char = u.get_char(i);
        if c == ':' {
            crate::text::push_char(&mut out, '/');
        } else {
            crate::text::push_char(&mut out, c);
        }
        proof {
            let f = |c2: char| remote_char(c2);
            assert(u@.take(i as int + 1) =~= u@.take(i as int).push(u@[i as int]));
            assert(u@.take(i as int + 1).map_values(f) =~= u@.take(i as int).map_values(f).push(
                f(u@[i as int]),
            ));
            assert(out@ =~= "ssh://"@ + u@.take(i as int + 1).map_values(f));
        }
        i = i + 1;
    }
    proof {
        assert(u@.take(n as int) =~= u@);
    }
    out
}

/// Whether `s` starts with the prefix `p`.
pub fn starts_with_str(s: &str, p: &str) -> (r: bool)
    ensures
        r == (p@.len() <= s@.len() && s@.take(p@.len() as int) == p@),
{
    let sn: usize = s.unicode_len();
    let pn: usize = p.unicode_len();
    if pn > sn {
        return false;
    }
    proof {
        assert(p@.len() <= s@.len());
    }
    let head: &str = s.substring_char(0, pn);
    proof {
        assert(head@ =~= s@.take(p@.len() as int));
    }
    str_eq(head, p)
}

} // verus!
