//! Normalising a source URL into a GitHub owner and repository.

use vstd::prelude::*;
use vstd::string::*;
use crate::text::{
    chars_of, contains_chars, ends_with_chars, has_prefix, has_suffix, lower_of, lowercase,
    same_text, seq_contains, starts_with_chars,
};

verus! {

/// A GitHub repository named by its owner and repository segments.
#[derive(Clone, Debug, PartialEq, Eq)]
pub struct GithubRef {
    pub owner: String,
    pub repo: String,
}

impl View for GithubRef {
    type V = (Seq<char>, Seq<char>);

    open spec fn view(&self) -> (Seq<char>, Seq<char>) {
        (self.owner@, self.repo@)
    }
}

/// The view of an optional reference.
pub open spec fn ref_view(r: Option<GithubRef>) -> Option<(Seq<char>, Seq<char>)> {
    match r {
        Some(g) => Some(g@),
        None => None,
    }
}

/// What `url::Url::parse` makes of a string: on success its domain, if the host is
/// one, and its path.
pub uninterp spec fn parsed_url(s: Seq<char>) -> Option<(Option<Seq<char>>, Seq<char>)>;

/// The view of what `parse_url` returns.
pub open spec fn url_parts_view(r: Option<(Option<String>, String)>) -> Option<(Option<Seq<char>>, Seq<char>)> {
    match r {
        Some((d, p)) => Some(
            (
                match d {
                    Some(x) => Some(x@),
                    None => None,
                },
                p@,
            ),
        ),
        None => None,
    }
}

/// Relies on `url::Url::parse`, and on `Url::domain` and `Url::path` of the parsed
/// value: the domain and the path of an absolute URL, or nothing where it does not parse.
#[verifier::external_body]
fn parse_url(s: &str) -> (r: Option<(Option<String>, String)>)
    ensures
        url_parts_view(r) == parsed_url(s@),
{
    url::Url::parse(s).ok().map(|u| (u.domain().map(|d| d.to_string()), u.path().to_string()))
}

/// Position of the first `/` in `s`, or its length where there is none.
pub open spec fn first_slash(s: Seq<char>) -> int
    decreases s.len(),
{
    if s.len() == 0 {
        0
    } else if s[0] == '/' {
        0
    } else {
        1 + first_slash(s.drop_first())
    }
}

/// The characters of `s` before its first `/`.
pub open spec fn head_segment(s: Seq<char>) -> Seq<char> {
    s.subrange(0, first_slash(s))
}

/// The characters of `s` after its first `/`.
pub open spec fn after_first_slash(s: Seq<char>) -> Seq<char> {
    s.subrange(first_slash(s) + 1, s.len() as int)
}

/// A repository segment with one trailing `.`, or else a trailing `.git`, removed.
pub open spec fn strip_repo_suffix(s: Seq<char>) -> Seq<char> {
    if s.len() > 0 && s.last() == '.' {
        s.drop_last()
    } else if has_suffix(s, ".git"@) {
        s.subrange(0, s.len() - ".git"@.len())
    } else {
        s
    }
}

/// Owner and repository read from a path with its leading `/` removed: the first
/// segment is the owner; the second, if there is one, the repository, else the owner
/// again.
pub open spec fn owner_repo_of(rest: Seq<char>) -> (Seq<char>, Seq<char>) {
    let owner = head_segment(rest);
    if first_slash(rest) < rest.len() {
        (owner, strip_repo_suffix(head_segment(after_first_slash(rest))))
    } else {
        (owner, owner)
    }
}

/// Owner and repository of a GitHub source URL, in HTTPS or in SSH shorthand form;
/// `None` where the URL does not name GitHub.
pub open spec fn resolve_spec(link: Seq<char>) -> Option<(Seq<char>, Seq<char>)> {
    let lower = lower_of(link);
    if !seq_contains(lower, "github.com"@) {
        None
    } else {
        match parsed_url(link) {
            Some((domain, path)) => {
                if domain != Some("github.com"@) || path.len() == 0 || path[0] != '/' {
                    None
                } else {
                    Some(owner_repo_of(path.drop_first()))
                }
            },
            None => {
                if has_prefix(lower, "git@github.com:"@) {
                    Some(owner_repo_of(lower.subrange("git@github.com:"@.len() as int, lower.len() as int)))
                } else {
                    None
                }
            },
        }
    }
}

proof fn lemma_first_slash_bound(s: Seq<char>)
    ensures
        0 <= first_slash(s) <= s.len(),
        first_slash(s) < s.len() ==> s[first_slash(s)] == '/',
    decreases s.len(),
{
    if s.len() > 0 && s[0] != '/' {
        lemma_first_slash_bound(s.drop_first());
    }
}

proof fn lemma_first_slash_at(s: Seq<char>, i: int)
    requires
        0 <= i <= s.len(),
        forall|j: int| 0 <= j < i ==> s[j] != '/',
        i == s.len() || s[i] == '/',
    ensures
        first_slash(s) == i,
    decreases i,
{
    if i > 0 {
        lemma_first_slash_at(s.drop_first(), i - 1);
    }
}

/// Index of the first `/` in `v` at or after `from`, or the length of `v`.
fn find_slash(v: &Vec<char>, from: usize) -> (r: usize)
    requires
        from <= v@.len(),
    ensures
        from <= r <= v@.len(),
        r - from == first_slash(v@.subrange(from as int, v@.len() as int)),
{
    let n = v.len();
    let mut i = from;
    while i < n && v[i] != '/'
        invariant
            n == v@.len(),
            from <= i <= n,
            forall|j: int| from <= j < i ==> v@[j] != '/',
        decreases n - i,
    {
        i += 1;
    }
    proof {
        lemma_first_slash_at(v@.subrange(from as int, n as int), i - from);
    }
    i
}

/// End of the repository segment `v[start..end]` once its suffix is stripped.
fn repo_end(v: &Vec<char>, start: usize, end: usize) -> (r: usize)
    requires
        start <= end <= v@.len(),
    ensures
        start <= r <= end,
        v@.subrange(start as int, r as int) == strip_repo_suffix(v@.subrange(start as int, end as int)),
{
    let ghost seg = v@.subrange(start as int, end as int);
    if end > start && v[end - 1] == '.' {
        assert(v@.subrange(start as int, end - 1) =~= seg.drop_last());
        return end - 1;
    }
    let git = chars_of(".git");
    let mut seg_chars: Vec<char> = Vec::new();
    let mut i = start;
    while i < end
        invariant
            start <= i <= end <= v@.len(),
            seg_chars@ == v@.subrange(start as int, i as int),
        decreases end - i,
    {
        seg_chars.push(v[i]);
        i += 1;
        assert(seg_chars@ =~= v@.subrange(start as int, i as int));
    }
    if ends_with_chars(&seg_chars, &git) {
        assert(v@.subrange(start as int, (end - git.len()) as int) =~= seg.subrange(0, seg.len() - git@.len()));
        end - git.len()
    } else {
        end
    }
}

/// Owner and repository read from a path with its leading `/` removed.
fn owner_repo_from(rest: &str) -> (r: GithubRef)
    ensures
        r@ == owner_repo_of(rest@),
{
    let v = chars_of(rest);
    let n = v.len();
    let s1 = find_slash(&v, 0);
    assert(v@.subrange(0, n as int) =~= rest@);
    let owner = String::from_str(rest.substring_char(0, s1));
    if s1 < n {
        let s2 = find_slash(&v, s1 + 1);
        let e = repo_end(&v, s1 + 1, s2);
        let repo = String::from_str(rest.substring_char(s1 + 1, e));
        proof {
            let tail = after_first_slash(rest@);
            assert(tail =~= v@.subrange(s1 + 1, n as int));
            assert(head_segment(tail) =~= v@.subrange(s1 + 1, s2 as int));
        }
        GithubRef { owner, repo }
    } else {
        let repo = String::from_str(rest.substring_char(0, s1));
        GithubRef { owner, repo }
    }
}

/// Resolves a source URL to the GitHub owner and repository it names.
///
/// The lowercased URL must mention `github.com`. A URL that parses must have the
/// host `github.com`; its first path segment is the owner, its second the repository
/// (one trailing `.` or `.git` removed), and without a second the owner is taken as
/// the repository too. A URL that does not parse may be the SSH shorthand
/// `git@github.com:<owner>/<repo>`, read the same way from its lowercase form.
pub fn parse_github_owner_repo(link: &str) -> (r: Option<GithubRef>)
    ensures
        ref_view(r) == resolve_spec(link@),
{
    let lower = lowercase(link);
    let lc = chars_of(lower.as_str());
    let host = chars_of("github.com");
    if !contains_chars(&lc, &host) {
        return None;
    }
    match parse_url(link) {
        Some((domain, path)) => {
            let on_github = match &domain {
                Some(d) => same_text(d.as_str(), "github.com"),
                None => false,
            };
            if !on_github {
                return None;
            }
            let pc = chars_of(path.as_str());
            if pc.len() == 0 || pc[0] != '/' {
                return None;
            }
            let rest = path.as_str().substring_char(1, pc.len());
            assert(rest@ =~= path@.drop_first());
            Some(owner_repo_from(rest))
        },
        None => {
            let prefix = chars_of("git@github.com:");
            if !starts_with_chars(&lc, &prefix) {
                return None;
            }
            let rest = lower.as_str().substring_char(prefix.len(), lc.len());
            Some(owner_repo_from(rest))
        },
    }
}


/// Resolution depends on the characters of the URL alone: equal URLs resolve to the
/// same owner and repository, or both to nothing, on every call.
pub proof fn lemma_resolve_deterministic(a: Seq<char>, b: Seq<char>)
    requires
        a == b,
    ensures
        resolve_spec(a) == resolve_spec(b),
{
}

/// A path with a single segment names its owner as the repository too.
pub proof fn lemma_owner_only(rest: Seq<char>)
    requires
        forall|i: int| 0 <= i < rest.len() ==> rest[i] != '/',
    ensures
        owner_repo_of(rest) == (rest, rest),
{
    lemma_first_slash_at(rest, rest.len() as int);
    assert(rest.subrange(0, rest.len() as int) =~= rest);
}

/// A URL whose lowercase form does not mention `github.com` resolves to nothing.
pub proof fn lemma_not_github(link: Seq<char>)
    requires
        !seq_contains(lower_of(link), "github.com"@),
    ensures
        resolve_spec(link).is_none(),
{
}

} // verus!
