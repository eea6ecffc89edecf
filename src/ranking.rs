//! Ranking catalog entries by star count, and the local name of a repository.

use vstd::prelude::*;
use crate::registry::RegistryEntry;
use crate::text::chars_of;

verus! {

/// `s` without its trailing `/` characters.
pub open spec fn trim_slashes(s: Seq<char>) -> Seq<char>
    decreases s.len(),
{
    if s.len() > 0 && s.last() == '/' {
        trim_slashes(s.drop_last())
    } else {
        s
    }
}

/// `s` ends with `.git`.
pub open spec fn ends_with_git(s: Seq<char>) -> bool {
    s.len() >= 4 && s[s.len() - 4] == '.' && s[s.len() - 3] == 'g' && s[s.len() - 2] == 'i' && s[s.len()
        - 1] == 't'
}

/// `s` without its trailing `.git` suffixes.
pub open spec fn trim_git(s: Seq<char>) -> Seq<char>
    decreases s.len(),
{
    if ends_with_git(s) {
        trim_git(s.subrange(0, s.len() - 4))
    } else {
        s
    }
}

/// The characters of `s` after its last `/`; all of `s` where there is none.
pub open spec fn last_segment(s: Seq<char>) -> Seq<char>
    decreases s.len(),
{
    if s.len() == 0 {
        s
    } else if s.last() == '/' {
        seq![]
    } else {
        last_segment(s.drop_last()).push(s.last())
    }
}

/// The local name of a repository: the last path segment of its URL once the
/// trailing `/` characters and then the trailing `.git` suffixes are removed.
pub open spec fn repo_name_of(url: Seq<char>) -> Seq<char> {
    last_segment(trim_git(trim_slashes(url)))
}

/// The name under which a repository is stored locally, derived from its URL.
pub fn derive_repo_name(repo_url: &str) -> (r: String)
    ensures
        r@ == repo_name_of(repo_url@),
{
    let v = chars_of(repo_url);
    let ghost s = repo_url@;
    let mut e: usize = v.len();
    assert(s.subrange(0, e as int) =~= s);
    while e > 0 && v[e - 1] == '/'
        invariant
            v@ == s,
            e <= s.len(),
            trim_slashes(s) == trim_slashes(s.subrange(0, e as int)),
        decreases e,
    {
        assert(s.subrange(0, e as int).drop_last() =~= s.subrange(0, e - 1));
        e -= 1;
    }
    let ghost t = s.subrange(0, e as int);
    assert(trim_slashes(s) == t);
    while e >= 4 && v[e - 4] == '.' && v[e - 3] == 'g' && v[e - 2] == 'i' && v[e - 1] == 't'
        invariant
            v@ == s,
            e <= s.len(),
            trim_git(t) == trim_git(s.subrange(0, e as int)),
        decreases e,
    {
        assert(s.subrange(0, e as int).subrange(0, e - 4) =~= s.subrange(0, e - 4));
        e -= 4;
    }
    let ghost u = s.subrange(0, e as int);
    assert(trim_git(t) == u);
    let mut b: usize = e;
    assert(u.subrange(b as int, e as int) =~= seq![]);
    assert(last_segment(u) =~= last_segment(s.subrange(0, b as int)) + s.subrange(b as int, e as int));
    while b > 0 && v[b - 1] != '/'
        invariant
            v@ == s,
            b <= e <= s.len(),
            u == s.subrange(0, e as int),
            last_segment(u) == last_segment(s.subrange(0, b as int)) + s.subrange(b as int, e as int),
        decreases b,
    {
        assert(s.subrange(0, b as int).drop_last() =~= s.subrange(0, b - 1));
        assert(s.subrange(b - 1, e as int) =~= seq![s[b - 1]] + s.subrange(b as int, e as int));
        b -= 1;
        assert(last_segment(u) =~= last_segment(s.subrange(0, b as int)) + s.subrange(b as int, e as int));
    }
    assert(last_segment(s.subrange(0, b as int)) =~= seq![]);
    assert(last_segment(u) =~= s.subrange(b as int, e as int));
    String::from_str(repo_url.substring_char(b, e))
}


/// A catalog row: an entry with its star count and whether it is installed locally.
#[derive(Clone, Debug, PartialEq, Eq)]
pub struct RankedEntry {
    pub type_tag: String,
    pub source_url: String,
    pub stars: u64,
    pub installed: bool,
}

/// Rows ordered by star count, most first.
pub open spec fn sorted_by_stars(s: Seq<RankedEntry>) -> bool {
    forall|i: int, j: int| 0 <= i < j < s.len() ==> #[trigger] s[i].stars >= #[trigger] s[j].stars
}

/// Holds of the rows with exactly `v` stars.
pub open spec fn has_stars(v: u64) -> spec_fn(RankedEntry) -> bool {
    |e: RankedEntry| e.stars == v
}

/// The rows with exactly `v` stars, in their order.
pub open spec fn with_stars(s: Seq<RankedEntry>, v: u64) -> Seq<RankedEntry> {
    s.filter(has_stars(v))
}

/// The row of entry `i`: its star count and installation flag where the lists give
/// one, else zero stars and not installed.
pub open spec fn catalog_row(
    entries: Seq<RegistryEntry>,
    stars: Seq<u64>,
    installed: Seq<bool>,
    i: int,
) -> RankedEntry {
    RankedEntry {
        type_tag: entries[i].type_tag,
        source_url: entries[i].source_url,
        stars: if i < stars.len() { stars[i] } else { 0 },
        installed: if i < installed.len() { installed[i] } else { false },
    }
}

proof fn lemma_with_stars_concat(a: Seq<RankedEntry>, b: Seq<RankedEntry>, v: u64)
    ensures
        with_stars(a + b, v) == with_stars(a, v) + with_stars(b, v),
{
    Seq::filter_distributes_over_add(a, b, has_stars(v));
}

proof fn lemma_with_stars_none(a: Seq<RankedEntry>, v: u64)
    requires
        forall|i: int| 0 <= i < a.len() ==> (#[trigger] a[i]).stars != v,
    ensures
        with_stars(a, v) == Seq::<RankedEntry>::empty(),
    decreases a.len(),
{
    reveal(Seq::filter);
    if a.len() > 0 {
        lemma_with_stars_none(a.drop_last(), v);
    }
}

proof fn lemma_with_stars_one(x: RankedEntry, v: u64)
    ensures
        with_stars(seq![x], v) == if x.stars == v { seq![x] } else { Seq::<RankedEntry>::empty() },
{
    reveal(Seq::filter);
    assert(seq![x].drop_last() =~= Seq::<RankedEntry>::empty());
    assert(with_stars(seq![x].drop_last(), v) =~= Seq::<RankedEntry>::empty());
}

/// Orders rows by star count, most first; rows with equal counts keep the order
/// they came in.
pub fn rank(rows: Vec<RankedEntry>) -> (r: Vec<RankedEntry>)
    ensures
        r@.len() == rows@.len(),
        sorted_by_stars(r@),
        forall|v: u64| #[trigger] with_stars(r@, v) == with_stars(rows@, v),
{
    let ghost orig = rows@;
    let mut rest = rows;
    let mut out: Vec<RankedEntry> = Vec::new();
    assert(orig.subrange(orig.len() as int, orig.len() as int) =~= Seq::<RankedEntry>::empty());
    proof {
        assert forall|v: u64| #[trigger] with_stars(out@, v) == with_stars(orig.subrange(orig.len() as int, orig.len() as int), v) by {
            lemma_with_stars_none(out@, v);
            lemma_with_stars_none(orig.subrange(orig.len() as int, orig.len() as int), v);
        }
    }
    while rest.len() > 0
        invariant
            rest@ == orig.subrange(0, rest@.len() as int),
            out@.len() + rest@.len() == orig.len(),
            sorted_by_stars(out@),
            forall|v: u64| #[trigger] with_stars(out@, v) == with_stars(orig.subrange(rest@.len() as int, orig.len() as int), v),
        decreases rest@.len(),
    {
        let ghost k = (rest@.len() - 1) as int;
        let ghost before = out@;
        let x = rest.pop().unwrap();
        assert(x == orig[k]);
        let mut p: usize = 0;
        while p < out.len() && out[p].stars > x.stars
            invariant
                out@ == before,
                p <= out@.len(),
                forall|q: int| 0 <= q < p ==> (#[trigger] out@[q]).stars > x.stars,
            decreases out@.len() - p,
        {
            p += 1;
        }
        let ghost xs = x.stars;
        let ghost xv = x;
        out.insert(p, x);
        proof {
            let lo = before.subrange(0, p as int);
            let hi = before.subrange(p as int, before.len() as int);
            assert(out@ =~= lo + seq![xv] + hi);
            assert(before =~= lo + hi);
            assert forall|q: int| 0 <= q < hi.len() implies (#[trigger] hi[q]).stars <= xs by {
                if q > 0 {
                    assert(before[p as int].stars >= before[p + q].stars);
                }
            }
            assert forall|i: int, j: int| 0 <= i < j < out@.len() implies #[trigger] out@[i].stars >= #[trigger] out@[j].stars by {
                if j < p {
                } else if j == p {
                } else if i < p {
                    assert(out@[j] == before[j - 1]);
                } else if i == p {
                    assert(out@[j] == hi[j - p - 1]);
                } else {
                    assert(out@[i] == before[i - 1]);
                    assert(out@[j] == before[j - 1]);
                }
            }
            let done_old = orig.subrange(k + 1, orig.len() as int);
            let done_new = orig.subrange(k, orig.len() as int);
            assert(done_new =~= seq![xv] + done_old);
            assert forall|v: u64| #[trigger] with_stars(out@, v) == with_stars(done_new, v) by {
                lemma_with_stars_concat(lo + seq![xv], hi, v);
                lemma_with_stars_concat(lo, seq![xv], v);
                lemma_with_stars_concat(lo, hi, v);
                lemma_with_stars_concat(seq![xv], done_old, v);
                lemma_with_stars_one(xv, v);
                assert(with_stars(before, v) == with_stars(done_old, v));
                if v == xs {
                    lemma_with_stars_none(lo, v);
                    assert(with_stars(out@, v) =~= seq![xv] + with_stars(hi, v));
                    assert(with_stars(before, v) =~= with_stars(hi, v));
                } else {
                    assert(with_stars(out@, v) =~= with_stars(lo, v) + with_stars(hi, v));
                    assert(with_stars(done_new, v) =~= with_stars(done_old, v));
                }
            }
        }
    }
    assert(orig.subrange(0, orig.len() as int) =~= orig);
    out
}

/// The catalog: one row per entry, with its star count and installation flag taken
/// by position (zero stars and not installed where a list falls short), ordered by
/// star count, most first, entries with equal counts in registry order.
pub fn rank_catalog(entries: &Vec<RegistryEntry>, stars: &Vec<u64>, installed: &Vec<bool>) -> (r: Vec<RankedEntry>)
    ensures
        r@.len() == entries@.len(),
        sorted_by_stars(r@),
        forall|v: u64|
            #[trigger] with_stars(r@, v) == with_stars(
                Seq::new(entries@.len(), |i: int| catalog_row(entries@, stars@, installed@, i)),
                v,
            ),
{
    let mut rows: Vec<RankedEntry> = Vec::new();
    let mut i: usize = 0;
    while i < entries.len()
        invariant
            i <= entries@.len(),
            rows@ == Seq::new(i as nat, |j: int| catalog_row(entries@, stars@, installed@, j)),
        decreases entries@.len() - i,
    {
        let s = if i < stars.len() {
            stars[i]
        } else {
            0
        };
        let f = if i < installed.len() {
            installed[i]
        } else {
            false
        };
        rows.push(
            RankedEntry {
                type_tag: entries[i].type_tag.clone(),
                source_url: entries[i].source_url.clone(),
                stars: s,
                installed: f,
            },
        );
        i += 1;
        assert(rows@ =~= Seq::new(i as nat, |j: int| catalog_row(entries@, stars@, installed@, j)));
    }
    rank(rows)
}

} // verus!
