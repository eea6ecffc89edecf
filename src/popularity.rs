//! Star counts for a list of source URLs: a bulk GraphQL path in chunks, and a
//! per-item REST path that it falls back to.
//!
//! The lookup is a state machine. The caller asks it for the next request, performs
//! that request, and hands back the reply; the machine decides what comes next and
//! where each star count goes. A failed request never ends the lookup: it only turns
//! into a zero, or, on the bulk path, into the per-item path.

use vstd::prelude::*;
use crate::github::{parse_github_owner_repo, ref_view, resolve_spec, GithubRef};
use crate::text::{append_decimal, append_escaped, decimal, escape_quotes};

verus! {

/// Whether `serde_json::from_str` accepts the text as a JSON value.
pub uninterp spec fn json_parses(body: Seq<char>) -> bool;

/// The unsigned integer that the JSON text holds at a JSON pointer, if any.
pub uninterp spec fn json_u64_at(body: Seq<char>, pointer: Seq<char>) -> Option<u64>;

/// The JSON string literal that encodes the given characters.
pub uninterp spec fn json_string_of(s: Seq<char>) -> Seq<char>;

/// Relies on `serde_json::from_str` into `serde_json::Value`: whether the text is JSON.
#[verifier::external_body]
fn is_json(body: &str) -> (r: bool)
    ensures
        r == json_parses(body@),
{
    serde_json::from_str::<serde_json::Value>(body).is_ok()
}

/// Relies on `serde_json::from_str`, `Value::pointer` and `Value::as_u64`: the
/// unsigned integer at `pointer` in the parsed text; nothing where the text is not JSON.
#[verifier::external_body]
fn u64_at_pointer(body: &str, pointer: &str) -> (r: Option<u64>)
    ensures
        r == json_u64_at(body@, pointer@),
{
    serde_json::from_str::<serde_json::Value>(body).ok().and_then(
        |v| v.pointer(pointer).and_then(|n| n.as_u64()),
    )
}

/// Relies on the `Display` form of `serde_json::Value::String`: the JSON string
/// literal that encodes `s`.
#[verifier::external_body]
fn json_string(s: &str) -> (r: String)
    ensures
        r@ == json_string_of(s@),
{
    serde_json::Value::String(s.to_string()).to_string()
}

/// Most repositories that one bulk request asks for.
pub const CHUNK_SIZE: usize = 50;

/// Number of bulk requests for `n` resolved repositories.
pub open spec fn chunk_count(n: nat) -> nat {
    n / 50 + if n % 50 == 0 { 0nat } else { 1nat }
}

/// Index of the first repository of chunk `k`.
pub open spec fn chunk_start(k: nat) -> nat {
    50 * k
}

/// Index one past the last repository of chunk `k`, of `n` in all.
pub open spec fn chunk_end(n: nat, k: nat) -> nat {
    if 50 * k + 50 <= n {
        50 * k + 50
    } else {
        n
    }
}

/// The alias under which the `i`-th repository of a chunk is asked for.
pub open spec fn alias_of(i: nat) -> Seq<char> {
    "r"@ + decimal(i)
}

/// The part of a bulk query that asks for the star count of one repository.
pub open spec fn repo_query(i: nat, g: (Seq<char>, Seq<char>)) -> Seq<char> {
    alias_of(i) + ": repository(owner:\""@ + escape_quotes(g.0) + "\", name:\""@ + escape_quotes(
        g.1,
    ) + "\") { stargazerCount } "@
}

/// The parts of a bulk query for the given repositories, aliased by position.
pub open spec fn query_parts(refs: Seq<(Seq<char>, Seq<char>)>) -> Seq<char>
    decreases refs.len(),
{
    if refs.len() == 0 {
        seq![]
    } else {
        query_parts(refs.drop_last()) + repo_query((refs.len() - 1) as nat, refs.last())
    }
}

/// The GraphQL query for the given repositories.
pub open spec fn chunk_query(refs: Seq<(Seq<char>, Seq<char>)>) -> Seq<char> {
    "query { "@ + query_parts(refs) + "}"@
}

/// The JSON body of a bulk request for the given repositories.
pub open spec fn graphql_body(refs: Seq<(Seq<char>, Seq<char>)>) -> Seq<char> {
    "{\"query\":"@ + json_string_of(chunk_query(refs)) + "}"@
}

/// Where a bulk reply holds the star count of the `i`-th repository of its chunk.
pub open spec fn alias_pointer(i: nat) -> Seq<char> {
    "/data/"@ + alias_of(i) + "/stargazerCount"@
}

/// The REST endpoint of one repository.
pub open spec fn rest_url_of(g: (Seq<char>, Seq<char>)) -> Seq<char> {
    "https://api.github.com/repos/"@ + g.0 + "/"@ + g.1
}

/// A star count read from a reply, zero where it is absent.
pub open spec fn star_value(v: Option<u64>) -> u64 {
    match v {
        Some(n) => n,
        None => 0,
    }
}

/// The request the caller is to perform next.
#[derive(Debug)]
pub enum Request {
    /// POST this body to the GraphQL endpoint, with the credential.
    Graphql { body: String },
    /// GET this REST endpoint.
    Rest { url: String },
    /// Nothing is left to ask.
    Finished,
}

/// What came back from a request: a body, or a failure of the transport or a status
/// outside the success range.
#[derive(Debug)]
pub enum Reply {
    Body(String),
    Failed,
}

/// The text of a reply; empty for a failure.
pub open spec fn reply_text(reply: Reply) -> Seq<char> {
    match reply {
        Reply::Body(b) => b@,
        Reply::Failed => seq![],
    }
}

/// A bulk reply is used when it arrived and is JSON.
pub open spec fn bulk_reply_ok(reply: Reply) -> bool {
    match reply {
        Reply::Body(b) => json_parses(b@),
        Reply::Failed => false,
    }
}

/// The star count that a REST reply gives; zero for a failure or a missing field.
pub open spec fn rest_stars(reply: Reply) -> u64 {
    match reply {
        Reply::Body(b) => star_value(json_u64_at(b@, "/stargazers_count"@)),
        Reply::Failed => 0,
    }
}

/// Where a lookup stands.
#[derive(Clone, Copy, Debug, PartialEq, Eq, Structural)]
pub enum Phase {
    /// The bulk path; the next request asks for chunk `chunk`.
    Bulk { chunk: usize },
    /// The per-item path; the next request asks for repository `item`.
    PerItem { item: usize },
    /// Every star count is known.
    Done,
}

/// Phase, star counts of the resolved repositories and the bulk-failure flag after a
/// reply, for `n` resolved repositories.
pub open spec fn after_reply(
    phase: Phase,
    stars: Seq<u64>,
    failed: bool,
    n: nat,
    reply: Reply,
) -> (Phase, Seq<u64>, bool) {
    match phase {
        Phase::Bulk { chunk } => {
            let k = chunk as nat;
            if bulk_reply_ok(reply) {
                let next = if k + 1 < chunk_count(n) {
                    Phase::Bulk { chunk: (k + 1) as usize }
                } else {
                    Phase::Done
                };
                let filled = Seq::new(
                    n,
                    |j: int|
                        if chunk_start(k) <= j < chunk_end(n, k) {
                            star_value(json_u64_at(reply_text(reply), alias_pointer((j - chunk_start(k)) as nat)))
                        } else {
                            stars[j]
                        },
                );
                (next, filled, failed)
            } else {
                (Phase::PerItem { item: 0 }, Seq::new(n, |j: int| 0u64), true)
            }
        },
        Phase::PerItem { item } => {
            let next = if item + 1 < n {
                Phase::PerItem { item: (item + 1) as usize }
            } else {
                Phase::Done
            };
            (next, stars.update(item as int, rest_stars(reply)), failed)
        },
        Phase::Done => (phase, stars, failed),
    }
}

/// A popularity lookup over a list of source URLs.
pub struct StarLookup {
    links: Vec<String>,
    slots: Vec<Option<usize>>,
    items: Vec<(usize, GithubRef)>,
    stars: Vec<u64>,
    phase: Phase,
    bulk_failed: bool,
}

impl StarLookup {
    /// The source URLs looked up.
    pub closed spec fn links(&self) -> Seq<Seq<char>> {
        self.links.deep_view()
    }

    /// The resolvable source URLs, in order: each with its index among the links and
    /// its owner and repository.
    pub closed spec fn items(&self) -> Seq<(int, (Seq<char>, Seq<char>))> {
        self.items@.map_values(|it: (usize, GithubRef)| (it.0 as int, it.1@))
    }

    /// Owner and repository of each resolvable source URL, in order.
    pub open spec fn refs(&self) -> Seq<(Seq<char>, Seq<char>)> {
        self.items().map_values(|it: (int, (Seq<char>, Seq<char>))| it.1)
    }

    /// For each source URL, its position among the resolvable ones.
    pub closed spec fn slots(&self) -> Seq<Option<usize>> {
        self.slots@
    }

    /// Star count of each resolvable source URL so far.
    pub closed spec fn item_stars(&self) -> Seq<u64> {
        self.stars@
    }

    pub closed spec fn phase(&self) -> Phase {
        self.phase
    }

    /// Whether the bulk path failed and the lookup fell back to the per-item path.
    pub closed spec fn failed(&self) -> bool {
        self.bulk_failed
    }

    /// The items are exactly the resolvable links, in order, and each link knows its
    /// item; the phase points at a chunk or an item that exists.
    pub open spec fn wf(&self) -> bool {
        let n = self.items().len();
        &&& self.slots().len() == self.links().len()
        &&& self.item_stars().len() == n
        &&& forall|j: int| 0 <= j < n ==> {
            let x = #[trigger] self.items()[j].0;
            &&& 0 <= x < self.links().len()
            &&& self.slots()[x] == Some(j as usize)
            &&& resolve_spec(self.links()[x]) == Some(self.items()[j].1)
        }
        &&& forall|j: int, l: int| 0 <= j < l < n ==> #[trigger] self.items()[j].0 < #[trigger] self.items()[l].0
        &&& forall|x: int| 0 <= x < self.links().len() ==> match #[trigger] self.slots()[x] {
            Some(j) => j < n && self.items()[j as int].0 == x,
            None => resolve_spec(self.links()[x]).is_none(),
        }
        &&& match self.phase() {
            Phase::Bulk { chunk } => chunk < chunk_count(n),
            Phase::PerItem { item } => item < n,
            Phase::Done => true,
        }
    }

    /// How many more requests the lookup may make at most.
    pub open spec fn remaining(&self) -> nat {
        let n = self.items().len();
        match self.phase() {
            Phase::Bulk { chunk } => (chunk_count(n) - chunk) as nat + n,
            Phase::PerItem { item } => (n - item) as nat,
            Phase::Done => 0,
        }
    }
}


/// Chunk `k` of `n` resolved repositories is a non-empty run of at most 50 that lies
/// within the `n`.
proof fn lemma_chunk_bounds(n: nat, k: nat)
    requires
        k < chunk_count(n),
    ensures
        chunk_start(k) < chunk_end(n, k) <= n,
        chunk_end(n, k) - chunk_start(k) <= 50,
{
    assert(n == 50 * (n / 50) + n % 50) by (nonlinear_arith);
    if n % 50 == 0 {
        assert(k + 1 <= n / 50);
        assert(50 * k + 50 <= 50 * (n / 50)) by (nonlinear_arith)
            requires
                k + 1 <= n / 50,
        ;
    } else {
        assert(k <= n / 50);
        assert(50 * k <= 50 * (n / 50)) by (nonlinear_arith)
            requires
                k <= n / 50,
        ;
    }
}

/// Appends the bulk-query part for repository `g` under the alias of position `i`.
fn append_repo_query(out: &mut String, i: usize, g: &GithubRef)
    ensures
        final(out)@ == old(out)@ + repo_query(i as nat, g@),
{
    out.append("r");
    append_decimal(out, i as u64);
    out.append(": repository(owner:\"");
    append_escaped(out, g.owner.as_str());
    out.append("\", name:\"");
    append_escaped(out, g.repo.as_str());
    out.append("\") { stargazerCount } ");
    assert(final(out)@ =~= old(out)@ + repo_query(i as nat, g@));
}

/// The JSON pointer to the star count of position `i` in a bulk reply.
fn alias_pointer_text(i: usize) -> (r: String)
    ensures
        r@ == alias_pointer(i as nat),
{
    let mut p = String::from_str("/data/");
    p.append("r");
    append_decimal(&mut p, i as u64);
    p.append("/stargazerCount");
    assert(p@ =~= alias_pointer(i as nat));
    p
}

impl StarLookup {
    /// Starts a lookup over `links`. Each link is resolved once; those that do not
    /// name a GitHub repository keep a star count of zero and are never asked for.
    /// With a credential the lookup begins on the bulk path, without one on the
    /// per-item path; with nothing resolvable it is done at once.
    pub fn new(links: Vec<String>, has_credential: bool) -> (r: Self)
        ensures
            r.wf(),
            r.links() == links.deep_view(),
            r.item_stars() == Seq::new(r.items().len(), |j: int| 0u64),
            !r.failed(),
            r.phase() == if r.items().len() == 0 {
                Phase::Done
            } else if has_credential {
                Phase::Bulk { chunk: 0 }
            } else {
                Phase::PerItem { item: 0 }
            },
    {
        let ghost lv = links.deep_view();
        let mut slots: Vec<Option<usize>> = Vec::new();
        let mut items: Vec<(usize, GithubRef)> = Vec::new();
        let mut stars: Vec<u64> = Vec::new();
        let mut x: usize = 0;
        while x < links.len()
            invariant
                lv == links.deep_view(),
                lv.len() == links@.len(),
                x <= links@.len(),
                slots@.len() == x,
                stars@.len() == items@.len(),
                forall|j: int| 0 <= j < stars@.len() ==> stars@[j] == 0,
                forall|j: int| 0 <= j < items@.len() ==> {
                    let y = (#[trigger] items@[j]).0 as int;
                    &&& 0 <= y < x
                    &&& slots@[y] == Some(j as usize)
                    &&& resolve_spec(lv[y]) == Some(items@[j].1@)
                },
                forall|j: int, l: int| 0 <= j < l < items@.len() ==> #[trigger] items@[j].0 < #[trigger] items@[l].0,
                forall|y: int| 0 <= y < x ==> match #[trigger] slots@[y] {
                    Some(j) => j < items@.len() && items@[j as int].0 == y,
                    None => resolve_spec(lv[y]).is_none(),
                },
            decreases links@.len() - x,
        {
            assert(lv[x as int] == links@[x as int]@);
            match parse_github_owner_repo(links[x].as_str()) {
                Some(g) => {
                    slots.push(Some(items.len()));
                    items.push((x, g));
                    stars.push(0);
                },
                None => {
                    slots.push(None);
                },
            }
            x += 1;
        }
        let phase = if items.len() == 0 {
            Phase::Done
        } else if has_credential {
            Phase::Bulk { chunk: 0 }
        } else {
            Phase::PerItem { item: 0 }
        };
        let r = StarLookup { links, slots, items, stars, phase, bulk_failed: false };
        assert(r.item_stars() =~= Seq::new(r.items().len(), |j: int| 0u64));
        r
    }

    /// Whether every star count is known.
    pub fn is_done(&self) -> (r: bool)
        ensures
            r == (self.phase() == Phase::Done),
    {
        match self.phase {
            Phase::Done => true,
            _ => false,
        }
    }

    /// Whether the bulk path failed, so that the caller can warn about it once.
    pub fn bulk_failed(&self) -> (r: bool)
        ensures
            r == self.failed(),
    {
        self.bulk_failed
    }

    /// The JSON body of the bulk request for items `start..end`.
    fn bulk_body(&self, start: usize, end: usize) -> (r: String)
        requires
            self.wf(),
            start <= end <= self.items().len(),
        ensures
            r@ == graphql_body(self.refs().subrange(start as int, end as int)),
    {
        let ghost refs = self.refs();
        let mut q = String::from_str("query { ");
        let mut j = start;
        while j < end
            invariant
                refs == self.refs(),
                refs.len() == self.items@.len(),
                start <= j <= end <= refs.len(),
                q@ == "query { "@ + query_parts(refs.subrange(start as int, j as int)),
            decreases end - j,
        {
            let ghost sub = refs.subrange(start as int, j + 1);
            assert(sub.drop_last() =~= refs.subrange(start as int, j as int));
            assert(sub.last() == self.items@[j as int].1@);
            append_repo_query(&mut q, j - start, &self.items[j].1);
            j += 1;
            assert(q@ =~= "query { "@ + query_parts(refs.subrange(start as int, j as int)));
        }
        q.append("}");
        let quoted = json_string(q.as_str());
        let mut body = String::from_str("{\"query\":");
        body.append(quoted.as_str());
        body.append("}");
        assert(body@ =~= graphql_body(refs.subrange(start as int, end as int)));
        body
    }

    /// The request to perform next: the bulk request for the current chunk, the REST
    /// request for the current repository, or none once the lookup is done.
    pub fn next_request(&self) -> (r: Request)
        requires
            self.wf(),
        ensures
            match self.phase() {
                Phase::Bulk { chunk } => r matches Request::Graphql { body } && body@ == graphql_body(
                    self.refs().subrange(
                        chunk_start(chunk as nat) as int,
                        chunk_end(self.items().len(), chunk as nat) as int,
                    ),
                ),
                Phase::PerItem { item } => r matches Request::Rest { url } && url@ == rest_url_of(
                    self.refs()[item as int],
                ),
                Phase::Done => r matches Request::Finished,
            },
    {
        match self.phase {
            Phase::Bulk { chunk } => {
                let n = self.items.len();
                proof {
                    lemma_chunk_bounds(n as nat, chunk as nat);
                }
                let start = chunk * CHUNK_SIZE;
                let end = if n - start >= CHUNK_SIZE {
                    start + CHUNK_SIZE
                } else {
                    n
                };
                Request::Graphql { body: self.bulk_body(start, end) }
            },
            Phase::PerItem { item } => {
                let g = &self.items[item].1;
                let mut url = String::from_str("https://api.github.com/repos/");
                url.append(g.owner.as_str());
                url.append("/");
                url.append(g.repo.as_str());
                assert(self.refs()[item as int] == g@);
                assert(url@ =~= rest_url_of(g@));
                Request::Rest { url }
            },
            Phase::Done => Request::Finished,
        }
    }
}


impl StarLookup {
    /// Takes the reply to the request that `next_request` gave, and moves on.
    ///
    /// On the bulk path a reply that arrived and is JSON gives each repository of the
    /// chunk the star count under its positional alias, or zero where that is absent;
    /// any other reply discards every bulk result, marks the bulk path as failed and
    /// starts the per-item path from the first repository. On the per-item path the
    /// repository gets the star count of the reply, or zero where the request failed,
    /// the body is not JSON or the field is absent. Every reply brings the lookup
    /// closer to its end.
    pub fn on_reply(&mut self, reply: Reply)
        requires
            old(self).wf(),
        ensures
            final(self).wf(),
            final(self).links() == old(self).links(),
            final(self).items() == old(self).items(),
            final(self).slots() == old(self).slots(),
            (final(self).phase(), final(self).item_stars(), final(self).failed()) == after_reply(
                old(self).phase(),
                old(self).item_stars(),
                old(self).failed(),
                old(self).items().len(),
                reply,
            ),
            old(self).phase() != Phase::Done ==> final(self).remaining() < old(self).remaining(),
    {
        let n = self.items.len();
        match self.phase {
            Phase::Bulk { chunk } => {
                let ok = match &reply {
                    Reply::Body(b) => is_json(b.as_str()),
                    Reply::Failed => false,
                };
                if ok {
                    proof {
                        lemma_chunk_bounds(n as nat, chunk as nat);
                    }
                    let start = chunk * CHUNK_SIZE;
                    let end = if n - start >= CHUNK_SIZE {
                        start + CHUNK_SIZE
                    } else {
                        n
                    };
                    let body: &str = match &reply {
                        Reply::Body(b) => b.as_str(),
                        Reply::Failed => "",
                    };
                    assert(body@ == reply_text(reply));
                    let ghost old_stars = self.stars@;
                    let mut j = start;
                    while j < end
                        invariant
                            n == self.items@.len(),
                            self.links == old(self).links,
                            self.items == old(self).items,
                            self.slots == old(self).slots,
                            self.phase == old(self).phase,
                            self.bulk_failed == old(self).bulk_failed,
                            start == chunk_start(chunk as nat),
                            end == chunk_end(n as nat, chunk as nat),
                            start <= j <= end <= n,
                            body@ == reply_text(reply),
                            self.stars@.len() == n,
                            old_stars.len() == n,
                            forall|i: int|
                                0 <= i < n ==> #[trigger] self.stars@[i] == if start <= i < j {
                                    star_value(json_u64_at(body@, alias_pointer((i - start) as nat)))
                                } else {
                                    old_stars[i]
                                },
                        decreases end - j,
                    {
                        let p = alias_pointer_text(j - start);
                        let val = match u64_at_pointer(body, p.as_str()) {
                            Some(c) => c,
                            None => 0,
                        };
                        self.stars[j] = val;
                        j += 1;
                    }
                    self.phase = if chunk + 1 < n / CHUNK_SIZE + if n % CHUNK_SIZE == 0 { 0 } else { 1 } {
                        Phase::Bulk { chunk: chunk + 1 }
                    } else {
                        Phase::Done
                    };
                    let ghost want = after_reply(old(self).phase(), old_stars, old(self).failed(), n as nat, reply);
                    assert(self.stars@ =~= want.1);
                } else {
                    let mut zeros: Vec<u64> = Vec::new();
                    while zeros.len() < n
                        invariant
                            zeros@.len() <= n,
                            forall|i: int| 0 <= i < zeros@.len() ==> zeros@[i] == 0,
                        decreases n - zeros@.len(),
                    {
                        zeros.push(0);
                    }
                    self.stars = zeros;
                    self.bulk_failed = true;
                    self.phase = Phase::PerItem { item: 0 };
                    assert(self.stars@ =~= Seq::new(n as nat, |j: int| 0u64));
                }
            },
            Phase::PerItem { item } => {
                let val = match &reply {
                    Reply::Body(b) => match u64_at_pointer(b.as_str(), "/stargazers_count") {
                        Some(c) => c,
                        None => 0,
                    },
                    Reply::Failed => 0,
                };
                self.stars[item] = val;
                self.phase = if item + 1 < n {
                    Phase::PerItem { item: item + 1 }
                } else {
                    Phase::Done
                };
            },
            Phase::Done => {},
        }
    }

    /// The star count of each source URL, in the order of the links: the count found
    /// for it if it names a GitHub repository, else zero.
    pub fn stars_by_link(&self) -> (r: Vec<u64>)
        requires
            self.wf(),
        ensures
            r@.len() == self.links().len(),
            forall|x: int|
                0 <= x < r@.len() ==> #[trigger] r@[x] == match self.slots()[x] {
                    Some(j) => self.item_stars()[j as int],
                    None => 0,
                },
            forall|x: int| 0 <= x < r@.len() && resolve_spec(self.links()[x]).is_none() ==> #[trigger] r@[x] == 0,
    {
        let mut r: Vec<u64> = Vec::new();
        let mut x: usize = 0;
        while x < self.slots.len()
            invariant
                self.wf(),
                x <= self.slots@.len(),
                r@.len() == x,
                forall|y: int|
                    0 <= y < x ==> #[trigger] r@[y] == match self.slots()[y] {
                        Some(j) => self.item_stars()[j as int],
                        None => 0,
                    },
            decreases self.slots@.len() - x,
        {
            let v = match self.slots[x] {
                Some(j) => self.stars[j],
                None => 0,
            };
            r.push(v);
            x += 1;
        }
        assert forall|x: int| 0 <= x < r@.len() && resolve_spec(self.links()[x]).is_none() implies #[trigger] r@[x] == 0 by {
            match self.slots()[x] {
                Some(j) => {
                    assert(resolve_spec(self.links()[x]) == Some(self.items()[j as int].1));
                },
                None => {},
            }
        }
        r
    }
}


/// `n` resolved repositories go out in `chunk_count(n)` bulk requests, the ceiling of
/// `n / 50`: consecutive runs that start at the first repository and end at the
/// last, each non-empty, each of 50 but the last, which holds the rest.
pub proof fn lemma_chunks_partition(n: nat)
    ensures
        chunk_count(n) == (n + 49) / 50,
        n == 0 <==> chunk_count(n) == 0,
        n > 0 ==> chunk_start(0) == 0 && chunk_end(n, (chunk_count(n) - 1) as nat) == n,
        forall|k: nat| k < chunk_count(n) ==> chunk_start(k) < #[trigger] chunk_end(n, k) <= n,
        forall|k: nat|
            k + 1 < chunk_count(n) ==> #[trigger] chunk_end(n, k) == chunk_start(k + 1) && chunk_end(n, k)
                - chunk_start(k) == 50,
        forall|k: nat| k < chunk_count(n) ==> #[trigger] chunk_end(n, k) - chunk_start(k) <= 50,
{
    assert(n == 50 * (n / 50) + n % 50) by (nonlinear_arith);
    assert forall|k: nat| k < chunk_count(n) implies chunk_start(k) < #[trigger] chunk_end(n, k) <= n
        && chunk_end(n, k) - chunk_start(k) <= 50 by {
        lemma_chunk_bounds(n, k);
    }
    assert forall|k: nat| k + 1 < chunk_count(n) implies #[trigger] chunk_end(n, k) == chunk_start(k + 1)
        && chunk_end(n, k) - chunk_start(k) == 50 by {
        lemma_chunk_bounds(n, k + 1);
    }
    if n > 0 {
        let last = (chunk_count(n) - 1) as nat;
        lemma_chunk_bounds(n, last);
        if n % 50 == 0 {
            assert(50 * last + 50 == 50 * (n / 50)) by (nonlinear_arith)
                requires
                    last + 1 == n / 50,
            ;
        } else {
            assert(50 * last + 50 > 50 * (n / 50) + n % 50) by (nonlinear_arith)
                requires
                    last == n / 50,
                    n % 50 < 50,
            ;
        }
    }
}


/// Whatever reply comes back, a failure of every kind included, the lookup keeps
/// exactly one star count for each resolvable URL, and it is never left waiting on a
/// chunk or an item that does not exist.
pub proof fn lemma_every_reply_keeps_counts(phase: Phase, stars: Seq<u64>, failed: bool, n: nat, reply: Reply)
    requires
        stars.len() == n,
        match phase {
            Phase::Bulk { chunk } => chunk < chunk_count(n),
            Phase::PerItem { item } => item < n,
            Phase::Done => true,
        },
    ensures
        after_reply(phase, stars, failed, n, reply).1.len() == n,
        match after_reply(phase, stars, failed, n, reply).0 {
            Phase::Bulk { chunk } => chunk < chunk_count(n),
            Phase::PerItem { item } => item < n,
            Phase::Done => true,
        },
{
    match phase {
        Phase::Bulk { chunk } => {
            lemma_chunk_bounds(n, chunk as nat);
        },
        _ => {},
    }
}

} // verus!
