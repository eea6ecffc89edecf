//! The hub registry: type tags mapped to one or many source URLs, and its
//! flattening into a list of entries.

use vstd::prelude::*;
use crate::text::{lower_of, lowercase, same_text};

verus! {

/// The source URLs that one type tag lists: a single URL, or a list of them.
#[derive(Clone, Debug)]
pub enum SourceValue {
    Single(String),
    Many(Vec<String>),
}

impl View for SourceValue {
    type V = Seq<Seq<char>>;

    open spec fn view(&self) -> Seq<Seq<char>> {
        match self {
            SourceValue::Single(u) => seq![u@],
            SourceValue::Many(v) => v.deep_view(),
        }
    }
}

/// A parsed registry: each type tag with the source URLs it lists, in document order.
#[derive(Clone, Debug)]
pub struct Registry {
    pub entries: Vec<(String, SourceValue)>,
}

impl View for Registry {
    type V = Seq<(Seq<char>, Seq<Seq<char>>)>;

    open spec fn view(&self) -> Seq<(Seq<char>, Seq<Seq<char>>)> {
        self.entries@.map_values(|e: (String, SourceValue)| (e.0@, e.1@))
    }
}

/// One source URL of the registry together with the type tag it is listed under.
#[derive(Clone, Debug, PartialEq, Eq)]
pub struct RegistryEntry {
    pub type_tag: String,
    pub source_url: String,
}

impl View for RegistryEntry {
    type V = (Seq<char>, Seq<char>);

    open spec fn view(&self) -> (Seq<char>, Seq<char>) {
        (self.type_tag@, self.source_url@)
    }
}

/// The views of a list of entries.
pub open spec fn entries_view(v: Seq<RegistryEntry>) -> Seq<(Seq<char>, Seq<char>)> {
    v.map_values(|e: RegistryEntry| e@)
}

/// A type tag passes the filters when there are none, or when one of them equals it
/// once both are lowercased.
pub open spec fn type_selected(ty: Seq<char>, filters: Seq<Seq<char>>) -> bool {
    filters.len() == 0 || exists|i: int| 0 <= i < filters.len() && #[trigger] lower_of(filters[i]) == lower_of(ty)
}

/// Each URL paired with the type tag.
pub open spec fn tagged(ty: Seq<char>, urls: Seq<Seq<char>>) -> Seq<(Seq<char>, Seq<char>)> {
    urls.map_values(|u: Seq<char>| (ty, u))
}

/// The entries of a registry view, in order, keeping the type tags that pass the filters.
pub open spec fn flatten_spec(
    reg: Seq<(Seq<char>, Seq<Seq<char>>)>,
    filters: Seq<Seq<char>>,
) -> Seq<(Seq<char>, Seq<char>)>
    decreases reg.len(),
{
    if reg.len() == 0 {
        seq![]
    } else {
        let last = reg.last();
        flatten_spec(reg.drop_last(), filters) + if type_selected(last.0, filters) {
            tagged(last.0, last.1)
        } else {
            seq![]
        }
    }
}

/// Lowercases each filter once.
fn lower_all(filters: &Vec<String>) -> (r: Vec<String>)
    ensures
        r@.len() == filters@.len(),
        forall|i: int| 0 <= i < r@.len() ==> #[trigger] r@[i]@ == lower_of(filters@[i]@),
{
    let mut r: Vec<String> = Vec::new();
    let mut i: usize = 0;
    while i < filters.len()
        invariant
            i <= filters@.len(),
            r@.len() == i,
            forall|k: int| 0 <= k < i ==> #[trigger] r@[k]@ == lower_of(filters@[k]@),
        decreases filters@.len() - i,
    {
        r.push(lowercase(filters[i].as_str()));
        i += 1;
    }
    r
}

/// Whether a type tag passes filters given in lowercase form.
fn is_selected(ty: &String, filters: &Vec<String>, lowered: &Vec<String>) -> (r: bool)
    requires
        lowered@.len() == filters@.len(),
        forall|i: int| 0 <= i < lowered@.len() ==> #[trigger] lowered@[i]@ == lower_of(filters@[i]@),
    ensures
        r == type_selected(ty@, filters.deep_view()),
{
    let ghost fv = filters.deep_view();
    assert(fv.len() == filters@.len());
    if lowered.len() == 0 {
        return true;
    }
    let lt = lowercase(ty.as_str());
    let mut i: usize = 0;
    while i < lowered.len()
        invariant
            lowered@.len() == filters@.len(),
            fv == filters.deep_view(),
            lt@ == lower_of(ty@),
            i <= lowered@.len(),
            forall|k: int| 0 <= k < lowered@.len() ==> #[trigger] lowered@[k]@ == lower_of(filters@[k]@),
            forall|k: int| 0 <= k < i ==> lower_of(#[trigger] fv[k]) != lower_of(ty@),
        decreases lowered@.len() - i,
    {
        assert(fv[i as int] == filters@[i as int]@);
        if same_text(lowered[i].as_str(), lt.as_str()) {
            assert(lower_of(fv[i as int]) == lower_of(ty@));
            return true;
        }
        i += 1;
    }
    false
}

/// Flattens a registry into `(type, url)` entries, in registry order and, within a
/// type, in list order. When `filters` is not empty, only the types that equal one
/// of them case-insensitively are kept.
pub fn flatten(registry: &Registry, filters: &Vec<String>) -> (r: Vec<RegistryEntry>)
    ensures
        entries_view(r@) == flatten_spec(registry@, filters.deep_view()),
{
    let ghost fv = filters.deep_view();
    let ghost reg = registry@;
    let lowered = lower_all(filters);
    let mut out: Vec<RegistryEntry> = Vec::new();
    let mut i: usize = 0;
    while i < registry.entries.len()
        invariant
            reg == registry@,
            fv == filters.deep_view(),
            lowered@.len() == filters@.len(),
            forall|k: int| 0 <= k < lowered@.len() ==> #[trigger] lowered@[k]@ == lower_of(filters@[k]@),
            i <= reg.len(),
            reg.len() == registry.entries@.len(),
            entries_view(out@) == flatten_spec(reg.subrange(0, i as int), fv),
        decreases reg.len() - i,
    {
        let ghost before = out@;
        let key = &registry.entries[i].0;
        let value = &registry.entries[i].1;
        let ghost urls = value@;
        assert(reg[i as int] == (key@, urls));
        assert(reg.subrange(0, i + 1).drop_last() =~= reg.subrange(0, i as int));
        if is_selected(key, filters, &lowered) {
            match value {
                SourceValue::Single(u) => {
                    out.push(RegistryEntry { type_tag: key.clone(), source_url: u.clone() });
                    assert(entries_view(out@) =~= entries_view(before) + tagged(key@, urls));
                },
                SourceValue::Many(list) => {
                    let mut j: usize = 0;
                    while j < list.len()
                        invariant
                            urls == list.deep_view(),
                            j <= list@.len(),
                            entries_view(out@) == entries_view(before) + tagged(key@, urls).subrange(0, j as int),
                        decreases list@.len() - j,
                    {
                        assert(urls[j as int] == list@[j as int]@);
                        let ghost prev = out@;
                        let e = RegistryEntry { type_tag: key.clone(), source_url: list[j].clone() };
                        out.push(e);
                        assert(entries_view(out@) =~= entries_view(prev).push(e@));
                        assert(entries_view(out@) =~= entries_view(before) + tagged(key@, urls).subrange(0, j + 1));
                        j += 1;
                    }
                    assert(tagged(key@, urls).subrange(0, j as int) =~= tagged(key@, urls));
                },
            }
        } else {
            assert(entries_view(out@) =~= entries_view(before) + seq![]);
        }
        i += 1;
    }
    assert(reg.subrange(0, i as int) =~= reg);
    out
}


/// The number of source URLs that a registry view lists.
pub open spec fn url_total(reg: Seq<(Seq<char>, Seq<Seq<char>>)>) -> nat
    decreases reg.len(),
{
    if reg.len() == 0 {
        0
    } else {
        url_total(reg.drop_last()) + reg.last().1.len()
    }
}

/// The type tags of a registry view that pass the filters, in order.
pub open spec fn selected_only(
    reg: Seq<(Seq<char>, Seq<Seq<char>>)>,
    filters: Seq<Seq<char>>,
) -> Seq<(Seq<char>, Seq<Seq<char>>)> {
    reg.filter(|e: (Seq<char>, Seq<Seq<char>>)| type_selected(e.0, filters))
}

/// Flattening two registries laid end to end flattens each in turn.
pub proof fn lemma_flatten_concat(
    a: Seq<(Seq<char>, Seq<Seq<char>>)>,
    b: Seq<(Seq<char>, Seq<Seq<char>>)>,
    filters: Seq<Seq<char>>,
)
    ensures
        flatten_spec(a + b, filters) == flatten_spec(a, filters) + flatten_spec(b, filters),
    decreases b.len(),
{
    if b.len() == 0 {
        assert(a + b =~= a);
        assert(flatten_spec(a, filters) + flatten_spec(b, filters) =~= flatten_spec(a, filters));
    } else {
        assert((a + b).drop_last() =~= a + b.drop_last());
        lemma_flatten_concat(a, b.drop_last(), filters);
        let tail = if type_selected(b.last().0, filters) {
            tagged(b.last().0, b.last().1)
        } else {
            seq![]
        };
        assert(flatten_spec(a + b, filters) =~= flatten_spec(a, filters) + (flatten_spec(b.drop_last(), filters) + tail));
    }
}

/// Without filters the flattened list holds exactly as many entries as the registry
/// lists URLs.
pub proof fn lemma_flatten_len(reg: Seq<(Seq<char>, Seq<Seq<char>>)>)
    ensures
        flatten_spec(reg, seq![]).len() == url_total(reg),
    decreases reg.len(),
{
    if reg.len() > 0 {
        lemma_flatten_len(reg.drop_last());
    }
}

/// Without filters, type tag `i` contributes exactly its `k` URLs, in list order, each
/// tagged with it, as one block that follows the blocks of the tags before it.
pub proof fn lemma_flatten_block(reg: Seq<(Seq<char>, Seq<Seq<char>>)>, i: int)
    requires
        0 <= i < reg.len(),
    ensures
        flatten_spec(reg, seq![]).len() == url_total(reg),
        flatten_spec(reg, seq![]).subrange(
            url_total(reg.subrange(0, i)) as int,
            (url_total(reg.subrange(0, i)) + reg[i].1.len()) as int,
        ) == tagged(reg[i].0, reg[i].1),
{
    let none: Seq<Seq<char>> = seq![];
    let front = reg.subrange(0, i);
    let rest = reg.subrange(i + 1, reg.len() as int);
    let one = seq![reg[i]];
    assert(reg =~= front + one + rest);
    lemma_flatten_concat(front + one, rest, none);
    lemma_flatten_concat(front, one, none);
    lemma_flatten_len(reg);
    lemma_flatten_len(front);
    assert(one.drop_last() =~= Seq::<(Seq<char>, Seq<Seq<char>>)>::empty());
    assert(flatten_spec(one.drop_last(), none) =~= seq![]);
    assert(type_selected(reg[i].0, none));
    assert(one.last() == reg[i]);
    assert(flatten_spec(one, none) =~= tagged(reg[i].0, reg[i].1));
    let whole = flatten_spec(front, none) + tagged(reg[i].0, reg[i].1) + flatten_spec(rest, none);
    assert(flatten_spec(reg, none) == whole);
    assert(whole.subrange(url_total(front) as int, (url_total(front) + reg[i].1.len()) as int) =~= tagged(reg[i].0, reg[i].1));
}

/// Without filters, a registry whose values are all single URLs flattens to one entry
/// per type tag, in registry order.
pub proof fn lemma_flatten_single(reg: Seq<(Seq<char>, Seq<Seq<char>>)>)
    requires
        forall|i: int| 0 <= i < reg.len() ==> (#[trigger] reg[i]).1.len() == 1,
    ensures
        flatten_spec(reg, seq![]).len() == reg.len(),
        forall|i: int| 0 <= i < reg.len() ==> #[trigger] flatten_spec(reg, seq![])[i] == (reg[i].0, reg[i].1[0]),
    decreases reg.len(),
{
    if reg.len() > 0 {
        let init = reg.drop_last();
        assert forall|i: int| 0 <= i < init.len() implies (#[trigger] init[i]).1.len() == 1 by {
            assert(init[i] == reg[i]);
        }
        lemma_flatten_single(init);
        let last = reg.last();
        assert(tagged(last.0, last.1) =~= seq![(last.0, last.1[0])]);
    }
}

/// Filtering keeps only entries whose type tag passes the filters, and keeps every URL
/// of such a tag: it flattens, unfiltered, just the tags that pass. With no filters
/// every tag passes.
pub proof fn lemma_flatten_filter(reg: Seq<(Seq<char>, Seq<Seq<char>>)>, filters: Seq<Seq<char>>)
    ensures
        flatten_spec(reg, filters) == flatten_spec(selected_only(reg, filters), seq![]),
        forall|k: int|
            0 <= k < flatten_spec(reg, filters).len() ==> type_selected(
                #[trigger] flatten_spec(reg, filters)[k].0,
                filters,
            ),
        filters.len() == 0 ==> flatten_spec(reg, filters) == flatten_spec(reg, seq![]),
    decreases reg.len(),
{
    reveal(Seq::filter);
    let none: Seq<Seq<char>> = seq![];
    if reg.len() > 0 {
        let init = reg.drop_last();
        let last = reg.last();
        lemma_flatten_filter(init, filters);
        let sel = selected_only(init, filters);
        assert(reg.filter(|e: (Seq<char>, Seq<Seq<char>>)| type_selected(e.0, filters)).drop_last().len() >= 0);
        if type_selected(last.0, filters) {
            assert(selected_only(reg, filters) == sel.push(last));
            assert(sel.push(last).drop_last() =~= sel);
        } else {
            assert(selected_only(reg, filters) == sel);
        }
        let fl = flatten_spec(reg, filters);
        assert forall|k: int| 0 <= k < fl.len() implies type_selected(#[trigger] fl[k].0, filters) by {
            let fi = flatten_spec(init, filters);
            if k >= fi.len() {
                assert(fl[k] == tagged(last.0, last.1)[k - fi.len()]);
            } else {
                assert(fl[k] == fi[k]);
            }
        }
    } else {
        assert(selected_only(reg, filters) =~= reg);
    }
    if filters.len() == 0 {
        lemma_flatten_same_when_unfiltered(reg, filters);
    }
}

proof fn lemma_flatten_same_when_unfiltered(reg: Seq<(Seq<char>, Seq<Seq<char>>)>, filters: Seq<Seq<char>>)
    requires
        filters.len() == 0,
    ensures
        flatten_spec(reg, filters) == flatten_spec(reg, seq![]),
{
    assert(filters =~= seq![]);
}

} // verus!
