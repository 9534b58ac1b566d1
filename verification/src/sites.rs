//! The named sites of a configuration: a map from names to credentials that is kept in the order
//! of its names.

use vstd::prelude::*;

use crate::config::{SiteConfig, SiteView};
use crate::text::{
    is_before, same_text, text_before, text_before_irreflexive, text_before_total,
    text_before_transitive, texts,
};

verus! {

/// Whether the names stand in ascending order, each of them once.
pub open spec fn in_order(names: Seq<Seq<char>>) -> bool {
    forall|i: int, j: int| 0 <= i < j < names.len() ==> text_before(names[i], names[j])
}

/// The names of a map of sites in ascending order.
pub open spec fn sorted_names(sites: Map<Seq<char>, SiteView>) -> Seq<Seq<char>> {
    choose|names: Seq<Seq<char>>| in_order(names) && names.to_set() == sites.dom()
}

/// There is only one way to list a set of names in ascending order.
pub proof fn in_order_is_unique(a: Seq<Seq<char>>, b: Seq<Seq<char>>)
    requires
        in_order(a),
        in_order(b),
        a.to_set() == b.to_set(),
    ensures
        a == b,
    decreases a.len(),
{
    if a.len() == 0 {
        if b.len() > 0 {
            assert(b.to_set().contains(b[0]));
            assert(false);
        }
    } else {
        assert(a.to_set().contains(a[0]));
        assert(b.contains(a[0]));
        lemma_last_is_common(a, b);
        let x = a.drop_last();
        let y = b.drop_last();
        assert forall|n: Seq<char>| x.contains(n) implies y.contains(n) by {
            lemma_drop_last_contains(a, b, n);
        }
        assert forall|n: Seq<char>| y.contains(n) implies x.contains(n) by {
            lemma_drop_last_contains(b, a, n);
        }
        assert(x.to_set() =~= y.to_set());
        in_order_is_unique(x, y);
        assert(a == x.push(a.last()));
        assert(b == y.push(b.last()));
    }
}

proof fn lemma_last_is_common(a: Seq<Seq<char>>, b: Seq<Seq<char>>)
    requires
        in_order(a),
        in_order(b),
        a.to_set() == b.to_set(),
        a.len() > 0,
        b.len() > 0,
    ensures
        a.last() == b.last(),
{
    assert(a.to_set().contains(a.last()));
    assert(b.contains(a.last()));
    assert(b.to_set().contains(b.last()));
    assert(a.contains(b.last()));
    let i = choose|i: int| 0 <= i < b.len() && b[i] == a.last();
    let j = choose|j: int| 0 <= j < a.len() && a[j] == b.last();
    if a.last() != b.last() {
        assert(text_before(b[i], b[b.len() - 1]));
        assert(text_before(a[j], a[a.len() - 1]));
        text_before_transitive(a.last(), b.last(), a.last());
        text_before_irreflexive(a.last());
    }
}

proof fn lemma_drop_last_contains(a: Seq<Seq<char>>, b: Seq<Seq<char>>, n: Seq<char>)
    requires
        in_order(a),
        a.to_set() == b.to_set(),
        a.len() > 0,
        b.len() > 0,
        a.last() == b.last(),
        a.drop_last().contains(n),
    ensures
        b.drop_last().contains(n),
{
    let i = choose|i: int| 0 <= i < a.drop_last().len() && a.drop_last()[i] == n;
    assert(a[i] == n);
    assert(a.to_set().contains(n));
    assert(b.contains(n));
    let j = choose|j: int| 0 <= j < b.len() && b[j] == n;
    assert(text_before(a[i], a[a.len() - 1]));
    text_before_irreflexive(n);
    assert(j != b.len() - 1);
    assert(b.drop_last()[j] == n);
}

/// `names` with `name` put in its place.
spec fn placed(names: Seq<Seq<char>>, name: Seq<char>) -> Seq<Seq<char>>
    decreases names.len(),
{
    if names.len() == 0 || text_before(names.last(), name) {
        names.push(name)
    } else {
        placed(names.drop_last(), name).push(names.last())
    }
}

proof fn lemma_placed(names: Seq<Seq<char>>, name: Seq<char>)
    requires
        in_order(names),
        !names.contains(name),
    ensures
        in_order(placed(names, name)),
        placed(names, name).to_set() == names.to_set().insert(name),
    decreases names.len(),
{
    let all = placed(names, name);
    if names.len() == 0 || text_before(names.last(), name) {
        assert forall|i: int, j: int| 0 <= i < j < all.len() implies text_before(all[i], all[j]) by {
            if j == names.len() && i < names.len() - 1 {
                text_before_transitive(names[i], names.last(), name);
            }
        }
        lemma_push_set(names, name);
    } else {
        let rest = names.drop_last();
        assert(names.contains(names.last()));
        assert forall|n: Seq<char>| rest.contains(n) implies names.contains(n) by {
            let k = choose|k: int| 0 <= k < rest.len() && rest[k] == n;
            assert(names[k] == n);
        }
        lemma_placed(rest, name);
        text_before_total(names.last(), name);
        let sub = placed(rest, name);
        assert forall|i: int, j: int| 0 <= i < j < all.len() implies text_before(all[i], all[j]) by {
            if j == sub.len() {
                assert(sub.contains(sub[i]));
                assert(sub.to_set().contains(sub[i]));
                if sub[i] != name {
                    assert(rest.to_set().contains(sub[i]));
                    let k = choose|k: int| 0 <= k < rest.len() && rest[k] == sub[i];
                    assert(text_before(names[k], names[names.len() - 1]));
                }
            }
        }
        lemma_push_set(sub, names.last());
        lemma_push_set(rest, names.last());
        assert(names == rest.push(names.last()));
        assert(all.to_set() =~= names.to_set().insert(name));
    }
}

proof fn lemma_push_set(names: Seq<Seq<char>>, name: Seq<char>)
    ensures
        names.push(name).to_set() == names.to_set().insert(name),
{
    let all = names.push(name);
    assert forall|n: Seq<char>| all.contains(n) <==> names.contains(n) || n == name by {
        if names.contains(n) {
            let k = choose|k: int| 0 <= k < names.len() && names[k] == n;
            assert(all[k] == n);
        }
        assert(all[names.len() as int] == name);
    }
    assert(all.to_set() =~= names.to_set().insert(name));
}

proof fn lemma_order_exists(names: Set<Seq<char>>) -> (list: Seq<Seq<char>>)
    requires
        names.finite(),
    ensures
        in_order(list),
        list.to_set() == names,
    decreases names.len(),
{
    if names.is_empty() {
        let list = Seq::<Seq<char>>::empty();
        assert(list.to_set() =~= names);
        list
    } else {
        let name = names.choose();
        let rest = lemma_order_exists(names.remove(name));
        assert(!rest.to_set().contains(name));
        lemma_placed(rest, name);
        assert(placed(rest, name).to_set() =~= names);
        placed(rest, name)
    }
}

/// The names of finitely many sites can be listed in ascending order: `sorted_names` is that
/// list, and holds each name and nothing else.
pub proof fn sorted_names_lists_all(sites: Map<Seq<char>, SiteView>)
    requires
        sites.dom().finite(),
    ensures
        in_order(sorted_names(sites)),
        forall|i: int, j: int|
            0 <= i < j < sorted_names(sites).len() ==> text_before(
                #[trigger] sorted_names(sites)[i],
                #[trigger] sorted_names(sites)[j],
            ),
        sorted_names(sites).to_set() == sites.dom(),
        sorted_names(sites).no_duplicates(),
        sorted_names(sites).len() == sites.dom().len(),
{
    let list = lemma_order_exists(sites.dom());
    assert(in_order(list) && list.to_set() == sites.dom());
    let names = sorted_names(sites);
    assert forall|i: int, j: int| 0 <= i < names.len() && 0 <= j < names.len() && i != j implies names[i]
        != names[j] by {
        text_before_irreflexive(names[i]);
        if i < j {
            assert(text_before(names[i], names[j]));
        } else {
            assert(text_before(names[j], names[i]));
        }
    }
    names.unique_seq_to_set();
}

/// The names of a list of entries.
spec fn names_of(entries: Seq<(String, SiteConfig)>) -> Seq<Seq<char>> {
    Seq::new(entries.len(), |i: int| entries[i].0@)
}

/// Where a name stands in a list of entries.
spec fn position(entries: Seq<(String, SiteConfig)>, name: Seq<char>) -> int {
    choose|i: int| 0 <= i < entries.len() && #[trigger] entries[i].0@ == name
}

/// The map that a list of entries stands for.
spec fn map_of(entries: Seq<(String, SiteConfig)>) -> Map<Seq<char>, SiteView> {
    Map::new(
        |name: Seq<char>| names_of(entries).contains(name),
        |name: Seq<char>| entries[position(entries, name)].1@,
    )
}

proof fn lemma_entry(entries: Seq<(String, SiteConfig)>, i: int)
    requires
        in_order(names_of(entries)),
        0 <= i < entries.len(),
    ensures
        map_of(entries).dom().contains(entries[i].0@),
        map_of(entries)[entries[i].0@] == entries[i].1@,
{
    let names = names_of(entries);
    let name = entries[i].0@;
    assert(names[i] == name);
    let p = position(entries, name);
    assert(0 <= p < entries.len() && entries[p].0@ == name);
    text_before_irreflexive(name);
    assert(names[p] == name);
    if p < i {
        assert(text_before(names[p], names[i]));
    } else if i < p {
        assert(text_before(names[i], names[p]));
    }
}

proof fn lemma_finite(entries: Seq<(String, SiteConfig)>)
    ensures
        map_of(entries).dom().finite(),
        names_of(entries).to_set() == map_of(entries).dom(),
{
    vstd::seq_lib::seq_to_set_is_finite(names_of(entries));
    assert(names_of(entries).to_set() =~= map_of(entries).dom());
}

proof fn lemma_sorted(entries: Seq<(String, SiteConfig)>)
    requires
        in_order(names_of(entries)),
    ensures
        sorted_names(map_of(entries)) == names_of(entries),
        in_order(sorted_names(map_of(entries))),
        sorted_names(map_of(entries)).to_set() == map_of(entries).dom(),
{
    let names = names_of(entries);
    assert(names.to_set() =~= map_of(entries).dom());
    assert(in_order(names) && names.to_set() == map_of(entries).dom());
    in_order_is_unique(sorted_names(map_of(entries)), names);
}

proof fn lemma_replaced(entries: Seq<(String, SiteConfig)>, at: int, entry: (String, SiteConfig))
    requires
        in_order(names_of(entries)),
        0 <= at < entries.len(),
        entries[at].0@ == entry.0@,
    ensures
        in_order(names_of(entries.update(at, entry))),
        map_of(entries.update(at, entry)) == map_of(entries).insert(entry.0@, entry.1@),
{
    let after = entries.update(at, entry);
    assert(names_of(after) =~= names_of(entries));
    lemma_entry(entries, at);
    assert forall|name: Seq<char>| map_of(after).dom().contains(name) implies map_of(after)[name]
        == map_of(entries).insert(entry.0@, entry.1@)[name] by {
        let p = choose|p: int| 0 <= p < names_of(after).len() && names_of(after)[p] == name;
        lemma_entry(after, p);
        lemma_entry(entries, p);
        lemma_entry(after, at);
    }
    assert(map_of(after) =~= map_of(entries).insert(entry.0@, entry.1@));
}

proof fn lemma_inserted(entries: Seq<(String, SiteConfig)>, at: int, entry: (String, SiteConfig))
    requires
        in_order(names_of(entries)),
        0 <= at <= entries.len(),
        forall|j: int| 0 <= j < at ==> text_before(#[trigger] entries[j].0@, entry.0@),
        forall|j: int| at <= j < entries.len() ==> text_before(entry.0@, #[trigger] entries[j].0@),
    ensures
        in_order(names_of(entries.insert(at, entry))),
        map_of(entries.insert(at, entry)) == map_of(entries).insert(entry.0@, entry.1@),
{
    let after = entries.insert(at, entry);
    let old_names = names_of(entries);
    let names = names_of(after);
    assert forall|i: int, j: int| 0 <= i < j < names.len() implies text_before(names[i], names[j]) by {
        let k = if i < at { i } else { i - 1 };
        let l = if j < at { j } else { j - 1 };
        if i != at {
            assert(names[i] == entries[k].0@);
            assert(old_names[k] == names[i]);
        }
        if j != at {
            assert(names[j] == entries[l].0@);
            assert(old_names[l] == names[j]);
        }
        if i != at && j != at {
            assert(text_before(old_names[k], old_names[l]));
        }
    }
    assert forall|name: Seq<char>|
        names.contains(name) <==> old_names.contains(name) || name == entry.0@ by {
        if names.contains(name) {
            let p = choose|p: int| 0 <= p < names.len() && names[p] == name;
            if p < at {
                assert(old_names[p] == name);
            } else if p > at {
                assert(old_names[p - 1] == name);
            }
        }
        if old_names.contains(name) {
            let p = choose|p: int| 0 <= p < old_names.len() && old_names[p] == name;
            if p < at {
                assert(names[p] == name);
            } else {
                assert(names[p + 1] == name);
            }
        }
        assert(names[at] == entry.0@);
    }
    assert forall|name: Seq<char>| map_of(after).dom().contains(name) implies map_of(after)[name]
        == map_of(entries).insert(entry.0@, entry.1@)[name] by {
        let p = choose|p: int| 0 <= p < names.len() && names[p] == name;
        lemma_entry(after, p);
        if p < at {
            lemma_entry(entries, p);
            text_before_irreflexive(name);
        } else if p > at {
            lemma_entry(entries, p - 1);
            text_before_irreflexive(name);
        }
    }
    assert(map_of(after) =~= map_of(entries).insert(entry.0@, entry.1@));
}

proof fn lemma_removed(entries: Seq<(String, SiteConfig)>, at: int)
    requires
        in_order(names_of(entries)),
        0 <= at < entries.len(),
    ensures
        in_order(names_of(entries.remove(at))),
        map_of(entries.remove(at)) == map_of(entries).remove(entries[at].0@),
{
    let after = entries.remove(at);
    let old_names = names_of(entries);
    let names = names_of(after);
    let gone = entries[at].0@;
    assert(old_names[at] == gone);
    text_before_irreflexive(gone);
    assert forall|i: int, j: int| 0 <= i < j < names.len() implies text_before(names[i], names[j]) by {
        let k = if i < at { i } else { i + 1 };
        let l = if j < at { j } else { j + 1 };
        assert(names[i] == old_names[k]);
        assert(names[j] == old_names[l]);
    }
    assert forall|name: Seq<char>|
        names.contains(name) <==> old_names.contains(name) && name != gone by {
        if names.contains(name) {
            let p = choose|p: int| 0 <= p < names.len() && names[p] == name;
            let q = if p < at { p } else { p + 1 };
            assert(old_names[q] == name);
            if q < at {
                assert(text_before(old_names[q], old_names[at]));
            } else {
                assert(text_before(old_names[at], old_names[q]));
            }
        }
        if old_names.contains(name) && name != gone {
            let p = choose|p: int| 0 <= p < old_names.len() && old_names[p] == name;
            let q = if p < at { p } else { p - 1 };
            assert(names[q] == name);
        }
    }
    assert forall|name: Seq<char>| map_of(after).dom().contains(name) implies map_of(after)[name]
        == map_of(entries).remove(gone)[name] by {
        let p = choose|p: int| 0 <= p < names.len() && names[p] == name;
        let q = if p < at { p } else { p + 1 };
        lemma_entry(after, p);
        lemma_entry(entries, q);
    }
    assert(map_of(after) =~= map_of(entries).remove(gone));
}

/// A map from names to sites, in the order of the names.
#[derive(Debug, PartialEq)]
pub struct Sites {
    entries: Vec<(String, SiteConfig)>,
}

impl View for Sites {
    type V = Map<Seq<char>, SiteView>;

    closed spec fn view(&self) -> Map<Seq<char>, SiteView> {
        map_of(self.entries@)
    }
}

impl Default for Sites {
    fn default() -> (r: Self)
        ensures
            r@ == Map::<Seq<char>, SiteView>::empty(),
            r@.dom().finite(),
    {
        let r = Sites { entries: Vec::new() };
        assert(r@ =~= Map::<Seq<char>, SiteView>::empty());
        r
    }
}

impl Sites {
    #[verifier::type_invariant]
    spec fn well_formed(self) -> bool {
        in_order(names_of(self.entries@))
    }

    /// Whether there is no site.
    pub fn is_empty(&self) -> (r: bool)
        ensures
            r == self@.dom().is_empty(),
            self@.dom().finite(),
    {
        proof {
            lemma_finite(self.entries@);
            if self.entries@.len() > 0 {
                assert(names_of(self.entries@).contains(names_of(self.entries@)[0]));
                assert(self@.dom().contains(names_of(self.entries@)[0]));
            } else {
                assert(self@.dom() =~= Set::<Seq<char>>::empty());
            }
        }
        self.entries.is_empty()
    }

    /// Where the entry called `name` stands or would stand.
    fn find(&self, name: &str) -> (r: (usize, bool))
        ensures
            r.0 <= self.entries@.len(),
            r.1 ==> r.0 < self.entries@.len() && self.entries@[r.0 as int].0@ == name@,
            forall|j: int| 0 <= j < r.0 ==> text_before(#[trigger] self.entries@[j].0@, name@),
            !r.1 ==> forall|j: int|
                r.0 <= j < self.entries@.len() ==> text_before(name@, #[trigger] self.entries@[j].0@),
    {
        proof {
            use_type_invariant(self);
        }
        let ghost names = names_of(self.entries@);
        let mut i: usize = 0;
        while i < self.entries.len() && is_before(self.entries[i].0.as_str(), name)
            invariant
                i <= self.entries@.len(),
                forall|j: int| 0 <= j < i ==> text_before(#[trigger] self.entries@[j].0@, name@),
            decreases self.entries@.len() - i,
        {
            i += 1;
        }
        if i < self.entries.len() {
            let found = same_text(self.entries[i].0.as_str(), name);
            proof {
                if !found {
                    text_before_total(self.entries@[i as int].0@, name@);
                    assert forall|j: int| i <= j < self.entries@.len() implies text_before(
                        name@,
                        #[trigger] self.entries@[j].0@,
                    ) by {
                        if i < j {
                            assert(text_before(names[i as int], names[j]));
                            text_before_transitive(name@, names[i as int], names[j]);
                        }
                    }
                }
            }
            (i, found)
        } else {
            (i, false)
        }
    }

    /// The site called `name`.
    pub fn get(&self, name: &str) -> (r: Option<&SiteConfig>)
        ensures
            match r {
                Some(site) => {
                    &&& self@.dom().contains(name@)
                    &&& self@[name@] == site@
                    &&& site.api_key@ == self@[name@].api_key
                    &&& site.domain@ == self@[name@].domain
                    &&& site.region == self@[name@].region
                },
                None => !self@.dom().contains(name@),
            },
            self@.dom().finite(),
    {
        proof {
            use_type_invariant(self);
            lemma_finite(self.entries@);
        }
        let (at, found) = self.find(name);
        if found {
            proof {
                lemma_entry(self.entries@, at as int);
            }
            Some(&self.entries[at].1)
        } else {
            proof {
                if self@.dom().contains(name@) {
                    let p = choose|p: int|
                        0 <= p < names_of(self.entries@).len() && names_of(self.entries@)[p] == name@;
                    text_before_irreflexive(name@);
                    assert(self.entries@[p].0@ == name@);
                }
            }
            None
        }
    }

    /// Whether there is a site called `name`.
    pub fn contains_key(&self, name: &str) -> (r: bool)
        ensures
            r == self@.dom().contains(name@),
            self@.dom().finite(),
    {
        self.get(name).is_some()
    }

    /// Puts a site under `name`, in place of one that is already there.
    pub fn insert(&mut self, name: String, site: SiteConfig)
        ensures
            final(self)@ == old(self)@.insert(name@, site@),
            final(self)@[name@].api_key == site.api_key@,
            final(self)@[name@].domain == site.domain@,
            final(self)@[name@].region == site.region,
            old(self)@.dom().finite(),
            final(self)@.dom().finite(),
    {
        proof {
            use_type_invariant(&*self);
            lemma_finite(self.entries@);
        }
        let (at, found) = self.find(name.as_str());
        let ghost before = self.entries@;
        let ghost entry = (name, site);
        let mut entries: Vec<(String, SiteConfig)> = Vec::new();
        std::mem::swap(&mut entries, &mut self.entries);
        if found {
            entries[at] = (name, site);
            proof {
                lemma_replaced(before, at as int, entry);
            }
        } else {
            entries.insert(at, (name, site));
            proof {
                lemma_inserted(before, at as int, entry);
            }
        }
        self.entries = entries;
    }

    /// Takes the site called `name` out, and says whether there was one.
    pub fn remove(&mut self, name: &str) -> (r: bool)
        ensures
            r == old(self)@.dom().contains(name@),
            final(self)@ == old(self)@.remove(name@),
            old(self)@.dom().finite(),
            final(self)@.dom().finite(),
    {
        proof {
            use_type_invariant(&*self);
            lemma_finite(self.entries@);
        }
        let (at, found) = self.find(name);
        let ghost before = self.entries@;
        if !found {
            proof {
                if self@.dom().contains(name@) {
                    let names = names_of(before);
                    let p = choose|p: int| 0 <= p < names.len() && names[p] == name@;
                    text_before_irreflexive(name@);
                    assert(before[p].0@ == name@);
                }
                assert(self@.remove(name@) =~= self@);
            }
            return false;
        }
        proof {
            lemma_entry(before, at as int);
            lemma_removed(before, at as int);
        }
        let mut entries: Vec<(String, SiteConfig)> = Vec::new();
        std::mem::swap(&mut entries, &mut self.entries);
        entries.remove(at);
        self.entries = entries;
        true
    }

    /// The names in ascending order.
    pub fn names(&self) -> (r: Vec<String>)
        ensures
            texts(r@) == sorted_names(self@),
            in_order(texts(r@)),
            texts(r@).to_set() == self@.dom(),
            self@.dom().finite(),
    {
        proof {
            use_type_invariant(self);
            lemma_sorted(self.entries@);
        }
        let mut out: Vec<String> = Vec::new();
        let mut i: usize = 0;
        while i < self.entries.len()
            invariant
                i <= self.entries@.len(),
                out@.len() == i,
                forall|j: int| 0 <= j < i ==> (#[trigger] out@[j])@ == self.entries@[j].0@,
            decreases self.entries@.len() - i,
        {
            out.push(self.entries[i].0.clone());
            i += 1;
        }
        proof {
            lemma_finite(self.entries@);
            assert(texts(out@) =~= names_of(self.entries@));
        }
        out
    }

    /// The first of the names in ascending order.
    pub fn first_name(&self) -> (r: Option<String>)
        ensures
            match r {
                Some(name) => {
                    &&& self@.dom().contains(name@)
                    &&& sorted_names(self@).len() > 0
                    &&& sorted_names(self@)[0] == name@
                },
                None => self@.dom().is_empty(),
            },
            self@.dom().finite(),
    {
        proof {
            use_type_invariant(self);
            lemma_sorted(self.entries@);
        }
        if self.is_empty() {
            None
        } else {
            proof {
                if self.entries@.len() == 0 {
                    assert(self@.dom() =~= Set::<Seq<char>>::empty());
                }
                lemma_entry(self.entries@, 0);
            }
            Some(self.entries[0].0.clone())
        }
    }
}

} // verus!
