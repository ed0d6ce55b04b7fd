//! Tables keyed by text.
use vstd::prelude::*;

use crate::copy::Duplicate;
use crate::strings::{
    comes_before, lemma_text_less_total, lemma_text_less_trans, same_text, text_less, views,
};

verus! {

/// A table from texts to values.
#[derive(Debug)]
pub struct TextMap<V> {
    entries: Vec<(String, V)>,
}

/// The position of `key` in a list of keys and values, at or after `from`.
pub open spec fn position<W>(items: Seq<(Seq<char>, W)>, key: Seq<char>, from: int) -> Option<int>
    decreases items.len() - from,
{
    if from < 0 || from >= items.len() {
        None
    } else if items[from].0 == key {
        Some(from)
    } else {
        position(items, key, from + 1)
    }
}

/// The map that a list of keys and values stands for.
pub open spec fn as_map<W>(items: Seq<(Seq<char>, W)>) -> Map<Seq<char>, W> {
    Map::new(
        |k: Seq<char>| position(items, k, 0) is Some,
        |k: Seq<char>| items[position(items, k, 0)->0].1,
    )
}

/// No key stands twice.
pub open spec fn distinct_keys<W>(items: Seq<(Seq<char>, W)>) -> bool {
    forall|i: int, j: int|
        0 <= i < j < items.len() ==> #[trigger] items[i].0 != #[trigger] items[j].0
}

pub proof fn lemma_position<W>(items: Seq<(Seq<char>, W)>, key: Seq<char>, from: int)
    requires
        0 <= from,
    ensures
        match position(items, key, from) {
            Some(i) => from <= i < items.len() && items[i].0 == key && forall|j: int|
                from <= j < i ==> items[j].0 != key,
            None => forall|j: int| from <= j < items.len() ==> items[j].0 != key,
        },
    decreases items.len() - from,
{
    if from < items.len() && items[from].0 != key {
        lemma_position(items, key, from + 1);
    }
}

/// What the map holds, entry by entry, when no key stands twice.
pub proof fn lemma_as_map<W>(items: Seq<(Seq<char>, W)>)
    requires
        distinct_keys(items),
    ensures
        forall|i: int|
            0 <= i < items.len() ==> as_map(items).contains_pair(#[trigger] items[i].0, items[i].1),
        forall|k: Seq<char>| #[trigger]
            as_map(items).contains_key(k) ==> exists|i: int|
                0 <= i < items.len() && #[trigger] items[i].0 == k,
        as_map(items).dom().finite(),
        as_map(items).dom().len() == items.len(),
    decreases items.len(),
{
    assert forall|i: int| 0 <= i < items.len() implies as_map(items).contains_pair(
        #[trigger] items[i].0,
        items[i].1,
    ) by {
        lemma_position(items, items[i].0, 0);
    }
    assert forall|k: Seq<char>| #[trigger] as_map(items).contains_key(k) implies exists|i: int|
        0 <= i < items.len() && #[trigger] items[i].0 == k by {
        lemma_position(items, k, 0);
    }
    if items.len() == 0 {
        assert(as_map(items).dom() =~= Set::empty());
    } else {
        let front = items.drop_last();
        lemma_as_map(front);
        assert(as_map(items).dom() =~= as_map(front).dom().insert(items.last().0)) by {
            assert forall|k: Seq<char>| as_map(items).contains_key(k) <==> as_map(
                front,
            ).dom().insert(items.last().0).contains(k) by {
                lemma_position(items, k, 0);
                lemma_position(front, k, 0);
                if as_map(front).contains_key(k) {
                    let i = position(front, k, 0)->0;
                    assert(items[i].0 == k);
                }
                if k == items.last().0 {
                    assert(items[items.len() - 1].0 == k);
                }
                if as_map(items).contains_key(k) && k != items.last().0 {
                    let i = position(items, k, 0)->0;
                    assert(front[i].0 == k);
                }
            }
        }
        assert(!as_map(front).contains_key(items.last().0)) by {
            lemma_position(front, items.last().0, 0);
        }
    }
}

proof fn lemma_insert_new<W>(items: Seq<(Seq<char>, W)>, key: Seq<char>, w: W)
    requires
        distinct_keys(items),
        position(items, key, 0) is None,
    ensures
        as_map(items.push((key, w))) == as_map(items).insert(key, w),
        distinct_keys(items.push((key, w))),
{
    let after = items.push((key, w));
    lemma_position(items, key, 0);
    assert(as_map(after) =~= as_map(items).insert(key, w)) by {
        assert forall|k: Seq<char>| true implies (as_map(after).contains_key(k) <==> #[trigger] as_map(
            items,
        ).insert(key, w).contains_key(k)) && (as_map(after).contains_key(k) ==> as_map(after)[k]
            == as_map(items).insert(key, w)[k]) by {
            lemma_position(after, k, 0);
            lemma_position(items, k, 0);
            if k == key {
                assert(after[items.len() as int].0 == key);
            } else if position(items, k, 0) is Some {
                let i = position(items, k, 0)->0;
                assert(after[i].0 == k);
            } else if position(after, k, 0) is Some {
                let i = position(after, k, 0)->0;
                assert(items[i].0 == k);
            }
        }
    }
}

proof fn lemma_insert_old<W>(items: Seq<(Seq<char>, W)>, key: Seq<char>, at: int, w: W)
    requires
        distinct_keys(items),
        0 <= at < items.len(),
        items[at].0 == key,
    ensures
        as_map(items.update(at, (key, w))) == as_map(items).insert(key, w),
        distinct_keys(items.update(at, (key, w))),
{
    let after = items.update(at, (key, w));
    assert(as_map(after) =~= as_map(items).insert(key, w)) by {
        assert forall|k: Seq<char>| true implies (as_map(after).contains_key(k) <==> #[trigger] as_map(
            items,
        ).insert(key, w).contains_key(k)) && (as_map(after).contains_key(k) ==> as_map(after)[k]
            == as_map(items).insert(key, w)[k]) by {
            lemma_position(after, k, 0);
            lemma_position(items, k, 0);
            assert(after[at].0 == key);
            if position(items, k, 0) is Some {
                let i = position(items, k, 0)->0;
                assert(after[i].0 == k);
            }
            if position(after, k, 0) is Some {
                let i = position(after, k, 0)->0;
                assert(items[i].0 == k);
            }
        }
    }
}

/// One more entry of a list is one more entry of the map it stands for.
pub proof fn lemma_as_map_grows<W>(items: Seq<(Seq<char>, W)>, i: int)
    requires
        distinct_keys(items),
        0 <= i < items.len(),
    ensures
        as_map(items.take(i + 1)) == as_map(items.take(i)).insert(items[i].0, items[i].1),
{
    let before = items.take(i);
    let next = items.take(i + 1);
    assert(next =~= before.push((items[i].0, items[i].1)));
    assert(distinct_keys(before));
    lemma_position(before, items[i].0, 0);
    assert(position(before, items[i].0, 0) is None) by {
        if position(before, items[i].0, 0) is Some {
            let j = position(before, items[i].0, 0)->0;
            assert(items[j].0 == items[i].0);
        }
    }
    lemma_insert_new(before, items[i].0, items[i].1);
}

impl<V> TextMap<V> {
    #[verifier::type_invariant]
    spec fn keys_are_distinct(self) -> bool {
        forall|i: int, j: int|
            0 <= i < j < self.entries@.len() ==> #[trigger] self.entries@[i].0@
                != #[trigger] self.entries@[j].0@
    }
}

impl<V: View> TextMap<V> {
    /// The keys and values in the order in which they were put in.
    pub closed spec fn items(&self) -> Seq<(Seq<char>, V::V)> {
        Seq::new(self.entries@.len(), |i: int| (self.entries@[i].0@, self.entries@[i].1@))
    }

    pub fn new() -> (r: TextMap<V>)
        ensures
            r.items() == Seq::<(Seq<char>, V::V)>::empty(),
            r@ == Map::<Seq<char>, V::V>::empty(),
    {
        let r = TextMap { entries: Vec::new() };
        assert(r.items() =~= Seq::<(Seq<char>, V::V)>::empty());
        assert(r@ =~= Map::<Seq<char>, V::V>::empty());
        r
    }

    /// The number of keys.
    pub fn len(&self) -> (n: usize)
        ensures
            n == self.items().len(),
            self@.dom().finite(),
            n == self@.len(),
            distinct_keys(self.items()),
    {
        proof {
            use_type_invariant(self);
            lemma_as_map(self.items());
        }
        self.entries.len()
    }

    pub fn is_empty(&self) -> (r: bool)
        ensures
            r == (self@ == Map::<Seq<char>, V::V>::empty()),
    {
        proof {
            if self.entries@.len() > 0 {
                lemma_position(self.items(), self.items()[0].0, 0);
                assert(self@.contains_key(self.items()[0].0));
            } else {
                assert(self@ =~= Map::<Seq<char>, V::V>::empty());
            }
        }
        self.entries.len() == 0
    }

    /// The key at a position.
    pub fn key(&self, i: usize) -> (k: &String)
        requires
            i < self.items().len(),
        ensures
            k@ == self.items()[i as int].0,
    {
        &self.entries[i].0
    }

    /// The value at a position.
    pub fn at(&self, i: usize) -> (v: &V)
        requires
            i < self.items().len(),
        ensures
            v@ == self.items()[i as int].1,
    {
        &self.entries[i].1
    }

    /// The value of `key`.
    pub fn get(&self, key: &str) -> (r: Option<&V>)
        ensures
            match r {
                Some(v) => self@.contains_key(key@) && self@[key@] == v@,
                None => !self@.contains_key(key@),
            },
    {
        let mut i: usize = 0;
        while i < self.entries.len()
            invariant
                i <= self.entries@.len(),
                position(self.items(), key@, 0) == position(self.items(), key@, i as int),
            decreases self.entries@.len() - i,
        {
            if same_text(self.entries[i].0.as_str(), key) {
                return Some(&self.entries[i].1);
            }
            i += 1;
        }
        None
    }

    /// Gives `key` the value `v`. A new key comes last, and one that is there
    /// already keeps its place.
    pub fn insert(&mut self, key: String, v: V)
        ensures
            final(self)@ == old(self)@.insert(key@, v@),
            final(self).items() == (match position(old(self).items(), key@, 0) {
                Some(i) => old(self).items().update(i, (key@, v@)),
                None => old(self).items().push((key@, v@)),
            }),
    {
        let ghost before = self.items();
        proof {
            use_type_invariant(&*self);
        }
        let mut i: usize = 0;
        while i < self.entries.len()
            invariant
                *self == *old(self),
                before == self.items(),
                distinct_keys(before),
                i <= self.entries@.len(),
                position(before, key@, 0) == position(before, key@, i as int),
            decreases self.entries@.len() - i,
        {
            if same_text(self.entries[i].0.as_str(), key.as_str()) {
                proof {
                    lemma_insert_old(before, key@, i as int, v@);
                }
                let mut entries: Vec<(String, V)> = Vec::new();
                core::mem::swap(&mut entries, &mut self.entries);
                entries.set(i, (key, v));
                proof {
                    let r = TextMap { entries };
                    assert(r.items() =~= before.update(i as int, (key@, v@)));
                    assert forall|a: int, b: int| 0 <= a < b < entries@.len() implies #[trigger] entries@[a].0@
                        != #[trigger] entries@[b].0@ by {
                        assert(r.items()[a].0 == entries@[a].0@);
                        assert(r.items()[b].0 == entries@[b].0@);
                    }
                }
                *self = TextMap { entries };
                return;
            }
            i += 1;
        }
        proof {
            lemma_insert_new(before, key@, v@);
        }
        let mut entries: Vec<(String, V)> = Vec::new();
        core::mem::swap(&mut entries, &mut self.entries);
        entries.push((key, v));
        proof {
            let r = TextMap { entries };
            assert(r.items() =~= before.push((key@, v@)));
            assert forall|a: int, b: int| 0 <= a < b < entries@.len() implies #[trigger] entries@[a].0@
                != #[trigger] entries@[b].0@ by {
                assert(r.items()[a].0 == entries@[a].0@);
                assert(r.items()[b].0 == entries@[b].0@);
            }
        }
        *self = TextMap { entries };
    }
}

/// Whether texts stand in order, none of them twice.
pub open spec fn ascending(l: Seq<Seq<char>>) -> bool {
    forall|i: int, j: int| 0 <= i < j < l.len() ==> text_less(#[trigger] l[i], #[trigger] l[j])
}

/// Whether a list holds the keys of a map, in order.
pub open spec fn lists_names<W>(l: Seq<Seq<char>>, m: Map<Seq<char>, W>) -> bool {
    &&& ascending(l)
    &&& forall|k: Seq<char>| #[trigger] l.contains(k) <==> m.contains_key(k)
}

/// The keys of a map, in order.
pub open spec fn names_of<W>(m: Map<Seq<char>, W>) -> Seq<Seq<char>> {
    choose|l: Seq<Seq<char>>| lists_names(l, m)
}

/// The keys of a map stand in one order only.
pub proof fn lemma_names_are_one_list<W>(
    a: Seq<Seq<char>>,
    b: Seq<Seq<char>>,
    m: Map<Seq<char>, W>,
)
    requires
        lists_names(a, m),
        lists_names(b, m),
    ensures
        a == b,
    decreases a.len(),
{
    if a.len() == 0 || b.len() == 0 {
        if a.len() > 0 {
            assert(a.contains(a[0]));
            assert(b.contains(a[0]));
        }
        if b.len() > 0 {
            assert(b.contains(b[0]));
            assert(a.contains(b[0]));
        }
        assert(a =~= b);
    } else {
        let (x, y) = (a.last(), b.last());
        assert(a.contains(x) && b.contains(y));
        assert(b.contains(x) && a.contains(y));
        let i = choose|i: int| 0 <= i < b.len() && b[i] == x;
        let j = choose|j: int| 0 <= j < a.len() && a[j] == y;
        lemma_text_less_total(x, y);
        assert(x == y);
        let rest = m.remove(x);
        assert forall|k: Seq<char>| #[trigger] a.drop_last().contains(k) <==> rest.contains_key(k) by {
            lemma_without_last(a, k);
            assert(a.contains(k) <==> m.contains_key(k));
        }
        assert forall|k: Seq<char>| #[trigger] b.drop_last().contains(k) <==> rest.contains_key(k) by {
            lemma_without_last(b, k);
            assert(b.contains(k) <==> m.contains_key(k));
        }
        lemma_names_are_one_list(a.drop_last(), b.drop_last(), rest);
        assert(a =~= a.drop_last().push(x));
        assert(b =~= b.drop_last().push(y));
    }
}

proof fn lemma_without_last(l: Seq<Seq<char>>, k: Seq<char>)
    requires
        ascending(l),
        l.len() > 0,
    ensures
        l.drop_last().contains(k) <==> l.contains(k) && k != l.last(),
{
    lemma_text_less_total(l.last(), l.last());
    if l.drop_last().contains(k) {
        let i = choose|i: int| 0 <= i < l.drop_last().len() && l.drop_last()[i] == k;
        assert(l[i] == k);
        assert(text_less(l[i], l[l.len() - 1]));
    }
    if l.contains(k) && k != l.last() {
        let i = choose|i: int| 0 <= i < l.len() && l[i] == k;
        assert(l.drop_last()[i] == k);
    }
}

/// Puts a text among texts that stand in order.
fn put_in_order(list: &mut Vec<String>, name: String)
    requires
        ascending(views(old(list)@)),
        !views(old(list)@).contains(name@),
    ensures
        ascending(views(final(list)@)),
        forall|k: Seq<char>| #[trigger]
            views(final(list)@).contains(k) <==> views(old(list)@).contains(k) || k == name@,
{
    let ghost all = views(list@);
    let mut at: usize = list.len();
    while at > 0 && comes_before(name.as_str(), list[at - 1].as_str())
        invariant
            at <= list@.len(),
            *list == *old(list),
            all == views(list@),
            forall|j: int| at <= j < all.len() ==> text_less(name@, #[trigger] all[j]),
        decreases at,
    {
        assert(all[at - 1] == list@[at - 1]@);
        at -= 1;
    }
    let ghost n = name@;
    list.insert(at, name);
    proof {
        assert(views(list@) =~= all.insert(at as int, n));
        if at > 0 {
            assert(all[at - 1] == old(list)@[at - 1]@);
            assert(all.contains(all[at - 1]));
            lemma_text_less_total(n, all[at - 1]);
        }
        assert forall|i: int| 0 <= i < at implies text_less(#[trigger] all[i], n) by {
            if i < at - 1 {
                lemma_text_less_trans(all[i], all[at - 1], n);
            }
        }
        let now = views(list@);
        assert forall|i: int, j: int| 0 <= i < j < now.len() implies text_less(
            #[trigger] now[i],
            #[trigger] now[j],
        ) by {
            let a = if i < at { i } else { i - 1 };
            let b = if j < at { j } else { j - 1 };
            if i != at && j != at {
                assert(now[i] == all[a] && now[j] == all[b]);
            }
        }
        assert forall|k: Seq<char>| #[trigger] now.contains(k) <==> all.contains(k) || k == n by {
            if all.contains(k) {
                let i = choose|i: int| 0 <= i < all.len() && all[i] == k;
                assert(now[if i < at { i } else { i + 1 }] == k);
            }
            if k == n {
                assert(now[at as int] == k);
            }
            if now.contains(k) {
                let i = choose|i: int| 0 <= i < now.len() && now[i] == k;
                if i != at {
                    assert(all[if i < at { i } else { i - 1 }] == k);
                }
            }
        }
    }
}

impl<V: View> TextMap<V> {
    /// The keys, in order.
    pub fn names(&self) -> (r: Vec<String>)
        ensures
            views(r@) == names_of(self@),
            lists_names(views(r@), self@),
    {
        let n: usize = self.len();
        let ghost items = self.items();
        let mut out: Vec<String> = Vec::new();
        let mut i: usize = 0;
        while i < n
            invariant
                i <= n,
                n == items.len(),
                items == self.items(),
                distinct_keys(items),
                ascending(views(out@)),
                forall|k: Seq<char>| #[trigger]
                    views(out@).contains(k) <==> exists|j: int| 0 <= j < i && items[j].0 == k,
            decreases n - i,
        {
            let ghost before = views(out@);
            let name = self.key(i).clone();
            assert(!before.contains(name@)) by {
                if before.contains(name@) {
                    let j = choose|j: int| 0 <= j < i && items[j].0 == name@;
                    assert(items[j].0 != items[i as int].0);
                }
            }
            put_in_order(&mut out, name);
            assert forall|k: Seq<char>| #[trigger] views(out@).contains(k) <==> exists|j: int|
                0 <= j < i + 1 && items[j].0 == k by {
                if before.contains(k) {
                    let j = choose|j: int| 0 <= j < i && items[j].0 == k;
                    assert(0 <= j < i + 1 && items[j].0 == k);
                }
                if k == items[i as int].0 {
                    assert(0 <= i < i + 1 && items[i as int].0 == k);
                }
            }
            i += 1;
        }
        proof {
            lemma_as_map(items);
            assert forall|k: Seq<char>| #[trigger] views(out@).contains(k) <==> self@.contains_key(
                k,
            ) by {
                if views(out@).contains(k) {
                    let j = choose|j: int| 0 <= j < n && items[j].0 == k;
                    assert(as_map(items).contains_pair(items[j].0, items[j].1));
                }
            }
            assert(lists_names(views(out@), self@));
            lemma_names_are_one_list(views(out@), names_of(self@), self@);
        }
        out
    }
}

impl<V: View> View for TextMap<V> {
    type V = Map<Seq<char>, V::V>;

    open spec fn view(&self) -> Map<Seq<char>, V::V> {
        as_map(self.items())
    }
}

impl<V: Duplicate> Duplicate for TextMap<V> {
    fn duplicate(&self) -> (r: Self)
        ensures
            r.items() == self.items(),
    {
        let mut entries: Vec<(String, V)> = Vec::new();
        let mut i: usize = 0;
        while i < self.entries.len()
            invariant
                i <= self.entries@.len(),
                entries@.len() == i,
                forall|j: int|
                    0 <= j < i ==> entries@[j].0@ == self.entries@[j].0@ && entries@[j].1@
                        == self.entries@[j].1@,
            decreases self.entries@.len() - i,
        {
            let k = self.entries[i].0.clone();
            let v = self.entries[i].1.duplicate();
            entries.push((k, v));
            i += 1;
        }
        proof {
            use_type_invariant(self);
            let r = TextMap { entries };
            assert(r.items() =~= self.items());
        }
        TextMap { entries }
    }
}

/// A set of texts.
#[derive(Debug)]
pub struct TextSet {
    pub names: TextMap<bool>,
}

impl View for TextSet {
    type V = Set<Seq<char>>;

    open spec fn view(&self) -> Set<Seq<char>> {
        self.names@.dom()
    }
}

impl TextSet {
    pub fn new() -> (r: Self)
        ensures
            r@ == Set::<Seq<char>>::empty(),
    {
        let r = TextSet { names: TextMap::new() };
        assert(r@ =~= Set::<Seq<char>>::empty());
        r
    }

    pub fn contains(&self, name: &str) -> (r: bool)
        ensures
            r == self@.contains(name@),
    {
        self.names.get(name).is_some()
    }

    /// Adds a text. Returns whether it is new.
    pub fn insert(&mut self, name: &str) -> (r: bool)
        ensures
            r == !old(self)@.contains(name@),
            final(self)@ == old(self)@.insert(name@),
    {
        if self.names.get(name).is_some() {
            assert(self@.insert(name@) =~= self@);
            return false;
        }
        self.names.insert(name.to_owned(), true);
        assert(self@ =~= old(self)@.insert(name@));
        true
    }
}

} // verus!
