//! A map keyed by text, walked in dictionary order of its keys.

use vstd::prelude::*;

use crate::duplicate::{Duplicate, SameView};
use crate::text;
use crate::text::{text_before, text_eq};

verus! {

/// Keys in strictly ascending dictionary order.
pub open spec fn ascending(keys: Seq<Seq<char>>) -> bool {
    forall|i: int, j: int| 0 <= i < j < keys.len() ==> text::text_lt(keys[i], keys[j])
}

/// The map that pairs each key with the value at its place.
pub open spec fn paired<W>(keys: Seq<Seq<char>>, values: Seq<W>) -> Map<Seq<char>, W> {
    Map::new(|k: Seq<char>| keys.contains(k), |k: Seq<char>| values[text::first_index(keys, k)])
}

proof fn ascending_places(keys: Seq<Seq<char>>, i: int)
    requires
        ascending(keys),
        0 <= i < keys.len(),
    ensures
        text::first_index(keys, keys[i]) == i,
        keys.contains(keys[i]),
{
    assert forall|j: int| 0 <= j < i implies keys[j] != keys[i] by {
        text::text_lt_irreflexive(keys[i]);
    }
    text::first_index_at(keys, keys[i], i);
}

proof fn ascending_distinct(keys: Seq<Seq<char>>)
    requires
        ascending(keys),
    ensures
        keys.no_duplicates(),
{
    assert forall|i: int, j: int| 0 <= i < j < keys.len() implies keys[i] != keys[j] by {
        text::text_lt_irreflexive(keys[j]);
    }
}

proof fn paired_at<W>(keys: Seq<Seq<char>>, values: Seq<W>)
    requires
        ascending(keys),
        keys.len() == values.len(),
    ensures
        forall|i: int| 0 <= i < keys.len() ==> #[trigger] paired(keys, values).contains_key(keys[i]) && paired(keys, values)[keys[i]] == values[i],
        forall|k: Seq<char>| #[trigger] paired(keys, values).contains_key(k) ==> exists|i: int| 0 <= i < keys.len() && keys[i] == k,
        paired(keys, values).dom() == keys.to_set(),
        paired(keys, values).dom().finite(),
        paired(keys, values).len() == keys.len(),
{
    assert forall|i: int| 0 <= i < keys.len() implies #[trigger] paired(keys, values).contains_key(keys[i]) && paired(keys, values)[keys[i]] == values[i] by {
        ascending_places(keys, i);
    }
    assert(paired(keys, values).dom() =~= keys.to_set());
    ascending_distinct(keys);
    keys.unique_seq_to_set();
}

/// Keys in ascending order are determined by the set they make up.
pub proof fn ascending_unique(a: Seq<Seq<char>>, b: Seq<Seq<char>>)
    requires
        ascending(a),
        ascending(b),
        a.to_set() == b.to_set(),
    ensures
        a == b,
    decreases a.len(),
{
    if a.len() == 0 {
        if b.len() > 0 {
            assert(b.to_set().contains(b[0]));
            assert(a.to_set().contains(b[0]));
        }
        assert(a =~= b);
    } else {
        assert(a.to_set().contains(a[0]));
        assert(b.to_set().contains(a[0]));
        let x = a.last();
        let y = b.last();
        assert(a.to_set().contains(x) && b.to_set().contains(x));
        assert(b.to_set().contains(y) && a.to_set().contains(y));
        let j = choose|j: int| 0 <= j < b.len() && b[j] == x;
        let i = choose|i: int| 0 <= i < a.len() && a[i] == y;
        if j < b.len() - 1 {
            assert(text::text_lt(x, y));
            if i < a.len() - 1 {
                assert(text::text_lt(y, x));
                text::text_lt_transitive(x, y, x);
            }
            text::text_lt_irreflexive(x);
        }
        assert(x == y);
        assert forall|k: Seq<char>| a.drop_last().to_set().contains(k) <==> b.drop_last().to_set().contains(k) by {
            text::text_lt_irreflexive(k);
            if a.drop_last().to_set().contains(k) {
                let m = choose|m: int| 0 <= m < a.drop_last().len() && a.drop_last()[m] == k;
                assert(a[m] == k);
                assert(a.to_set().contains(k));
                assert(b.to_set().contains(k));
                let n = choose|n: int| 0 <= n < b.len() && b[n] == k;
                assert(text::text_lt(k, x));
                assert(b.drop_last()[n] == k);
            }
            if b.drop_last().to_set().contains(k) {
                let m = choose|m: int| 0 <= m < b.drop_last().len() && b.drop_last()[m] == k;
                assert(b[m] == k);
                assert(b.to_set().contains(k));
                assert(a.to_set().contains(k));
                let n = choose|n: int| 0 <= n < a.len() && a[n] == k;
                assert(text::text_lt(k, x));
                assert(a.drop_last()[n] == k);
            }
        }
        assert(a.drop_last().to_set() =~= b.drop_last().to_set());
        ascending_unique(a.drop_last(), b.drop_last());
        assert(a =~= a.drop_last().push(x));
        assert(b =~= b.drop_last().push(y));
    }
}

/// The texts of a set in dictionary order.
pub open spec fn key_order(set: Set<Seq<char>>) -> Seq<Seq<char>> {
    choose|keys: Seq<Seq<char>>| ascending(keys) && keys.to_set() == set
}

/// Ascending keys are the dictionary order of the set they make up.
pub proof fn ascending_is_key_order(keys: Seq<Seq<char>>)
    requires
        ascending(keys),
    ensures
        key_order(keys.to_set()) == keys,
{
    let chosen = key_order(keys.to_set());
    assert(ascending(chosen) && chosen.to_set() == keys.to_set());
    ascending_unique(chosen, keys);
}

proof fn slotted_in(keys: Seq<Seq<char>>, key: Seq<char>) -> (r: Seq<Seq<char>>)
    requires
        ascending(keys),
        !keys.contains(key),
    ensures
        ascending(r),
        forall|k: Seq<char>| #[trigger] r.contains(k) <==> keys.contains(k) || k == key,
    decreases keys.len(),
{
    if keys.len() == 0 || text::text_lt(keys.last(), key) {
        let r = keys.push(key);
        assert forall|i: int, j: int| 0 <= i < j < r.len() implies text::text_lt(
            #[trigger] r[i],
            #[trigger] r[j],
        ) by {
            if j == keys.len() && i < keys.len() - 1 {
                text::text_lt_transitive(keys[i], keys.last(), key);
            }
        }
        assert forall|k: Seq<char>| #[trigger] r.contains(k) <==> keys.contains(k) || k == key by {
            if keys.contains(k) {
                let i = choose|i: int| 0 <= i < keys.len() && keys[i] == k;
                assert(r[i] == k);
            }
            assert(r[keys.len() as int] == key);
            if r.contains(k) {
                let i = choose|i: int| 0 <= i < r.len() && r[i] == k;
                if i < keys.len() {
                    assert(keys[i] == k);
                }
            }
        }
        r
    } else {
        let front = keys.drop_last();
        let last = keys.last();
        assert(keys.contains(last));
        text::text_lt_total(last, key);
        if front.contains(key) {
            let i = choose|i: int| 0 <= i < front.len() && front[i] == key;
            assert(keys[i] == key);
        }
        let earlier = slotted_in(front, key);
        let r = earlier.push(last);
        assert forall|i: int, j: int| 0 <= i < j < r.len() implies text::text_lt(
            #[trigger] r[i],
            #[trigger] r[j],
        ) by {
            if j == earlier.len() {
                assert(earlier.contains(earlier[i]));
                if earlier[i] != key {
                    let m = choose|m: int| 0 <= m < front.len() && front[m] == earlier[i];
                    assert(keys[m] == earlier[i]);
                }
            }
        }
        assert forall|k: Seq<char>| #[trigger] r.contains(k) <==> keys.contains(k) || k == key by {
            if keys.contains(k) {
                let i = choose|i: int| 0 <= i < keys.len() && keys[i] == k;
                if i < front.len() {
                    assert(front[i] == k);
                    assert(earlier.contains(k));
                    let m = choose|m: int| 0 <= m < earlier.len() && earlier[m] == k;
                    assert(r[m] == k);
                } else {
                    assert(r[earlier.len() as int] == k);
                }
            }
            if k == key {
                assert(earlier.contains(k));
                let m = choose|m: int| 0 <= m < earlier.len() && earlier[m] == k;
                assert(r[m] == k);
            }
            if r.contains(k) {
                let i = choose|i: int| 0 <= i < r.len() && r[i] == k;
                if i < earlier.len() {
                    assert(earlier[i] == k);
                    assert(earlier.contains(k));
                    if k != key {
                        let m = choose|m: int| 0 <= m < front.len() && front[m] == k;
                        assert(keys[m] == k);
                    }
                }
            }
        }
        r
    }
}

proof fn some_order(set: Set<Seq<char>>) -> (keys: Seq<Seq<char>>)
    requires
        set.finite(),
    ensures
        ascending(keys),
        keys.to_set() == set,
    decreases set.len(),
{
    if set.len() == 0 {
        let keys = Seq::<Seq<char>>::empty();
        assert(set =~= Set::<Seq<char>>::empty());
        assert(keys.to_set() =~= set);
        keys
    } else {
        let key = set.choose();
        let rest = some_order(set.remove(key));
        if rest.contains(key) {
            assert(rest.to_set().contains(key));
        }
        let keys = slotted_in(rest, key);
        assert forall|k: Seq<char>| keys.to_set().contains(k) <==> set.contains(k) by {
            assert(keys.contains(k) <==> rest.contains(k) || k == key);
            assert(rest.to_set().contains(k) <==> set.remove(key).contains(k));
        }
        assert(keys.to_set() =~= set);
        keys
    }
}

/// The dictionary order of a set lists each of its texts once, every one before those that
/// come after it.
pub proof fn key_order_lists_the_set(set: Set<Seq<char>>)
    requires
        set.finite(),
    ensures
        ascending(key_order(set)),
        key_order(set).to_set() == set,
        key_order(set).len() == set.len(),
        forall|i: int, j: int|
            0 <= i < j < key_order(set).len() ==> text::text_lt(
                #[trigger] key_order(set)[i],
                #[trigger] key_order(set)[j],
            ),
{
    let keys = some_order(set);
    assert(ascending(keys) && keys.to_set() == set);
    ascending_distinct(key_order(set));
    key_order(set).unique_seq_to_set();
}

/// A map from text to `V`.
#[derive(Debug, PartialEq, Eq)]
pub struct StrMap<V> {
    entries: Vec<(String, V)>,
}

impl<V> StrMap<V> {
    /// The keys, in dictionary order.
    pub closed spec fn keys(&self) -> Seq<Seq<char>> {
        Seq::new(self.entries@.len(), |i: int| self.entries@[i].0@)
    }

    #[verifier::type_invariant]
    spec fn sorted(&self) -> bool {
        ascending(self.keys())
    }
}

impl<V: View> StrMap<V> {
    /// The values, in the order of their keys.
    pub closed spec fn values(&self) -> Seq<V::V> {
        Seq::new(self.entries@.len(), |i: int| self.entries@[i].1@)
    }

    /// A map without entries.
    pub fn new() -> (r: Self)
        ensures
            r@ == Map::<Seq<char>, V::V>::empty(),
    {
        let r = StrMap { entries: Vec::new() };
        assert(r@ =~= Map::<Seq<char>, V::V>::empty());
        r
    }

    /// The number of entries.
    pub fn len(&self) -> (r: usize)
        ensures
            r == self@.len(),
            r == self.keys().len(),
            r == self.values().len(),
            ascending(self.keys()),
            self.keys() == key_order(self@.dom()),
            self@.dom() == self.keys().to_set(),
            forall|i: int| 0 <= i < r ==> #[trigger] self@.contains_key(self.keys()[i]) && self@[self.keys()[i]]
                == self.values()[i],
    {
        proof {
            use_type_invariant(self);
            paired_at(self.keys(), self.values());
            ascending_is_key_order(self.keys());
        }
        self.entries.len()
    }

    /// Whether there are no entries.
    pub fn is_empty(&self) -> (r: bool)
        ensures
            r == (self@.len() == 0),
            r == (self@ == Map::<Seq<char>, V::V>::empty()),
    {
        let n: usize = self.len();
        proof {
            if n == 0 {
                assert(self@ =~= Map::<Seq<char>, V::V>::empty());
            } else {
                assert(self@.contains_key(self.keys()[0]));
            }
        }
        n == 0
    }

    /// The `i`-th key in dictionary order.
    pub fn key_at(&self, i: usize) -> (r: &str)
        requires
            i < self.keys().len(),
        ensures
            r@ == self.keys()[i as int],
    {
        self.entries[i].0.as_str()
    }

    /// The value under the `i`-th key.
    pub fn value_at(&self, i: usize) -> (r: &V)
        requires
            i < self.keys().len(),
        ensures
            r@ == self.values()[i as int],
    {
        &self.entries[i].1
    }

    /// Where `key` stands, or where it would.
    fn place(&self, key: &str) -> (r: (usize, bool))
        ensures
            r.0 <= self.entries.len(),
            forall|i: int| 0 <= i < r.0 ==> text::text_lt(self.keys()[i], key@),
            r.1 ==> r.0 < self.entries.len() && self.keys()[r.0 as int] == key@,
            !r.1 ==> forall|i: int| r.0 <= i < self.entries.len() ==> text::text_lt(key@, self.keys()[i]),
    {
        proof {
            use_type_invariant(self);
        }
        let mut i: usize = 0;
        while i < self.entries.len()
            invariant
                i <= self.entries.len(),
                ascending(self.keys()),
                forall|j: int| 0 <= j < i ==> text::text_lt(self.keys()[j], key@),
            decreases self.entries.len() - i,
        {
            let here = self.entries[i].0.as_str();
            assert(here@ == self.keys()[i as int]);
            if text_eq(here, key) {
                return (i, true);
            }
            if text_before(key, here) {
                assert forall|j: int| i <= j < self.entries.len() implies text::text_lt(
                    key@,
                    self.keys()[j],
                ) by {
                    if i < j {
                        text::text_lt_transitive(key@, self.keys()[i as int], self.keys()[j]);
                    }
                }
                return (i, false);
            }
            proof {
                text::text_lt_total(here@, key@);
            }
            i += 1;
        }
        (i, false)
    }

    proof fn absent_where_apart(&self, key: Seq<char>, at: int)
        requires
            0 <= at <= self.keys().len(),
            forall|i: int| 0 <= i < at ==> text::text_lt(self.keys()[i], key),
            forall|i: int| at <= i < self.keys().len() ==> text::text_lt(key, self.keys()[i]),
        ensures
            !self.keys().contains(key),
    {
        text::text_lt_irreflexive(key);
    }

    /// Whether `key` has a value.
    pub fn contains_key(&self, key: &str) -> (r: bool)
        ensures
            r == self@.contains_key(key@),
    {
        self.get(key).is_some()
    }

    /// The value under `key`.
    pub fn get(&self, key: &str) -> (r: Option<&V>)
        ensures
            match r {
                Some(v) => self@.contains_key(key@) && self@[key@] == v@,
                None => !self@.contains_key(key@),
            },
    {
        let (at, found): (usize, bool) = self.place(key);
        proof {
            use_type_invariant(self);
            paired_at(self.keys(), self.values());
        }
        if found {
            assert(self@.contains_key(self.keys()[at as int]));
            Some(&self.entries[at].1)
        } else {
            proof {
                self.absent_where_apart(key@, at as int);
            }
            None
        }
    }

    /// Puts `value` under `key`, in place of what stood there.
    pub fn insert(&mut self, key: String, value: V)
        ensures
            final(self)@ == old(self)@.insert(key@, value@),
    {
        let (at, found): (usize, bool) = self.place(key.as_str());
        let ghost ks = self.keys();
        let ghost vs = self.values();
        let ghost k = key@;
        let ghost v = value@;
        proof {
            use_type_invariant(&*self);
            paired_at(ks, vs);
        }
        let mut entries: Vec<(String, V)> = Vec::new();
        std::mem::swap(&mut self.entries, &mut entries);
        if found {
            entries.set(at, (key, value));
            assert(Seq::new(entries@.len(), |i: int| entries@[i].0@) =~= ks);
            self.entries = entries;
            proof {
                assert(self.keys() =~= ks);
                assert(self.values() =~= vs.update(at as int, v));
                paired_at(self.keys(), self.values());
                assert(ks[at as int] == k);
                assert forall|x: Seq<char>| #[trigger] self@.contains_key(x) && x != k implies self@[x] == paired(ks, vs)[x] by {
                    let i = choose|i: int| 0 <= i < ks.len() && ks[i] == x;
                    assert(self@.contains_key(ks[i]));
                    assert(paired(ks, vs).contains_key(ks[i]));
                }
                assert(self@.contains_key(ks[at as int]));
                assert(self@ =~= paired(ks, vs).insert(k, v));
            }
        } else {
            proof {
                old(self).absent_where_apart(k, at as int);
                assert(ascending(ks.insert(at as int, k)));
            }
            entries.insert(at, (key, value));
            assert(Seq::new(entries@.len(), |i: int| entries@[i].0@) =~= ks.insert(at as int, k));
            self.entries = entries;
            proof {
                assert(self.keys() =~= ks.insert(at as int, k));
                assert(self.values() =~= vs.insert(at as int, v));
                paired_at(self.keys(), self.values());
                assert forall|x: Seq<char>| #[trigger] self@.contains_key(x) implies paired(ks, vs).insert(k, v).contains_key(x) && self@[x] == paired(ks, vs).insert(k, v)[x] by {
                    let i = choose|i: int| 0 <= i < self.keys().len() && self.keys()[i] == x;
                    assert(self@.contains_key(self.keys()[i]));
                    if i < at {
                        assert(paired(ks, vs).contains_key(ks[i]));
                    } else if i > at {
                        assert(paired(ks, vs).contains_key(ks[i - 1]));
                    }
                }
                assert forall|x: Seq<char>| #[trigger] paired(ks, vs).insert(k, v).contains_key(x) implies self@.contains_key(x) by {
                    if x == k {
                        assert(self@.contains_key(self.keys()[at as int]));
                    } else {
                        assert(paired(ks, vs).contains_key(x));
                        let i = choose|i: int| 0 <= i < ks.len() && ks[i] == x;
                        if i < at {
                            assert(self@.contains_key(self.keys()[i]));
                        } else {
                            assert(self@.contains_key(self.keys()[i + 1]));
                        }
                    }
                }
                assert(self@ =~= paired(ks, vs).insert(k, v));
            }
        }
    }

    /// Takes `key` and its value out.
    pub fn remove(&mut self, key: &str) -> (r: Option<V>)
        ensures
            match r {
                Some(v) => old(self)@.contains_key(key@) && old(self)@[key@] == v@ && final(self)@
                    == old(self)@.remove(key@),
                None => !old(self)@.contains_key(key@) && final(self)@ == old(self)@,
            },
    {
        let (at, found): (usize, bool) = self.place(key);
        let ghost ks = self.keys();
        let ghost vs = self.values();
        proof {
            use_type_invariant(&*self);
            paired_at(ks, vs);
        }
        if !found {
            proof {
                self.absent_where_apart(key@, at as int);
            }
            return None;
        }
        proof {
            assert(ascending(ks.remove(at as int)));
            assert(paired(ks, vs).contains_key(ks[at as int]));
        }
        let mut entries: Vec<(String, V)> = Vec::new();
        std::mem::swap(&mut self.entries, &mut entries);
        let (_, value) = entries.remove(at);
        assert(Seq::new(entries@.len(), |i: int| entries@[i].0@) =~= ks.remove(at as int));
        self.entries = entries;
        proof {
            assert(self.keys() =~= ks.remove(at as int));
            assert(self.values() =~= vs.remove(at as int));
            paired_at(self.keys(), self.values());
            assert forall|x: Seq<char>| #[trigger] self@.contains_key(x) implies paired(ks, vs).remove(key@).contains_key(x) && self@[x] == paired(ks, vs).remove(key@)[x] by {
                let i = choose|i: int| 0 <= i < self.keys().len() && self.keys()[i] == x;
                assert(self@.contains_key(self.keys()[i]));
                ascending_places(ks, at as int);
                if i < at {
                    assert(paired(ks, vs).contains_key(ks[i]));
                    ascending_places(ks, i);
                } else {
                    assert(paired(ks, vs).contains_key(ks[i + 1]));
                    ascending_places(ks, i + 1);
                }
            }
            assert forall|x: Seq<char>| #[trigger] paired(ks, vs).remove(key@).contains_key(x) implies self@.contains_key(x) by {
                assert(paired(ks, vs).contains_key(x));
                let i = choose|i: int| 0 <= i < ks.len() && ks[i] == x;
                if i < at {
                    assert(self@.contains_key(self.keys()[i]));
                } else {
                    assert(self@.contains_key(self.keys()[i - 1]));
                }
            }
            assert(self@ =~= paired(ks, vs).remove(key@));
        }
        Some(value)
    }
}

impl<V: View> View for StrMap<V> {
    type V = Map<Seq<char>, V::V>;

    open spec fn view(&self) -> Map<Seq<char>, V::V> {
        paired(self.keys(), self.values())
    }
}

impl<V: Duplicate> Duplicate for StrMap<V> {
    fn duplicate(&self) -> (r: Self) {
        proof {
            use_type_invariant(self);
        }
        let mut entries: Vec<(String, V)> = Vec::new();
        let mut i: usize = 0;
        while i < self.entries.len()
            invariant
                i <= self.entries.len(),
                entries.len() == i,
                forall|j: int|
                    0 <= j < i ==> (#[trigger] entries@[j]).0@ == self.entries@[j].0@ && entries@[j].1@
                        == self.entries@[j].1@,
            decreases self.entries.len() - i,
        {
            let entry = (self.entries[i].0.clone(), self.entries[i].1.duplicate());
            entries.push(entry);
            i += 1;
        }
        assert(Seq::new(entries@.len(), |i: int| entries@[i].0@) =~= self.keys());
        let r = StrMap { entries };
        assert(r.keys() =~= self.keys());
        assert(r.values() =~= self.values());
        r
    }
}

impl<V: Duplicate> Clone for StrMap<V> {
    fn clone(&self) -> (r: Self)
        ensures
            r@ == self@,
    {
        self.duplicate()
    }
}

impl<V: SameView> SameView for StrMap<V> {
    fn same(&self, other: &Self) -> (r: bool) {
        proof {
            use_type_invariant(self);
            use_type_invariant(other);
            paired_at(self.keys(), self.values());
            paired_at(other.keys(), other.values());
            if self@ == other@ {
                ascending_unique(self.keys(), other.keys());
                assert forall|i: int| 0 <= i < self.keys().len() implies self.values()[i] == other.values()[i] by {
                    assert(self@.contains_key(self.keys()[i]));
                    assert(other@.contains_key(other.keys()[i]));
                }
            }
        }
        if self.entries.len() != other.entries.len() {
            assert(self.keys().len() != other.keys().len());
            return false;
        }
        let mut i: usize = 0;
        while i < self.entries.len()
            invariant
                i <= self.entries.len(),
                self.entries.len() == other.entries.len(),
                self@ == other@ ==> self.keys() == other.keys() && forall|i: int|
                    0 <= i < self.keys().len() ==> self.values()[i] == other.values()[i],
                forall|j: int| 0 <= j < i ==> self.keys()[j] == other.keys()[j],
                forall|j: int| 0 <= j < i ==> self.values()[j] == other.values()[j],
            decreases self.entries.len() - i,
        {
            assert(self.keys()[i as int] == self.entries@[i as int].0@);
            assert(other.keys()[i as int] == other.entries@[i as int].0@);
            assert(self.values()[i as int] == self.entries@[i as int].1@);
            assert(other.values()[i as int] == other.entries@[i as int].1@);
            if !text_eq(self.entries[i].0.as_str(), other.entries[i].0.as_str()) {
                return false;
            }
            if !self.entries[i].1.same(&other.entries[i].1) {
                return false;
            }
            i += 1;
        }
        assert(self.keys() =~= other.keys());
        assert(self.values() =~= other.values());
        true
    }
}

} // verus!
