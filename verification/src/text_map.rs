//! A map from names to values that is walked in the order of the names.

use vstd::prelude::*;
use crate::order::{compare_text, TextOrder};
use crate::order::{text_before, text_before_total, text_before_transitive};

verus! {

/// Whether names stand in order, none of them twice.
pub open spec fn increasing(names: Seq<Seq<char>>) -> bool {
    forall|i: int, j: int| 0 <= i < j < names.len() ==> text_before(names[i], names[j])
}

/// A map from names to values, kept in the order of the names.
#[derive(Debug)]
pub struct TextMap<V> {
    entries: Vec<(String, V)>,
}

impl<V> TextMap<V> {
    /// The names in the map, in order.
    pub closed spec fn keys(self) -> Seq<Seq<char>> {
        self.entries@.map_values(|entry: (String, V)| entry.0@)
    }

    /// The values in the map, in the order of their names.
    pub closed spec fn values(self) -> Seq<V> {
        self.entries@.map_values(|entry: (String, V)| entry.1)
    }

    /// Every name occurs once, and the names stand in order.
    #[verifier::type_invariant]
    pub open spec fn well_formed(self) -> bool {
        &&& increasing(self.keys())
        &&& self.keys().len() == self.values().len()
    }
}

impl<V: View> View for TextMap<V> {
    type V = Map<Seq<char>, V::V>;

    open spec fn view(&self) -> Map<Seq<char>, V::V> {
        Map::new(
            |name: Seq<char>| self.keys().contains(name),
            |name: Seq<char>| self.values()[self.keys().index_of(name)]@,
        )
    }
}

/// In an ordered list of names each name has one place.
pub proof fn increasing_place(names: Seq<Seq<char>>, i: int)
    requires
        increasing(names),
        0 <= i < names.len(),
    ensures
        names.contains(names[i]),
        names.index_of(names[i]) == i,
{
    let j = names.index_of(names[i]);
    text_before_total(names[i], names[j]);
    text_before_total(names[j], names[i]);
}

/// The map holds, under the name at each place, the value at that place.
pub proof fn lemma_entry<V: View>(map: TextMap<V>, i: int)
    requires
        map.well_formed(),
        0 <= i < map.keys().len(),
    ensures
        map@.contains_key(map.keys()[i]),
        map@[map.keys()[i]] == map.values()[i]@,
{
    increasing_place(map.keys(), i);
}

/// A name in the map has a place among its keys.
pub proof fn lemma_place<V: View>(map: TextMap<V>, name: Seq<char>) -> (i: int)
    requires
        map.well_formed(),
        map@.contains_key(name),
    ensures
        0 <= i < map.keys().len(),
        map.keys()[i] == name,
        map@[name] == map.values()[i]@,
{
    map.keys().index_of(name)
}

/// Two ordered lists of the same names are the same list.
pub proof fn same_names(a: Seq<Seq<char>>, b: Seq<Seq<char>>)
    requires
        increasing(a),
        increasing(b),
        forall|name: Seq<char>| a.contains(name) <==> b.contains(name),
    ensures
        a == b,
    decreases a.len(),
{
    if a.len() == 0 {
        if b.len() > 0 {
            assert(b.contains(b[0]));
        }
        assert(a =~= b);
    } else {
        assert(a.contains(a[0]));
        assert(b.len() > 0);
        let (p, q) = (a.drop_last(), b.drop_last());
        assert(a.contains(a.last()) && b.contains(b.last()));
        let i = b.index_of(a.last());
        let j = a.index_of(b.last());
        text_before_total(a.last(), b.last());
        assert(a.last() == b.last());
        assert forall|name: Seq<char>| p.contains(name) <==> q.contains(name) by {
            text_before_total(name, name);
            if p.contains(name) {
                let k = p.index_of(name);
                assert(a[k] == name);
                assert(b.contains(name));
                assert(q[b.index_of(name)] == name);
            }
            if q.contains(name) {
                let k = q.index_of(name);
                assert(b[k] == name);
                assert(a.contains(name));
                assert(p[a.index_of(name)] == name);
            }
        }
        same_names(p, q);
        assert(a =~= p.push(a.last()));
        assert(b =~= q.push(b.last()));
    }
}

/// The order in which a map is walked follows from what it holds.
pub proof fn keys_follow_from_contents<V: View, W: View>(a: TextMap<V>, b: TextMap<W>)
    requires
        a.well_formed(),
        b.well_formed(),
        a@.dom() == b@.dom(),
    ensures
        a.keys() == b.keys(),
{
    assert forall|name: Seq<char>| a.keys().contains(name) <==> b.keys().contains(name) by {
        assert(a@.dom().contains(name) <==> a.keys().contains(name));
        assert(b@.dom().contains(name) <==> b.keys().contains(name));
    }
    same_names(a.keys(), b.keys());
}

impl<V: View> TextMap<V> {
    /// An empty map.
    pub fn new() -> (map: Self)
        ensures
            map@ == Map::<Seq<char>, V::V>::empty(),
            map.keys() == Seq::<Seq<char>>::empty(),
            map.well_formed(),
    {
        let map = TextMap { entries: Vec::new() };
        assert(map@ =~= Map::<Seq<char>, V::V>::empty());
        map
    }

    /// The number of names.
    pub fn len(&self) -> (n: usize)
        ensures
            n == self.keys().len(),
            self.well_formed(),
    {
        proof {
            use_type_invariant(self);
        }
        self.entries.len()
    }

    /// Whether the map holds no name.
    pub fn is_empty(&self) -> (empty: bool)
        ensures
            empty == (self.keys().len() == 0),
            empty == (self@ =~= Map::<Seq<char>, V::V>::empty()),
            self.well_formed(),
    {
        proof {
            use_type_invariant(self);
            if self.keys().len() > 0 {
                lemma_entry(*self, 0);
            }
        }
        self.entries.len() == 0
    }

    /// The name at a place in the order.
    pub fn name_at(&self, i: usize) -> (name: &String)
        requires
            i < self.keys().len(),
        ensures
            name@ == self.keys()[i as int],
            self@.contains_key(name@),
    {
        proof {
            use_type_invariant(self);
            lemma_entry(*self, i as int);
        }
        &self.entries[i].0
    }

    /// The value at a place in the order.
    pub fn value_at(&self, i: usize) -> (value: &V)
        requires
            i < self.keys().len(),
        ensures
            *value == self.values()[i as int],
            value@ == self@[self.keys()[i as int]],
            self@.contains_key(self.keys()[i as int]),
    {
        proof {
            use_type_invariant(self);
            lemma_entry(*self, i as int);
        }
        &self.entries[i].1
    }

    /// The first place whose name does not come before the given one.
    fn place(&self, name: &str) -> (i: usize)
        ensures
            i <= self.keys().len(),
            forall|j: int| 0 <= j < i ==> text_before(#[trigger] self.keys()[j], name@),
            forall|j: int|
                i <= j < self.keys().len() ==> !text_before(#[trigger] self.keys()[j], name@),
            self@.contains_key(name@) <==> i < self.keys().len() && self.keys()[i as int] == name@,
            self.well_formed(),
    {
        proof {
            use_type_invariant(self);
        }
        let mut i: usize = 0;
        while i < self.entries.len() && compare_text(self.entries[i].0.as_str(), name)
            == TextOrder::Before
            invariant
                i <= self.entries@.len(),
                forall|j: int| 0 <= j < i ==> text_before(#[trigger] self.keys()[j], name@),
            ensures
                i <= self.entries@.len(),
                forall|j: int| 0 <= j < i ==> text_before(#[trigger] self.keys()[j], name@),
                i < self.entries@.len() ==> !text_before(self.keys()[i as int], name@),
            decreases self.entries@.len() - i,
        {
            i += 1;
        }
        proof {
            let keys = self.keys();
            assert forall|j: int| i <= j < keys.len() implies !text_before(
                #[trigger] keys[j],
                name@,
            ) by {
                if j > i && text_before(keys[j], name@) {
                    text_before_transitive(keys[i as int], keys[j], name@);
                }
            }
            if self@.contains_key(name@) {
                let j = lemma_place(*self, name@);
                text_before_total(name@, name@);
                if j > i {
                    text_before_total(keys[i as int], keys[j]);
                }
            }
            if i < keys.len() && keys[i as int] == name@ {
                lemma_entry(*self, i as int);
            }
        }
        i
    }

    /// Whether the map holds a name.
    pub fn contains_key(&self, name: &str) -> (found: bool)
        ensures
            found == self@.contains_key(name@),
            self.well_formed(),
    {
        let i = self.place(name);
        if i < self.entries.len() {
            match compare_text(self.entries[i].0.as_str(), name) {
                TextOrder::Same => true,
                _ => false,
            }
        } else {
            false
        }
    }

    /// The value under a name.
    pub fn get(&self, name: &str) -> (value: Option<&V>)
        ensures
            value is Some <==> self@.contains_key(name@),
            value matches Some(found) ==> found@ == self@[name@],
            self.well_formed(),
    {
        let i = self.place(name);
        if i < self.entries.len() {
            match compare_text(self.entries[i].0.as_str(), name) {
                TextOrder::Same => {
                    proof {
                        lemma_entry(*self, i as int);
                    }
                    Some(&self.entries[i].1)
                },
                _ => None,
            }
        } else {
            None
        }
    }

    /// Puts a value under a name, in place of the one that was there.
    pub fn insert(&mut self, name: String, value: V)
        ensures
            final(self)@ == old(self)@.insert(name@, value@),
            final(self).well_formed(),
    {
        let i = self.place(name.as_str());
        let present = self.contains_key(name.as_str());
        let ghost before = *self;
        let ghost text = name@;
        let ghost held = value@;
        let mut entries: Vec<(String, V)> = Vec::new();
        std::mem::swap(&mut entries, &mut self.entries);
        if present {
            entries.remove(i);
        }
        entries.insert(i, (name, value));
        proof {
            let after = TextMap { entries };
            let keys = before.keys();
            if present {
                assert(after.keys() =~= keys);
            } else {
                assert(after.keys() =~= keys.insert(i as int, text));
                assert forall|j: int, k: int| 0 <= j < k < after.keys().len() implies text_before(
                    after.keys()[j],
                    after.keys()[k],
                ) by {
                    if j == i {
                        text_before_total(text, keys[k - 1]);
                        if keys[k - 1] == text {
                            lemma_entry(before, k - 1);
                        }
                    }
                }
            }
            assert(after.well_formed());
            assert(after@ =~= before@.insert(text, held)) by {
                assert forall|name: Seq<char>|
                    #![trigger after@.contains_key(name)]
                    after@.contains_key(name) == before@.insert(text, held).contains_key(name)
                        && (after@.contains_key(name) ==> after@[name] == before@.insert(
                        text,
                        held,
                    )[name]) by {
                    lemma_entry(after, i as int);
                    if after@.contains_key(name) {
                        let j = lemma_place(after, name);
                        if j != i {
                            let k = if present || j < i {
                                j
                            } else {
                                j - 1
                            };
                            lemma_entry(before, k);
                            assert(after.values()[j] == before.values()[k]);
                            increasing_place(after.keys(), j);
                            increasing_place(after.keys(), i as int);
                        }
                    }
                    if before@.contains_key(name) {
                        let k = lemma_place(before, name);
                        let j = if present || k < i {
                            k
                        } else {
                            k + 1
                        };
                        lemma_entry(after, j);
                    }
                }
            }
        }
        self.entries = entries;
    }

    /// Takes the value under a name out of the map.
    pub fn remove(&mut self, name: &str) -> (value: Option<V>)
        ensures
            final(self)@ == old(self)@.remove(name@),
            value is Some <==> old(self)@.contains_key(name@),
            value matches Some(taken) ==> taken@ == old(self)@[name@],
            final(self).well_formed(),
    {
        let i = self.place(name);
        let present = self.contains_key(name);
        if !present {
            assert(self@.remove(name@) =~= self@);
            return None;
        }
        let ghost before = *self;
        let mut entries: Vec<(String, V)> = Vec::new();
        std::mem::swap(&mut entries, &mut self.entries);
        let (_, value) = entries.remove(i);
        proof {
            let after = TextMap { entries };
            lemma_removed(before, after, i as int);
        }
        self.entries = entries;
        Some(value)
    }

    /// Takes the first name, with its value, out of the map.
    pub fn pop_first(&mut self) -> (entry: Option<(String, V)>)
        ensures
            entry is Some <==> old(self).keys().len() > 0,
            entry is None ==> *final(self) == *old(self),
            entry matches Some((name, value)) ==> {
                &&& name@ == old(self).keys()[0]
                &&& value@ == old(self)@[name@]
                &&& final(self).keys() == old(self).keys().drop_first()
                &&& final(self)@ == old(self)@.remove(name@)
            },
            old(self).well_formed(),
            final(self).well_formed(),
    {
        proof {
            use_type_invariant(&*self);
        }
        if self.entries.len() == 0 {
            return None;
        }
        let ghost before = *self;
        let mut entries: Vec<(String, V)> = Vec::new();
        std::mem::swap(&mut entries, &mut self.entries);
        let entry = entries.remove(0);
        proof {
            let after = TextMap { entries };
            lemma_removed(before, after, 0);
            lemma_entry(before, 0);
            assert(after.keys() =~= before.keys().drop_first());
        }
        self.entries = entries;
        Some(entry)
    }
}

proof fn lemma_removed<V: View>(before: TextMap<V>, after: TextMap<V>, i: int)
    requires
        before.well_formed(),
        0 <= i < before.keys().len(),
        after.entries@ == before.entries@.remove(i),
    ensures
        after.well_formed(),
        after@ == before@.remove(before.keys()[i]),
{
    let gone = before.keys()[i];
    assert(after.keys() =~= before.keys().remove(i));
    assert(after.values() =~= before.values().remove(i));
    assert forall|name: Seq<char>|
        #![trigger after@.contains_key(name)]
        after@.contains_key(name) == before@.remove(gone).contains_key(name)
            && (after@.contains_key(name) ==> after@[name] == before@.remove(gone)[name]) by {
        if after@.contains_key(name) {
            let j = lemma_place(after, name);
            let k = if j < i {
                j
            } else {
                j + 1
            };
            lemma_entry(before, k);
            increasing_place(before.keys(), k);
            increasing_place(before.keys(), i);
        }
        if before@.contains_key(name) && name != gone {
            let k = lemma_place(before, name);
            let j = if k < i {
                k
            } else {
                k - 1
            };
            lemma_entry(after, j);
        }
    }
    assert(after@ =~= before@.remove(gone));
}

} // verus!
