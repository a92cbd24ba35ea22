//! A table from text keys to values that keeps its entries in the order in
//! which their keys first came.

use vstd::prelude::*;
use vstd::string::*;

use crate::text::same_text;

verus! {

/// Where `key` stands in `s`: at the first entry with that key.
pub open spec fn index_of<V>(s: Seq<(Seq<char>, V)>, key: Seq<char>) -> Option<int>
    decreases s.len(),
{
    if s.len() == 0 {
        None
    } else if index_of(s.drop_last(), key) is Some {
        index_of(s.drop_last(), key)
    } else if s.last().0 == key {
        Some(s.len() - 1)
    } else {
        None
    }
}

/// The value under `key`.
pub open spec fn lookup<V>(s: Seq<(Seq<char>, V)>, key: Seq<char>) -> Option<V> {
    match index_of(s, key) {
        Some(i) => Some(s[i].1),
        None => None,
    }
}

/// The table with `value` under `key`: in the place of the entry with that key,
/// or at the end.
pub open spec fn put<V>(s: Seq<(Seq<char>, V)>, key: Seq<char>, value: V) -> Seq<(Seq<char>, V)> {
    match index_of(s, key) {
        Some(i) => s.update(i, (key, value)),
        None => s.push((key, value)),
    }
}

/// The table without the entry under `key`.
pub open spec fn without<V>(s: Seq<(Seq<char>, V)>, key: Seq<char>) -> Seq<(Seq<char>, V)> {
    match index_of(s, key) {
        Some(i) => s.remove(i),
        None => s,
    }
}

/// Whether no key occurs twice.
pub open spec fn distinct<V>(s: Seq<(Seq<char>, V)>) -> bool {
    forall|i: int, j: int| 0 <= i < j < s.len() ==> #[trigger] s[i].0 != #[trigger] s[j].0
}

pub proof fn lemma_index_of<V>(s: Seq<(Seq<char>, V)>, key: Seq<char>)
    ensures
        match index_of(s, key) {
            Some(i) => {
                &&& 0 <= i < s.len()
                &&& s[i].0 == key
                &&& forall|j: int| 0 <= j < i ==> #[trigger] s[j].0 != key
            },
            None => forall|j: int| 0 <= j < s.len() ==> #[trigger] s[j].0 != key,
        },
    decreases s.len(),
{
    if s.len() > 0 {
        let t = s.drop_last();
        lemma_index_of(t, key);
        assert(forall|j: int| 0 <= j < t.len() ==> #[trigger] t[j] == s[j]);
        if index_of(t, key) is None {
            assert forall|j: int| 0 <= j < s.len() - 1 implies #[trigger] s[j].0 != key by {
                assert(t[j].0 != key);
            }
        } else {
            let i = index_of(t, key)->0;
            assert forall|j: int| 0 <= j < i implies #[trigger] s[j].0 != key by {
                assert(t[j].0 != key);
            }
        }
    }
}

/// The first place of a key is where it is found.
pub proof fn lemma_index_is<V>(s: Seq<(Seq<char>, V)>, key: Seq<char>, i: int)
    requires
        0 <= i < s.len(),
        s[i].0 == key,
        forall|j: int| 0 <= j < i ==> #[trigger] s[j].0 != key,
    ensures
        index_of(s, key) == Some(i),
{
    lemma_index_of(s, key);
}

/// A key that no entry has is not found.
pub proof fn lemma_index_none<V>(s: Seq<(Seq<char>, V)>, key: Seq<char>)
    requires
        forall|j: int| 0 <= j < s.len() ==> #[trigger] s[j].0 != key,
    ensures
        index_of(s, key) is None,
{
    lemma_index_of(s, key);
}

/// What was put under a key is found there, and no other key is affected.
pub proof fn law_put<V>(s: Seq<(Seq<char>, V)>, key: Seq<char>, value: V, other: Seq<char>)
    ensures
        lookup(put(s, key, value), key) == Some(value),
        other != key ==> lookup(put(s, key, value), other) == lookup(s, other),
{
    lemma_index_of(s, key);
    lemma_index_of(s, other);
    let t = put(s, key, value);
    lemma_index_of(t, key);
    lemma_index_of(t, other);
    match index_of(s, key) {
        Some(i) => {
            lemma_index_is(t, key, i);
        },
        None => {
            lemma_index_is(t, key, s.len() as int);
        },
    }
    if other != key {
        match index_of(s, other) {
            Some(i) => {
                lemma_index_is(t, other, i);
            },
            None => {
                lemma_index_none(t, other);
            },
        }
    }
}

/// No key occurs twice in a table that was filled by `put`.
pub proof fn law_put_keeps_distinct<V>(s: Seq<(Seq<char>, V)>, key: Seq<char>, value: V)
    requires
        distinct(s),
    ensures
        distinct(put(s, key, value)),
{
    lemma_index_of(s, key);
}

/// Putting a value under a key leaves all keys where they are; a new key comes
/// last.
pub proof fn law_put_keeps_order<V>(s: Seq<(Seq<char>, V)>, key: Seq<char>, value: V)
    ensures
        forall|i: int| 0 <= i < s.len() ==> (#[trigger] put(s, key, value)[i]).0 == s[i].0,
        s.len() <= put(s, key, value).len() <= s.len() + 1,
        (forall|i: int| 0 <= i < s.len() ==> (#[trigger] s[i]).0 != key) ==> {
            &&& put(s, key, value).len() == s.len() + 1
            &&& put(s, key, value).last() == (key, value)
        },
        (exists|i: int| 0 <= i < s.len() && (#[trigger] s[i]).0 == key) ==> put(
            s,
            key,
            value,
        ).len() == s.len(),
{
    lemma_index_of(s, key);
}

/// A removed key is gone, and no other key is affected.
pub proof fn law_without<V>(s: Seq<(Seq<char>, V)>, key: Seq<char>, other: Seq<char>)
    requires
        distinct(s),
    ensures
        distinct(without(s, key)),
        lookup(without(s, key), key) is None,
        other != key ==> lookup(without(s, key), other) == lookup(s, other),
{
    lemma_index_of(s, key);
    lemma_index_of(s, other);
    let t = without(s, key);
    lemma_index_of(t, key);
    lemma_index_of(t, other);
    if index_of(s, key) is Some {
        let k = index_of(s, key)->0;
        assert forall|j: int| 0 <= j < t.len() implies #[trigger] t[j] == (if j < k {
            s[j]
        } else {
            s[j + 1]
        }) by {}
        assert forall|j: int| 0 <= j < t.len() implies #[trigger] t[j].0 != key by {
            if j >= k {
                assert(s[k].0 != s[j + 1].0);
            }
        }
        lemma_index_none(t, key);
        if other != key {
            match index_of(s, other) {
                Some(i) => {
                    let at = if i < k {
                        i
                    } else {
                        i - 1
                    };
                    assert(t[at] == s[i]);
                    lemma_index_is(t, other, at);
                },
                None => {
                    lemma_index_none(t, other);
                },
            }
        }
    }
}

/// A table from text keys to values.
pub struct Table<V> {
    entries: Vec<(String, V)>,
}

impl<V: View> View for Table<V> {
    type V = Seq<(Seq<char>, V::V)>;

    closed spec fn view(&self) -> Seq<(Seq<char>, V::V)> {
        Seq::new(self.entries@.len(), |i: int| (self.entries@[i].0@, self.entries@[i].1@))
    }
}

impl<V: View> Table<V> {
    pub fn new() -> (r: Self)
        ensures
            r@ == Seq::<(Seq<char>, V::V)>::empty(),
    {
        let r = Table { entries: Vec::new() };
        assert(r@ =~= Seq::<(Seq<char>, V::V)>::empty());
        r
    }

    pub fn len(&self) -> (r: usize)
        ensures
            r == self@.len(),
    {
        self.entries.len()
    }

    /// Where `key` stands.
    pub fn position(&self, key: &str) -> (r: Option<usize>)
        ensures
            match r {
                Some(i) => index_of(self@, key@) == Some(i as int),
                None => index_of(self@, key@) is None,
            },
            r matches Some(i) ==> i < self@.len(),
    {
        let mut i: usize = 0;
        while i < self.entries.len()
            invariant
                i <= self.entries@.len(),
                self@.len() == self.entries@.len(),
                forall|j: int| 0 <= j < i ==> #[trigger] self@[j].0 != key@,
            decreases self.entries@.len() - i,
        {
            if same_text(self.entries[i].0.as_str(), key) {
                proof {
                    lemma_index_is(self@, key@, i as int);
                }
                return Some(i);
            }
            i = i + 1;
        }
        proof {
            lemma_index_none(self@, key@);
        }
        None
    }

    /// The value under `key`.
    pub fn get(&self, key: &str) -> (r: Option<&V>)
        ensures
            match r {
                Some(v) => lookup(self@, key@) == Some(v@),
                None => lookup(self@, key@) is None,
            },
    {
        match self.position(key) {
            Some(i) => Some(&self.entries[i].1),
            None => None,
        }
    }

    pub fn contains(&self, key: &str) -> (r: bool)
        ensures
            r == lookup(self@, key@) is Some,
    {
        self.position(key).is_some()
    }

    /// The key of the entry at `i`.
    pub fn key_at(&self, i: usize) -> (r: &str)
        requires
            i < self@.len(),
        ensures
            r@ == self@[i as int].0,
    {
        self.entries[i].0.as_str()
    }

    /// The value of the entry at `i`.
    pub fn value_at(&self, i: usize) -> (r: &V)
        requires
            i < self@.len(),
        ensures
            r@ == self@[i as int].1,
    {
        &self.entries[i].1
    }

    /// The value of the entry at `i`, to be changed.
    pub fn value_at_mut(&mut self, i: usize) -> (r: &mut V)
        requires
            i < old(self)@.len(),
        ensures
            r@ == old(self)@[i as int].1,
            final(self)@ == old(self)@.update(i as int, (old(self)@[i as int].0, final(r)@)),
    {
        &mut self.entries[i].1
    }

    /// Replaces the value of the entry at `i`.
    pub fn replace_at(&mut self, i: usize, value: V)
        requires
            i < old(self)@.len(),
        ensures
            final(self)@ == old(self)@.update(i as int, (old(self)@[i as int].0, value@)),
    {
        *self.value_at_mut(i) = value;
    }

    /// Puts `value` under `key`.
    pub fn insert(&mut self, key: String, value: V)
        ensures
            final(self)@ == put(old(self)@, key@, value@),
    {
        match self.position(key.as_str()) {
            Some(i) => {
                self.entries.set(i, (key, value));
                assert(self@ =~= put(old(self)@, key@, value@));
            },
            None => {
                self.entries.push((key, value));
                assert(self@ =~= put(old(self)@, key@, value@));
            },
        }
    }

    /// Removes the entry under `key`.
    pub fn remove(&mut self, key: &str)
        ensures
            final(self)@ == without(old(self)@, key@),
    {
        match self.position(key) {
            Some(i) => {
                self.entries.remove(i);
                assert(self@ =~= without(old(self)@, key@));
            },
            None => {},
        }
    }
}

} // verus!
