//! An ordered table keyed by text, in which no key occurs twice.
//!
//! Both tables of the store are instances of it. A table is described by the
//! sequence of its entries, oldest first; the functions below say what it
//! means to look a key up in such a sequence, to drop it, and to write it.

use crate::text::str_eq;
use vstd::prelude::*;

verus! {

/// Some entry of `s` has the key `key`.
pub open spec fn has_key<T>(s: Seq<(Seq<char>, T)>, key: Seq<char>) -> bool {
    exists|i: int| 0 <= i < s.len() && (#[trigger] s[i]).0 == key
}

/// No two entries of `s` share a key.
pub open spec fn distinct_keys<T>(s: Seq<(Seq<char>, T)>) -> bool {
    forall|i: int, j: int| 0 <= i < j < s.len() ==> (#[trigger] s[i]).0 != (#[trigger] s[j]).0
}

/// The value stored under `key`, if any (the latest one, should there be several).
pub open spec fn value_of<T>(s: Seq<(Seq<char>, T)>, key: Seq<char>) -> Option<T>
    decreases s.len(),
{
    if s.len() == 0 {
        None
    } else if s.last().0 == key {
        Some(s.last().1)
    } else {
        value_of(s.drop_last(), key)
    }
}

/// `s` with every entry under `key` taken out; the others keep their order.
pub open spec fn without<T>(s: Seq<(Seq<char>, T)>, key: Seq<char>) -> Seq<(Seq<char>, T)> {
    s.filter(|e: (Seq<char>, T)| e.0 != key)
}

/// `s` after writing `value` under `key`: an earlier entry under that key
/// leaves, and the new entry goes to the end.
pub open spec fn with<T>(s: Seq<(Seq<char>, T)>, key: Seq<char>, value: T) -> Seq<(Seq<char>, T)> {
    without(s, key).push((key, value))
}

/// `s` with the value under `key` exchanged in place.
pub open spec fn replaced<T>(s: Seq<(Seq<char>, T)>, key: Seq<char>, value: T) -> Seq<
    (Seq<char>, T),
> {
    s.map_values(
        |e: (Seq<char>, T)|
            if e.0 == key {
                (key, value)
            } else {
                e
            },
    )
}

/// Looking a key up finds something exactly when the key occurs.
pub proof fn lemma_value_of_has_key<T>(s: Seq<(Seq<char>, T)>, key: Seq<char>)
    ensures
        value_of(s, key) is Some <==> has_key(s, key),
    decreases s.len(),
{
    if s.len() > 0 {
        lemma_value_of_has_key(s.drop_last(), key);
        if s.last().0 == key {
            assert(s[s.len() - 1].0 == key);
        } else if has_key(s, key) {
            let i = choose|i: int| 0 <= i < s.len() && (#[trigger] s[i]).0 == key;
            assert(s.drop_last()[i].0 == key);
        } else if has_key(s.drop_last(), key) {
            let i = choose|i: int|
                0 <= i < s.drop_last().len() && (#[trigger] s.drop_last()[i]).0 == key;
            assert(s[i].0 == key);
        }
    }
}

/// Where keys are distinct, the entry at any position is the one a lookup of
/// its key finds.
pub proof fn lemma_value_of_at<T>(s: Seq<(Seq<char>, T)>, i: int)
    requires
        distinct_keys(s),
        0 <= i < s.len(),
    ensures
        value_of(s, s[i].0) == Some(s[i].1),
    decreases s.len(),
{
    if i < s.len() - 1 {
        assert(s.drop_last()[i] == s[i]);
        assert(s[i].0 != s[s.len() - 1].0);
        assert(distinct_keys(s.drop_last())) by {
            assert forall|a: int, b: int| 0 <= a < b < s.drop_last().len() implies (
            #[trigger] s.drop_last()[a]).0 != (#[trigger] s.drop_last()[b]).0 by {
                assert(s[a].0 != s[b].0);
            }
        }
        lemma_value_of_at(s.drop_last(), i);
    }
}

/// Dropping a key that does not occur changes nothing.
pub proof fn lemma_without_absent<T>(s: Seq<(Seq<char>, T)>, key: Seq<char>)
    requires
        !has_key(s, key),
    ensures
        without(s, key) == s,
    decreases s.len(),
{
    reveal(Seq::filter);
    if s.len() > 0 {
        assert(s[s.len() - 1].0 != key);
        assert(!has_key(s.drop_last(), key)) by {
            if has_key(s.drop_last(), key) {
                let i = choose|i: int|
                    0 <= i < s.drop_last().len() && (#[trigger] s.drop_last()[i]).0 == key;
                assert(s[i].0 == key);
            }
        }
        lemma_without_absent(s.drop_last(), key);
        assert(s.drop_last().push(s.last()) =~= s);
    }
}

/// Distinct keys stay distinct when the newest entry is left out.
pub proof fn lemma_distinct_drop_last<T>(s: Seq<(Seq<char>, T)>)
    requires
        distinct_keys(s),
        s.len() > 0,
    ensures
        distinct_keys(s.drop_last()),
        !has_key(s.drop_last(), s.last().0),
{
    let init = s.drop_last();
    assert forall|a: int, b: int| 0 <= a < b < init.len() implies (#[trigger] init[a]).0 != (
    #[trigger] init[b]).0 by {
        assert(s[a].0 != s[b].0);
    }
    if has_key(init, s.last().0) {
        let i = choose|i: int| 0 <= i < init.len() && (#[trigger] init[i]).0 == s.last().0;
        assert(s[i].0 != s[s.len() - 1].0);
    }
}

/// Where keys are distinct, dropping a key takes out the one entry that has it.
pub proof fn lemma_without_at<T>(s: Seq<(Seq<char>, T)>, i: int)
    requires
        distinct_keys(s),
        0 <= i < s.len(),
    ensures
        without(s, s[i].0) == s.remove(i),
    decreases s.len(),
{
    reveal(Seq::filter);
    let key = s[i].0;
    let init = s.drop_last();
    lemma_distinct_drop_last(s);
    if i == s.len() - 1 {
        lemma_without_absent(init, key);
        assert(s.remove(i) =~= init);
    } else {
        assert(s[i].0 != s[s.len() - 1].0);
        assert(init[i] == s[i]);
        lemma_without_at(init, i);
        assert(init.remove(i).push(s.last()) =~= s.remove(i));
    }
}

/// Dropping a key leaves the value of every other key as it was.
pub proof fn lemma_without_value<T>(s: Seq<(Seq<char>, T)>, key: Seq<char>, other: Seq<char>)
    ensures
        value_of(without(s, key), other) == if other == key {
            None
        } else {
            value_of(s, other)
        },
    decreases s.len(),
{
    reveal(Seq::filter);
    if s.len() > 0 {
        let init = s.drop_last();
        lemma_without_value(init, key, other);
        if s.last().0 != key {
            assert(without(s, key).drop_last() =~= without(init, key));
        }
    }
}

/// Dropping a key keeps distinct keys distinct.
pub proof fn lemma_without_distinct<T>(s: Seq<(Seq<char>, T)>, key: Seq<char>)
    requires
        distinct_keys(s),
    ensures
        distinct_keys(without(s, key)),
    decreases s.len(),
{
    reveal(Seq::filter);
    if s.len() > 0 {
        let init = s.drop_last();
        let wi = without(init, key);
        lemma_distinct_drop_last(s);
        lemma_without_distinct(init, key);
        if s.last().0 != key {
            let w = without(s, key);
            assert(w == wi.push(s.last()));
            lemma_without_value(init, key, s.last().0);
            lemma_value_of_has_key(init, s.last().0);
            lemma_value_of_has_key(wi, s.last().0);
            assert forall|a: int, b: int| 0 <= a < b < w.len() implies (#[trigger] w[a]).0 != (
            #[trigger] w[b]).0 by {
                if b < wi.len() {
                    assert(wi[a].0 != wi[b].0);
                } else {
                    assert(wi[a].0 != s.last().0);
                }
            }
        }
    }
}

/// What remains after dropping a key: the key is gone, every other key keeps
/// its value, and distinct keys stay distinct.
pub proof fn lemma_without<T>(s: Seq<(Seq<char>, T)>, key: Seq<char>)
    ensures
        !has_key(without(s, key), key),
        value_of(without(s, key), key) is None,
        distinct_keys(s) ==> distinct_keys(without(s, key)),
        without(s, key).len() <= s.len(),
        forall|other: Seq<char>|
            other != key ==> #[trigger] value_of(without(s, key), other) == value_of(s, other),
        forall|other: Seq<char>|
            other != key ==> #[trigger] has_key(without(s, key), other) == has_key(s, other),
{
    let w = without(s, key);
    s.lemma_filter_len(|e: (Seq<char>, T)| e.0 != key);
    lemma_without_value(s, key, key);
    lemma_value_of_has_key(w, key);
    if distinct_keys(s) {
        lemma_without_distinct(s, key);
    }
    assert forall|other: Seq<char>| other != key implies #[trigger] value_of(w, other)
        == value_of(s, other) by {
        lemma_without_value(s, key, other);
    }
    assert forall|other: Seq<char>| other != key implies #[trigger] has_key(w, other) == has_key(
        s,
        other,
    ) by {
        lemma_without_value(s, key, other);
        lemma_value_of_has_key(w, other);
        lemma_value_of_has_key(s, other);
    }
}

/// What a write leaves behind: the key holds the new value, every other key
/// keeps its own, and distinct keys stay distinct.
pub proof fn lemma_with<T>(s: Seq<(Seq<char>, T)>, key: Seq<char>, value: T)
    ensures
        has_key(with(s, key, value), key),
        value_of(with(s, key, value), key) == Some(value),
        distinct_keys(s) ==> distinct_keys(with(s, key, value)),
        forall|other: Seq<char>|
            other != key ==> #[trigger] value_of(with(s, key, value), other) == value_of(s, other),
        forall|other: Seq<char>|
            other != key ==> #[trigger] has_key(with(s, key, value), other) == has_key(s, other),
{
    let w = without(s, key);
    let r = with(s, key, value);
    lemma_without(s, key);
    assert(r.drop_last() =~= w);
    assert(r[r.len() - 1].0 == key);
    assert forall|other: Seq<char>| other != key implies #[trigger] value_of(r, other)
        == value_of(s, other) by {
        assert(value_of(r, other) == value_of(w, other));
    }
    assert forall|other: Seq<char>| other != key implies #[trigger] has_key(r, other) == has_key(
        s,
        other,
    ) by {
        lemma_value_of_has_key(r, other);
        lemma_value_of_has_key(s, other);
        assert(value_of(r, other) == value_of(w, other));
    }
    if distinct_keys(s) {
        assert forall|a: int, b: int| 0 <= a < b < r.len() implies (#[trigger] r[a]).0 != (
        #[trigger] r[b]).0 by {
            if b < w.len() {
                assert(w[a].0 != w[b].0);
            } else {
                assert(w[a].0 != key);
            }
        }
    }
}

/// What an exchange in place leaves behind: the same keys at the same
/// positions, the new value under `key`, and every other value as it was.
pub proof fn lemma_replaced<T>(s: Seq<(Seq<char>, T)>, key: Seq<char>, value: T)
    ensures
        replaced(s, key, value).len() == s.len(),
        forall|i: int| 0 <= i < s.len() ==> (#[trigger] replaced(s, key, value)[i]).0 == s[i].0,
        distinct_keys(s) ==> distinct_keys(replaced(s, key, value)),
        !has_key(s, key) ==> replaced(s, key, value) == s,
        has_key(s, key) ==> value_of(replaced(s, key, value), key) == Some(value),
        forall|other: Seq<char>|
            other != key ==> #[trigger] value_of(replaced(s, key, value), other) == value_of(
                s,
                other,
            ),
    decreases s.len(),
{
    let r = replaced(s, key, value);
    if !has_key(s, key) {
        assert(r =~= s);
    }
    if s.len() > 0 {
        let init = s.drop_last();
        lemma_replaced(init, key, value);
        assert(r.drop_last() =~= replaced(init, key, value));
        if has_key(s, key) && s.last().0 != key {
            let i = choose|i: int| 0 <= i < s.len() && (#[trigger] s[i]).0 == key;
            assert(init[i].0 == key);
        }
        assert forall|other: Seq<char>| other != key implies #[trigger] value_of(r, other)
            == value_of(s, other) by {
            assert(value_of(r.drop_last(), other) == value_of(init, other));
        }
    }
}

/// An ordered collection of entries, each a key with its value, in which no
/// key occurs twice.
pub struct Table<V: View> {
    entries: Vec<(String, V)>,
}

impl<V: View> View for Table<V> {
    type V = Seq<(Seq<char>, V::V)>;

    closed spec fn view(&self) -> Seq<(Seq<char>, V::V)> {
        self.entries@.map_values(|e: (String, V)| (e.0@, e.1@))
    }
}

impl<V: View> Table<V> {
    /// What holds of every table: its keys never repeat.
    #[verifier::type_invariant]
    pub closed spec fn wf(&self) -> bool {
        distinct_keys(self@)
    }

    /// A table without entries.
    pub fn new() -> (table: Self)
        ensures
            table@ == Seq::<(Seq<char>, V::V)>::empty(),
    {
        let table = Table { entries: Vec::new() };
        assert(table@ =~= Seq::<(Seq<char>, V::V)>::empty());
        table
    }

    /// The number of entries.
    pub fn len(&self) -> (n: usize)
        ensures
            n == self@.len(),
    {
        self.entries.len()
    }

    /// The entries in order, oldest first.
    pub fn entries(&self) -> (all: &Vec<(String, V)>)
        ensures
            all@.len() == self@.len(),
            distinct_keys(self@),
            forall|i: int|
                0 <= i < all@.len() ==> (#[trigger] all@[i]).0@ == self@[i].0 && all@[i].1@
                    == self@[i].1,
    {
        proof {
            use_type_invariant(self);
        }
        &self.entries
    }

    /// Where in the table `key` stands.
    pub fn position(&self, key: &str) -> (at: Option<usize>)
        ensures
            match at {
                Some(i) => i < self@.len() && self@[i as int].0 == key@,
                None => !has_key(self@, key@),
            },
    {
        let mut i: usize = 0;
        while i < self.entries.len()
            invariant
                i <= self.entries.len(),
                forall|j: int| 0 <= j < i ==> (#[trigger] self@[j]).0 != key@,
            decreases self.entries.len() - i,
        {
            if str_eq(self.entries[i].0.as_str(), key) {
                return Some(i);
            }
            i += 1;
        }
        None
    }

    /// The value stored under `key`.
    pub fn get(&self, key: &str) -> (found: Option<&V>)
        ensures
            match found {
                Some(value) => value_of(self@, key@) == Some(value@),
                None => value_of(self@, key@) is None,
            },
    {
        proof {
            use_type_invariant(self);
            lemma_value_of_has_key(self@, key@);
        }
        match self.position(key) {
            Some(i) => {
                proof {
                    lemma_value_of_at(self@, i as int);
                }
                Some(&self.entries[i].1)
            },
            None => None,
        }
    }

    /// Whether `key` occurs.
    pub fn contains_key(&self, key: &str) -> (present: bool)
        ensures
            present == has_key(self@, key@),
    {
        self.position(key).is_some()
    }

    /// Writes `value` under `key`. An entry that was there under the same key
    /// is replaced, and the written entry becomes the newest.
    pub fn insert(&mut self, key: String, value: V)
        ensures
            final(self)@ == with(old(self)@, key@, value@),
    {
        proof {
            use_type_invariant(&*self);
            lemma_with(self@, key@, value@);
        }
        let at = self.position(key.as_str());
        let ghost before = self@;
        let mut entries: Vec<(String, V)> = Vec::new();
        core::mem::swap(&mut entries, &mut self.entries);
        match at {
            Some(i) => {
                proof {
                    lemma_without_at(before, i as int);
                }
                entries.remove(i);
            },
            None => {
                proof {
                    lemma_without_absent(before, key@);
                }
            },
        }
        entries.push((key, value));
        assert(entries@.map_values(|e: (String, V)| (e.0@, e.1@)) =~= with(before, key@, value@));
        self.entries = entries;
    }

    /// Takes the entry under `key` out, if there is one.
    pub fn remove(&mut self, key: &str)
        ensures
            final(self)@ == without(old(self)@, key@),
    {
        proof {
            use_type_invariant(&*self);
            lemma_without(self@, key@);
        }
        let at = self.position(key);
        let ghost before = self@;
        let mut entries: Vec<(String, V)> = Vec::new();
        core::mem::swap(&mut entries, &mut self.entries);
        match at {
            Some(i) => {
                proof {
                    lemma_without_at(before, i as int);
                }
                entries.remove(i);
            },
            None => {
                proof {
                    lemma_without_absent(before, key@);
                }
            },
        }
        assert(entries@.map_values(|e: (String, V)| (e.0@, e.1@)) =~= without(before, key@));
        self.entries = entries;
    }

    /// Exchanges the value under `key` in place, where the key occurs, and
    /// says whether it did.
    pub fn replace(&mut self, key: &str, value: V) -> (found: bool)
        ensures
            found == has_key(old(self)@, key@),
            final(self)@ == replaced(old(self)@, key@, value@),
    {
        proof {
            use_type_invariant(&*self);
            lemma_replaced(self@, key@, value@);
        }
        let at = self.position(key);
        let ghost before = self@;
        match at {
            Some(i) => {
                let mut entries: Vec<(String, V)> = Vec::new();
                core::mem::swap(&mut entries, &mut self.entries);
                let (name, _) = entries.remove(i);
                entries.insert(i, (name, value));
                assert(entries@.map_values(|e: (String, V)| (e.0@, e.1@)) =~= replaced(
                    before,
                    key@,
                    value@,
                )) by {
                    assert forall|j: int| 0 <= j < before.len() && j != i implies (
                    #[trigger] before[j]).0 != key@ by {
                        if j < i {
                            assert(before[j].0 != before[i as int].0);
                        } else {
                            assert(before[i as int].0 != before[j].0);
                        }
                    }
                }
                self.entries = entries;
                true
            },
            None => false,
        }
    }
}

} // verus!
