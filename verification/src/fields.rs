//! Values under distinct names.

use crate::json::{content, lemma_map_of_absent, lemma_map_of_last, map_of, Json};
use crate::text;
use vstd::prelude::*;

verus! {

/// A map from names to values. No name occurs twice.
#[derive(Debug)]
pub struct Fields<V> {
    entries: Vec<(String, V)>,
}

/// Entries as pairs of name and content.
pub open spec fn entry_pairs<V: View>(entries: Seq<(String, V)>) -> Seq<(Seq<char>, V::V)> {
    entries.map_values(|entry: (String, V)| (entry.0@, entry.1@))
}

/// No name occurs twice.
pub open spec fn names_differ<V>(entries: Seq<(String, V)>) -> bool {
    forall|i: int, j: int|
        0 <= i < j < entries.len() ==> (#[trigger] entries[i]).0@ != (#[trigger] entries[j]).0@
}

impl<V: View> View for Fields<V> {
    type V = Map<Seq<char>, V::V>;

    closed spec fn view(&self) -> Map<Seq<char>, V::V> {
        map_of(entry_pairs(self.entries@))
    }
}

/// Replacing the value of a pair whose key does not occur again is an insertion.
proof fn lemma_map_of_update<V>(pairs: Seq<(Seq<char>, V)>, at: int, value: V)
    requires
        0 <= at < pairs.len(),
        forall|i: int| at < i < pairs.len() ==> (#[trigger] pairs[i]).0 != pairs[at].0,
    ensures
        map_of(pairs.update(at, (pairs[at].0, value))) == map_of(pairs).insert(pairs[at].0, value),
    decreases pairs.len(),
{
    let key = pairs[at].0;
    let after = pairs.update(at, (key, value));
    let init = pairs.drop_last();
    if at == pairs.len() - 1 {
        assert(after.drop_last() =~= init);
        assert(map_of(after) =~= map_of(pairs).insert(key, value));
    } else {
        assert forall|i: int| at < i < init.len() implies (#[trigger] init[i]).0 != init[at].0 by {
            assert(init[i] == pairs[i]);
        }
        lemma_map_of_update(init, at, value);
        assert(after.drop_last() =~= init.update(at, (key, value)));
        assert(pairs.last().0 != key);
        assert(map_of(after) =~= map_of(pairs).insert(key, value));
    }
}

impl<V> Fields<V> {
    #[verifier::type_invariant]
    spec fn well_formed(self) -> bool {
        names_differ(self.entries@)
    }
}

impl<V: View> Fields<V> {
    /// No values.
    pub fn new() -> (fields: Fields<V>)
        ensures
            fields@ == Map::<Seq<char>, V::V>::empty(),
    {
        let entries: Vec<(String, V)> = Vec::new();
        Fields { entries }
    }

    /// Puts `value` under `name`, in place of what was there.
    pub fn insert(&mut self, name: String, value: V)
        ensures
            final(self)@ == old(self)@.insert(name@, value@),
    {
        proof {
            use_type_invariant(&*self);
        }
        let mut entries: Vec<(String, V)> = Vec::new();
        std::mem::swap(&mut entries, &mut self.entries);
        let ghost before = entries@;
        let ghost pairs = entry_pairs(before);
        let mut at: usize = 0;
        while at < entries.len()
            invariant
                entries@ == before,
                pairs == entry_pairs(before),
                names_differ(before),
                at <= entries@.len(),
                forall|i: int| 0 <= i < at ==> (#[trigger] entries@[i]).0@ != name@,
                old(self)@ == map_of(pairs),
                self.entries@.len() == 0,
            decreases entries.len() - at,
        {
            if text::same(entries[at].0.as_str(), name.as_str()) {
                let ghost k = at as int;
                proof {
                    assert(pairs[k] == (name@, before[k].1@));
                    assert forall|i: int| k < i < pairs.len() implies (#[trigger] pairs[i]).0
                        != pairs[k].0 by {
                        assert(before[i].0@ != before[k].0@);
                    }
                    lemma_map_of_update(pairs, k, value@);
                }
                let ghost shown = value@;
                entries.set(at, (name, value));
                assert(entry_pairs(entries@) =~= pairs.update(k, (name@, shown)));
                self.entries = entries;
                return;
            }
            at = at + 1;
        }
        entries.push((name, value));
        assert(entry_pairs(entries@).drop_last() =~= pairs);
        self.entries = entries;
    }

    /// The value under `name`.
    pub fn get(&self, name: &str) -> (value: Option<&V>)
        ensures
            content(value) == (if self@.dom().contains(name@) {
                Some(self@[name@])
            } else {
                None
            }),
    {
        proof {
            use_type_invariant(self);
        }
        let ghost pairs = entry_pairs(self.entries@);
        for at in 0..self.entries.len()
            invariant
                pairs == entry_pairs(self.entries@),
                names_differ(self.entries@),
                forall|i: int| 0 <= i < at ==> (#[trigger] pairs[i]).0 != name@,
        {
            assert(pairs[at as int].0 == self.entries@[at as int].0@);
            if text::same(self.entries[at].0.as_str(), name) {
                proof {
                    let k = at as int;
                    assert forall|i: int| k < i < pairs.len() implies (#[trigger] pairs[i]).0
                        != pairs[k].0 by {
                        assert(self.entries@[i].0@ != self.entries@[k].0@);
                    }
                    lemma_map_of_last(pairs, k);
                }
                return Some(&self.entries[at].1);
            }
        }
        proof {
            lemma_map_of_absent(pairs, name@);
        }
        None
    }

    /// The names with their values, each name once.
    pub fn entries(&self) -> (entries: &Vec<(String, V)>)
        ensures
            names_differ(entries@),
            map_of(entry_pairs(entries@)) == self@,
    {
        proof {
            use_type_invariant(self);
        }
        &self.entries
    }
}

impl Clone for Fields<String> {
    fn clone(&self) -> (copy: Fields<String>)
        ensures
            copy@ == self@,
    {
        proof {
            use_type_invariant(self);
        }
        let mut entries: Vec<(String, String)> = Vec::new();
        for i in 0..self.entries.len()
            invariant
                entries@.len() == i,
                forall|j: int|
                    0 <= j < i ==> (#[trigger] entries@[j]).0@ == self.entries@[j].0@
                        && entries@[j].1@ == self.entries@[j].1@,
        {
            entries.push((self.entries[i].0.clone(), self.entries[i].1.clone()));
        }
        assert(entry_pairs(entries@) =~= entry_pairs(self.entries@));
        Fields { entries }
    }
}

impl Clone for Fields<Json> {
    fn clone(&self) -> (copy: Fields<Json>)
        ensures
            copy@ == self@,
    {
        proof {
            use_type_invariant(self);
        }
        let mut entries: Vec<(String, Json)> = Vec::new();
        for i in 0..self.entries.len()
            invariant
                entries@.len() == i,
                forall|j: int|
                    0 <= j < i ==> (#[trigger] entries@[j]).0@ == self.entries@[j].0@
                        && entries@[j].1@ == self.entries@[j].1@,
        {
            entries.push((self.entries[i].0.clone(), self.entries[i].1.clone()));
        }
        assert(entry_pairs(entries@) =~= entry_pairs(self.entries@));
        Fields { entries }
    }
}

} // verus!
