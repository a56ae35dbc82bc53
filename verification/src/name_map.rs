//! A map from names, kept in the order of the names.

use vstd::prelude::*;

use crate::model::{lemma_mapped, mapped};
use crate::text::{
    law_text_order_irreflexive, law_text_order_transitive, order_of, text_before, TextOrder,
};

verus! {

/// A map from names to values. Every name occurs once, and the entries ascend by name.
pub struct NameMap<T> {
    entries: Vec<(String, T)>,
}

/// Entries by what their names stand for.
pub open spec fn named<T>(entries: Seq<(String, T)>) -> Seq<(Seq<char>, T)> {
    entries.map_values(|entry: (String, T)| (entry.0@, entry.1))
}

/// Whether the names of the entries ascend.
pub open spec fn ascending<T>(entries: Seq<(Seq<char>, T)>) -> bool {
    forall|i: int, j: int|
        0 <= i < j < entries.len() ==> text_before(#[trigger] entries[i].0, #[trigger] entries[j].0)
}

impl<T> View for NameMap<T> {
    type V = Map<Seq<char>, T>;

    closed spec fn view(&self) -> Map<Seq<char>, T> {
        mapped(named(self.entries@))
    }
}

/// In ascending entries every name has the value that stands beside it.
proof fn lemma_ascending<T>(entries: Seq<(Seq<char>, T)>)
    requires
        ascending(entries),
    ensures
        forall|key: Seq<char>| #[trigger]
            mapped(entries).contains_key(key) <==> exists|i: int|
                0 <= i < entries.len() && #[trigger] entries[i].0 == key,
        forall|i: int|
            0 <= i < entries.len() ==> mapped(entries)[#[trigger] entries[i].0] == entries[i].1,
{
    assert forall|key: Seq<char>| #[trigger] mapped(entries).contains_key(key) <==> exists|i: int|
        0 <= i < entries.len() && #[trigger] entries[i].0 == key by {
        lemma_mapped(entries, key);
    }
    assert forall|i: int| 0 <= i < entries.len() implies mapped(entries)[#[trigger] entries[i].0]
        == entries[i].1 by {
        let key = entries[i].0;
        lemma_mapped(entries, key);
        assert forall|j: int| i < j < entries.len() implies #[trigger] entries[j].0 != key by {
            law_text_order_irreflexive(key);
        }
    }
}

/// Putting `entry` where it belongs maps its name and leaves the other names alone.
proof fn lemma_moved<T>(
    before: Seq<(Seq<char>, T)>,
    after: Seq<(Seq<char>, T)>,
    entry: (Seq<char>, T),
    at: int,
    found: bool,
    key: Seq<char>,
)
    requires
        ascending(before),
        ascending(after),
        found ==> 0 <= at < before.len() && before[at].0 == entry.0 && after == before.update(
            at,
            entry,
        ),
        !found ==> 0 <= at <= before.len() && after == before.insert(at, entry),
    ensures
        mapped(after).contains_key(key) <==> key == entry.0 || mapped(before).contains_key(key),
        mapped(after).contains_key(key) ==> mapped(after)[key] == (if key == entry.0 {
            entry.1
        } else {
            mapped(before)[key]
        }),
{
    lemma_ascending(before);
    lemma_ascending(after);
    assert(after[at] == entry);
    if mapped(before).contains_key(key) {
        let i = choose|i: int| 0 <= i < before.len() && #[trigger] before[i].0 == key;
        let j = if found || i < at { i } else { i + 1 };
        assert(after[j].0 == key);
    }
    if mapped(after).contains_key(key) && key != entry.0 {
        let j = choose|j: int| 0 <= j < after.len() && #[trigger] after[j].0 == key;
        let i = if found || j < at { j } else { j - 1 };
        assert(before[i] == after[j]);
        assert(before[i].0 == key);
    }
}

/// Taking an entry out unmaps its name and leaves the other names alone.
proof fn lemma_removed<T>(
    before: Seq<(Seq<char>, T)>,
    after: Seq<(Seq<char>, T)>,
    at: int,
    key: Seq<char>,
)
    requires
        ascending(before),
        ascending(after),
        0 <= at < before.len(),
        after == before.remove(at),
    ensures
        mapped(after).contains_key(key) <==> key != before[at].0 && mapped(before).contains_key(
            key,
        ),
        mapped(after).contains_key(key) ==> mapped(after)[key] == mapped(before)[key],
{
    lemma_ascending(before);
    lemma_ascending(after);
    if mapped(before).contains_key(key) && key != before[at].0 {
        let i = choose|i: int| 0 <= i < before.len() && #[trigger] before[i].0 == key;
        let j = if i < at { i } else { i - 1 };
        assert(after[j] == before[i]);
        assert(after[j].0 == key);
    }
    if mapped(after).contains_key(key) {
        let j = choose|j: int| 0 <= j < after.len() && #[trigger] after[j].0 == key;
        let i = if j < at { j } else { j + 1 };
        assert(before[i] == after[j]);
        assert(before[i].0 == key);
        law_text_order_irreflexive(key);
    }
}

/// Where `name` stands, or where it belongs.
fn position<T>(entries: &Vec<(String, T)>, name: &str) -> (result: (usize, bool))
    requires
        ascending(named(entries@)),
    ensures
        result.1 ==> result.0 < entries@.len() && named(entries@)[result.0 as int].0 == name@,
        result.1 <==> exists|i: int|
            0 <= i < entries@.len() && #[trigger] named(entries@)[i].0 == name@,
        result.0 <= entries@.len(),
        forall|i: int| 0 <= i < result.0 ==> text_before(#[trigger] named(entries@)[i].0, name@),
        !result.1 ==> forall|i: int|
            result.0 <= i < entries@.len() ==> text_before(name@, #[trigger] named(entries@)[i].0),
{
    let mut at: usize = 0;
    while at < entries.len()
        invariant
            at <= entries@.len(),
            ascending(named(entries@)),
            forall|i: int| 0 <= i < at ==> text_before(#[trigger] named(entries@)[i].0, name@),
        decreases entries@.len() - at,
    {
        assert(named(entries@)[at as int].0 == entries@[at as int].0@);
        match order_of(entries[at].0.as_str(), name) {
            TextOrder::Before => {
                at += 1;
            },
            TextOrder::Same => {
                return (at, true);
            },
            TextOrder::After => {
                proof {
                    let listed = named(entries@);
                    assert forall|i: int| at <= i < entries@.len() implies text_before(
                        name@,
                        #[trigger] listed[i].0,
                    ) by {
                        if i > at {
                            law_text_order_transitive(name@, listed[at as int].0, listed[i].0);
                        }
                    }
                    law_text_order_irreflexive(name@);
                }
                return (at, false);
            },
        }
    }
    proof {
        law_text_order_irreflexive(name@);
    }
    (at, false)
}

impl<T> NameMap<T> {
    #[verifier::type_invariant]
    spec fn well_formed(self) -> bool {
        ascending(named(self.entries@))
    }

    /// A map without entries.
    pub fn new() -> (map: Self)
        ensures
            map@ == Map::<Seq<char>, T>::empty(),
    {
        let entries: Vec<(String, T)> = Vec::new();
        assert(named(entries@) =~= seq![]);
        NameMap { entries }
    }

    /// The entries, in ascending order of their names.
    pub fn entries(&self) -> (entries: &Vec<(String, T)>)
        ensures
            ascending(named(entries@)),
            self@ == mapped(named(entries@)),
    {
        proof {
            use_type_invariant(self);
        }
        &self.entries
    }

    /// The value of `name`, where it has one.
    pub fn get(&self, name: &str) -> (value: Option<&T>)
        ensures
            match value {
                Some(found) => self@.contains_key(name@) && *found == self@[name@],
                None => !self@.contains_key(name@),
            },
    {
        proof {
            use_type_invariant(self);
            lemma_ascending(named(self.entries@));
        }
        let (at, found) = position(&self.entries, name);
        if found {
            assert(named(self.entries@)[at as int].0 == name@);
            Some(&self.entries[at].1)
        } else {
            None
        }
    }

    /// Makes `value` the value of `name`.
    pub fn insert(&mut self, name: String, value: T)
        ensures
            final(self)@ == old(self)@.insert(name@, value),
    {
        proof {
            use_type_invariant(&*self);
        }
        let ghost before = named(self.entries@);
        let ghost entry = (name@, value);
        let mut entries: Vec<(String, T)> = Vec::new();
        assert(named(entries@) =~= seq![]);
        std::mem::swap(&mut entries, &mut self.entries);
        let (at, found) = position(&entries, name.as_str());
        if found {
            entries.set(at, (name, value));
            assert(named(entries@) =~= before.update(at as int, entry));
        } else {
            entries.insert(at, (name, value));
            assert(named(entries@) =~= before.insert(at as int, entry));
        }
        proof {
            lemma_ascending(before);
            let after = named(entries@);
            assert(ascending(after));
            lemma_ascending(after);
            assert(after[at as int] == entry);
            assert forall|key: Seq<char>| #[trigger]
                mapped(after).contains_key(key) <==> mapped(before).insert(
                    entry.0,
                    entry.1,
                ).contains_key(key) by {
                lemma_moved(before, after, entry, at as int, found, key);
            }
            assert forall|key: Seq<char>| #[trigger]
                mapped(after).contains_key(key) implies mapped(after)[key] == mapped(
                before,
            ).insert(entry.0, entry.1)[key] by {
                lemma_moved(before, after, entry, at as int, found, key);
            }
            assert(mapped(after) =~= mapped(before).insert(entry.0, entry.1));
        }
        self.entries = entries;
    }

    /// Takes the value of `name` out, where it has one.
    pub fn remove(&mut self, name: &str) -> (value: Option<T>)
        ensures
            final(self)@ == old(self)@.remove(name@),
            match value {
                Some(found) => old(self)@.contains_key(name@) && found == old(self)@[name@],
                None => !old(self)@.contains_key(name@),
            },
    {
        proof {
            use_type_invariant(&*self);
            lemma_ascending(named(self.entries@));
        }
        let ghost before = named(self.entries@);
        let mut entries: Vec<(String, T)> = Vec::new();
        assert(named(entries@) =~= seq![]);
        std::mem::swap(&mut entries, &mut self.entries);
        let (at, found) = position(&entries, name);
        if found {
            assert(before[at as int].0 == name@);
            let (_, value) = entries.remove(at);
            proof {
                let after = named(entries@);
                assert(after =~= before.remove(at as int));
                assert(ascending(after));
                lemma_ascending(after);
                assert forall|key: Seq<char>| #[trigger]
                    mapped(after).contains_key(key) <==> mapped(before).remove(
                        name@,
                    ).contains_key(key) by {
                    lemma_removed(before, after, at as int, key);
                }
                assert forall|key: Seq<char>| #[trigger]
                    mapped(after).contains_key(key) implies mapped(after)[key] == mapped(
                    before,
                ).remove(name@)[key] by {
                    lemma_removed(before, after, at as int, key);
                }
                assert(mapped(after) =~= mapped(before).remove(name@));
            }
            self.entries = entries;
            Some(value)
        } else {
            self.entries = entries;
            assert(mapped(before) =~= mapped(before).remove(name@));
            None
        }
    }
}

} // verus!
