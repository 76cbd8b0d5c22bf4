//! A map from keys to values that is walked in the order of its keys.

use crate::text;
use crate::text::Text;
use crate::words::{TemplateVarName, TemplateVarValue, TmuxOptionName, TmuxOptionValue};
use vstd::prelude::*;

verus! {

/// A key of an [`OrderedMap`]: a value that is ordered and found by its text.
pub trait MapKey: Sized {
    /// The text of the key.
    spec fn text(&self) -> Text;

    /// The text of the key.
    fn key_str(&self) -> (r: &str)
        ensures
            r@ == self.text(),
    ;

    /// Another key with the same text.
    fn copy_key(&self) -> (r: Self)
        ensures
            r.text() == self.text(),
    ;
}

impl MapKey for TmuxOptionName {
    open spec fn text(&self) -> Text {
        self@
    }

    fn key_str(&self) -> (r: &str) {
        self.as_str()
    }

    fn copy_key(&self) -> (r: Self) {
        self.clone()
    }
}

impl MapKey for TemplateVarName {
    open spec fn text(&self) -> Text {
        self@
    }

    fn key_str(&self) -> (r: &str) {
        self.as_str()
    }

    fn copy_key(&self) -> (r: Self) {
        self.clone()
    }
}

/// The keys stand in strictly increasing order, so no key occurs twice.
pub open spec fn sorted<K: MapKey, V>(entries: Seq<(K, V)>) -> bool {
    forall|i: int, j: int|
        0 <= i < j < entries.len() ==> text::before(
            (#[trigger] entries[i]).0.text(),
            (#[trigger] entries[j]).0.text(),
        )
}

/// The value that `entries` hold for `key`.
pub open spec fn find<K: MapKey, V>(entries: Seq<(K, V)>, key: Text) -> Option<V>
    decreases entries.len(),
{
    if entries.len() == 0 {
        None
    } else if entries.last().0.text() == key {
        Some(entries.last().1)
    } else {
        find(entries.drop_last(), key)
    }
}

/// An entry is found under its key, as no other entry has that key.
pub proof fn lemma_find_at<K: MapKey, V>(entries: Seq<(K, V)>, i: int)
    requires
        sorted(entries),
        0 <= i < entries.len(),
    ensures
        find(entries, entries[i].0.text()) == Some(entries[i].1),
    decreases entries.len(),
{
    let last = entries.len() - 1;
    if i < last {
        text::lemma_before_irreflexive(entries[i].0.text());
        assert(entries[i].0.text() != entries[last].0.text());
        lemma_find_at(entries.drop_last(), i);
    }
}

/// Nothing is found under a key that no entry has.
pub proof fn lemma_find_none<K: MapKey, V>(entries: Seq<(K, V)>, key: Text)
    ensures
        find(entries, key) is None <==> forall|i: int|
            0 <= i < entries.len() ==> (#[trigger] entries[i]).0.text() != key,
        find(entries, key) matches Some(v) ==> exists|i: int|
            0 <= i < entries.len() && (#[trigger] entries[i]).0.text() == key && entries[i].1 == v,
    decreases entries.len(),
{
    if entries.len() > 0 {
        let rest = entries.drop_last();
        lemma_find_none(rest, key);
        if entries.last().0.text() == key {
            assert(entries[entries.len() - 1].0.text() == key);
        } else {
            assert(forall|i: int| 0 <= i < rest.len() ==> #[trigger] entries[i] == rest[i]);
            if let Some(v) = find(rest, key) {
                let i = choose|i: int|
                    0 <= i < rest.len() && (#[trigger] rest[i]).0.text() == key && rest[i].1 == v;
                assert(entries[i].0.text() == key);
            }
        }
    }
}

/// A map that keeps its entries in the order of their keys.
#[derive(Debug, PartialEq)]
pub struct OrderedMap<K: MapKey, V> {
    entries: Vec<(K, V)>,
}

impl<K: MapKey, V> View for OrderedMap<K, V> {
    type V = Seq<(K, V)>;

    closed spec fn view(&self) -> Seq<(K, V)> {
        self.entries@
    }
}

impl<K: MapKey, V> OrderedMap<K, V> {
    /// The entries are ordered by their keys, and no key occurs twice.
    #[verifier::type_invariant]
    pub open spec fn wf(&self) -> bool {
        sorted(self@)
    }

    /// A map without entries.
    pub fn new() -> (r: OrderedMap<K, V>)
        ensures
            r@ == Seq::<(K, V)>::empty(),
    {
        OrderedMap { entries: Vec::new() }
    }

    /// The entries, in the order of their keys.
    pub fn entries(&self) -> (r: &Vec<(K, V)>)
        ensures
            r@ == self@,
            self.wf(),
    {
        proof {
            use_type_invariant(self);
        }
        &self.entries
    }

    /// The number of entries.
    pub fn len(&self) -> (r: usize)
        ensures
            r == self@.len(),
    {
        self.entries.len()
    }

    /// Whether there are no entries.
    pub fn is_empty(&self) -> (r: bool)
        ensures
            r == (self@.len() == 0),
    {
        self.entries.len() == 0
    }

    /// The value for `key`.
    pub fn get(&self, key: &str) -> (r: Option<&V>)
        ensures
            match r {
                Some(v) => find(self@, key@) == Some(*v),
                None => find(self@, key@) is None,
            },
    {
        proof {
            use_type_invariant(self);
            lemma_find_none(self@, key@);
        }
        for i in 0..self.entries.len()
            invariant
                sorted(self@),
                self@ == self.entries@,
                forall|j: int| 0 <= j < i ==> (#[trigger] self@[j]).0.text() != key@,
        {
            if text::same_text(self.entries[i].0.key_str(), key) {
                proof {
                    lemma_find_at(self@, i as int);
                }
                return Some(&self.entries[i].1);
            }
        }
        None
    }

    /// Sets the value for `key`, and returns the value that it had before.
    pub fn insert(&mut self, key: K, value: V) -> (r: Option<V>)
        ensures
            r == find(old(self)@, key.text()),
            find(final(self)@, key.text()) == Some(value),
            forall|k: Text| k != key.text() ==> #[trigger] find(final(self)@, k) == find(
                old(self)@,
                k,
            ),
            final(self).wf(),
    {
        let mut entries: Vec<(K, V)> = Vec::new();
        proof {
            use_type_invariant(&*self);
        }
        let ghost before = self@;
        std::mem::swap(&mut entries, &mut self.entries);
        let mut at: usize = 0;
        while at < entries.len() && text::text_before(entries[at].0.key_str(), key.key_str())
            invariant
                entries@ == before,
                sorted(before),
                at <= entries@.len(),
                forall|j: int|
                    0 <= j < at ==> text::before((#[trigger] before[j]).0.text(), key.text()),
            decreases entries@.len() - at,
        {
            at += 1;
        }
        let present: bool = at < entries.len() && text::same_text(
            entries[at].0.key_str(),
            key.key_str(),
        );
        let previous: Option<V> = if present {
            Some(entries.remove(at).1)
        } else {
            None
        };
        let ghost new_entry = (key, value);
        entries.insert(at, (key, value));
        proof {
            let after = entries@;
            if present {
                lemma_find_at(before, at as int);
                assert(after == before.update(at as int, new_entry));
                assert(sorted(after));
            } else {
                assert(after == before.insert(at as int, new_entry));
                if at < before.len() {
                    text::lemma_before_total(before[at as int].0.text(), key.text());
                    assert forall|j: int| at <= j < before.len() implies text::before(
                        key.text(),
                        (#[trigger] before[j]).0.text(),
                    ) by {
                        if j > at {
                            text::lemma_before_transitive(
                                key.text(),
                                before[at as int].0.text(),
                                before[j].0.text(),
                            );
                        }
                    }
                }
                assert(sorted(after));
                lemma_find_none(before, key.text());
                assert forall|j: int| 0 <= j < before.len() implies (#[trigger] before[j]).0.text()
                    != key.text() by {
                    text::lemma_before_irreflexive(key.text());
                }
            }
            lemma_find_at(after, at as int);
            assert forall|k: Text| k != key.text() implies #[trigger] find(after, k) == find(
                before,
                k,
            ) by {
                lemma_find_none(before, k);
                lemma_find_none(after, k);
                if find(before, k) is Some {
                    let i = choose|i: int|
                        0 <= i < before.len() && (#[trigger] before[i]).0.text() == k && Some(
                            before[i].1,
                        ) == find(before, k);
                    let i2 = if present || i < at {
                        i
                    } else {
                        i + 1
                    };
                    assert(after[i2] == before[i]);
                    lemma_find_at(after, i2);
                } else if find(after, k) is Some {
                    let i = choose|i: int|
                        0 <= i < after.len() && (#[trigger] after[i]).0.text() == k && Some(
                            after[i].1,
                        ) == find(after, k);
                    assert(i != at);
                    let i2 = if present || i < at {
                        i
                    } else {
                        i - 1
                    };
                    assert(before[i2] == after[i]);
                }
            }
        }
        self.entries = entries;
        previous
    }
}

impl<K: MapKey, V: Clone> Clone for OrderedMap<K, V> {
    /// A map with the same keys, whose values are clones.
    fn clone(&self) -> (r: OrderedMap<K, V>)
        ensures
            r@.len() == self@.len(),
            forall|i: int|
                0 <= i < self@.len() ==> (#[trigger] r@[i]).0.text() == self@[i].0.text()
                    && cloned::<V>(self@[i].1, r@[i].1),
    {
        let mut entries: Vec<(K, V)> = Vec::new();
        proof {
            use_type_invariant(self);
        }
        for i in 0..self.entries.len()
            invariant
                entries@.len() == i,
                forall|j: int|
                    0 <= j < i ==> (#[trigger] entries@[j]).0.text() == self.entries@[j].0.text()
                        && cloned::<V>(self.entries@[j].1, entries@[j].1),
        {
            let value = self.entries[i].1.clone();
            entries.push((self.entries[i].0.copy_key(), value));
        }
        OrderedMap { entries }
    }
}

/// tmux options, by name.
pub type TmuxOptions = OrderedMap<TmuxOptionName, TmuxOptionValue>;

/// Template variables, by name.
pub type TemplateVars = OrderedMap<TemplateVarName, TemplateVarValue>;

} // verus!
