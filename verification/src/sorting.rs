//! Stable sorting by a text.

use crate::text;
use crate::text::Text;
use vstd::prelude::*;

verus! {

/// A value that is ordered by a text.
pub trait Sortable: Sized {
    /// The text.
    spec fn key(&self) -> Text;

    /// The text.
    fn key_str(&self) -> (r: &str)
        ensures
            r@ == self.key(),
    ;
}

/// The number of items at the start of `items` whose keys do not stand after `key`.
pub open spec fn place_of<T: Sortable>(items: Seq<T>, key: Text) -> nat
    decreases items.len(),
{
    if items.len() == 0 || text::before(key, items[0].key()) {
        0
    } else {
        1 + place_of(items.skip(1), key)
    }
}

/// `item` put into `items` behind those whose keys do not stand after its own.
pub open spec fn put<T: Sortable>(items: Seq<T>, item: T) -> Seq<T> {
    items.insert(place_of(items, item.key()) as int, item)
}

/// The items, ordered by their keys; those of the same key in their old order.
pub open spec fn sorted<T: Sortable>(items: Seq<T>) -> Seq<T>
    decreases items.len(),
{
    if items.len() == 0 {
        Seq::empty()
    } else {
        put(sorted(items.drop_last()), items.last())
    }
}

/// No item stands behind one whose key stands after its own.
pub open spec fn ordered<T: Sortable>(items: Seq<T>) -> bool {
    forall|i: int, j: int|
        0 <= i < j < items.len() ==> !text::before(
            (#[trigger] items[j]).key(),
            (#[trigger] items[i]).key(),
        )
}

/// The place of a key: behind the items whose keys do not stand after it, before all others.
pub proof fn lemma_place<T: Sortable>(items: Seq<T>, key: Text)
    requires
        ordered(items),
    ensures
        place_of(items, key) <= items.len(),
        forall|i: int|
            0 <= i < place_of(items, key) ==> !text::before(
                key,
                (#[trigger] items[i]).key(),
            ),
        forall|i: int|
            place_of(items, key) <= i < items.len() ==> text::before(
                key,
                (#[trigger] items[i]).key(),
            ),
    decreases items.len(),
{
    if items.len() > 0 {
        let rest = items.skip(1);
        if text::before(key, items[0].key()) {
            assert forall|i: int| 0 <= i < items.len() implies text::before(
                key,
                (#[trigger] items[i]).key(),
            ) by {
                if i > 0 {
                    text::lemma_before_total(items[0].key(), items[i].key());
                    if items[0].key() != items[i].key() {
                        text::lemma_before_transitive(key, items[0].key(), items[i].key());
                    }
                }
            }
        } else {
            assert(ordered(rest)) by {
                assert forall|i: int, j: int| 0 <= i < j < rest.len() implies !text::before(
                    (#[trigger] rest[j]).key(),
                    (#[trigger] rest[i]).key(),
                ) by {
                    assert(rest[j] == items[j + 1] && rest[i] == items[i + 1]);
                }
            }
            lemma_place(rest, key);
            assert forall|i: int| 0 <= i < place_of(items, key) implies !text::before(
                key,
                (#[trigger] items[i]).key(),
            ) by {
                if i > 0 {
                    assert(items[i] == rest[i - 1]);
                }
            }
            assert forall|i: int|
                place_of(items, key) <= i < items.len() implies text::before(
                key,
                (#[trigger] items[i]).key(),
            ) by {
                assert(items[i] == rest[i - 1]);
            }
        }
    }
}

proof fn lemma_put_ordered<T: Sortable>(items: Seq<T>, item: T)
    requires
        ordered(items),
    ensures
        ordered(put(items, item)),
        put(items, item).to_multiset() == items.to_multiset().insert(item),
{
    let k = place_of(items, item.key()) as int;
    let out = put(items, item);
    lemma_place(items, item.key());
    assert forall|i: int, j: int| 0 <= i < j < out.len() implies !text::before(
        (#[trigger] out[j]).key(),
        (#[trigger] out[i]).key(),
    ) by {
        if i < k && j == k {
            assert(out[i] == items[i]);
        } else if i == k {
            assert(out[j] == items[j - 1]);
            if text::before(out[j].key(), item.key()) {
                text::lemma_before_transitive(item.key(), out[j].key(), item.key());
                text::lemma_before_irreflexive(item.key());
            }
        } else {
            let a = if i < k {
                i
            } else {
                i - 1
            };
            let b = if j < k {
                j
            } else {
                j - 1
            };
            assert(out[i] == items[a] && out[j] == items[b]);
        }
    }
    broadcast use vstd::seq_lib::group_to_multiset_ensures;

}

/// Sorting gives a list that is ordered by key and holds the same items.
pub proof fn law_sorting_orders<T: Sortable>(items: Seq<T>)
    ensures
        ordered(sorted(items)),
        sorted(items).to_multiset() == items.to_multiset(),
    decreases items.len(),
{
    broadcast use vstd::seq_lib::group_to_multiset_ensures;

    if items.len() > 0 {
        let front = items.drop_last();
        law_sorting_orders(front);
        lemma_put_ordered(sorted(front), items.last());
        assert(front.push(items.last()) == items);
    } else {
        assert(items == Seq::<T>::empty());
    }
}

/// The items of a given key.
pub open spec fn with_key<T: Sortable>(items: Seq<T>, key: Text) -> Seq<T>
    decreases items.len(),
{
    if items.len() == 0 {
        Seq::empty()
    } else if items.last().key() == key {
        with_key(items.drop_last(), key).push(items.last())
    } else {
        with_key(items.drop_last(), key)
    }
}

proof fn lemma_with_key_add<T: Sortable>(a: Seq<T>, b: Seq<T>, key: Text)
    ensures
        with_key(a + b, key) == with_key(a, key) + with_key(b, key),
    decreases b.len(),
{
    if b.len() == 0 {
        assert(a + b == a);
        assert(with_key(a, key) + Seq::<T>::empty() == with_key(a, key));
    } else {
        assert((a + b).drop_last() == a + b.drop_last());
        lemma_with_key_add(a, b.drop_last(), key);
        if b.last().key() == key {
            assert((with_key(a, key) + with_key(b.drop_last(), key)).push(b.last()) == with_key(a, key)
                + with_key(b.drop_last(), key).push(b.last()));
        }
    }
}

proof fn lemma_with_key_none<T: Sortable>(items: Seq<T>, key: Text)
    requires
        forall|i: int| 0 <= i < items.len() ==> (#[trigger] items[i]).key() != key,
    ensures
        with_key(items, key) == Seq::<T>::empty(),
    decreases items.len(),
{
    if items.len() > 0 {
        assert forall|i: int| 0 <= i < items.drop_last().len() implies (
        #[trigger] items.drop_last()[i]).key() != key by {
            assert(items.drop_last()[i] == items[i]);
        }
        lemma_with_key_none(items.drop_last(), key);
        assert(items[items.len() - 1].key() != key);
    }
}

/// Sorting keeps the order of items that have the same key.
pub proof fn law_sorting_is_stable<T: Sortable>(items: Seq<T>, key: Text)
    ensures
        with_key(sorted(items), key) == with_key(items, key),
    decreases items.len(),
{
    if items.len() > 0 {
        let front = items.drop_last();
        let item = items.last();
        let sorted = sorted(front);
        let k = place_of(sorted, item.key()) as int;
        law_sorting_is_stable(front, key);
        law_sorting_orders(front);
        lemma_place(sorted, item.key());
        let a = sorted.take(k);
        let b = sorted.skip(k);
        assert(sorted == a + b);
        assert(put(sorted, item) == a + (seq![item] + b));
        lemma_with_key_add(a, b, key);
        lemma_with_key_add(a, seq![item] + b, key);
        lemma_with_key_add(seq![item], b, key);
        assert(seq![item].drop_last() == Seq::<T>::empty());
        reveal_with_fuel(with_key, 2);
        if item.key() == key {
            assert forall|i: int| 0 <= i < b.len() implies (#[trigger] b[i]).key() != key by {
                assert(b[i] == sorted[k + i]);
                text::lemma_before_irreflexive(key);
            }
            lemma_with_key_none(b, key);
            assert(with_key(seq![item], key) == seq![item]);
            assert(with_key(a, key) + Seq::<T>::empty() == with_key(a, key));
            assert(with_key(a, key) + (seq![item] + Seq::<T>::empty()) == with_key(
                a,
                key,
            ).push(item));
        } else {
            assert(with_key(seq![item], key) == Seq::<T>::empty());
            assert(Seq::<T>::empty() + with_key(b, key) == with_key(b, key));
        }
    }
}

/// Puts `item` into `items` behind those whose keys do not stand after its own.
pub fn insert_sorted<T: Sortable>(items: &mut Vec<T>, item: T)
    ensures
        final(items)@ == put(old(items)@, item),
{
    let ghost all = items@;
    let mut at: usize = 0;
    assert(all.skip(0) == all);
    while at < items.len() && !text::text_before(
        item.key_str(),
        items[at].key_str(),
    )
        invariant
            items@ == all,
            at <= all.len(),
            place_of(all, item.key()) == at + place_of(all.skip(at as int), item.key()),
        decreases all.len() - at,
    {
        assert(all.skip(at as int)[0] == all[at as int]);
        assert(all.skip(at as int).skip(1) == all.skip(at + 1));
        at += 1;
    }
    assert(at < all.len() ==> all.skip(at as int)[0] == all[at as int]);
    items.insert(at, item);
}

/// The items, ordered by their keys; those of the same key in their old order.
pub fn sort<T: Sortable>(items: Vec<T>) -> (r: Vec<T>)
    ensures
        r@ == sorted(items@),
{
    let mut rest = items;
    let ghost all = items@;
    let mut out: Vec<T> = Vec::new();
    let ghost mut done: int = 0;
    assert(all.skip(0) == all);
    assert(sorted(all.take(0)) == Seq::<T>::empty());
    while rest.len() > 0
        invariant
            0 <= done <= all.len(),
            rest@ == all.skip(done),
            out@ == sorted(all.take(done)),
        decreases rest@.len(),
    {
        let ghost before = rest@;
        let item = rest.remove(0);
        assert(item == all[done]);
        assert(rest@ == before.skip(1));
        assert(rest@ == all.skip(done + 1));
        assert(all.take(done + 1).drop_last() == all.take(done));
        insert_sorted(&mut out, item);
        proof {
            done = done + 1;
        }
    }
    assert(all.take(done) == all);
    out
}

} // verus!
