//! Stable sorting by an integer key.

use vstd::prelude::*;

verus! {

/// `sorted` with `item` put behind everything whose key is not greater.
pub open spec fn insert_by_key<T>(sorted: Seq<T>, item: T, key: spec_fn(T) -> int) -> Seq<T>
    decreases sorted.len(),
{
    if sorted.len() == 0 || key(sorted.last()) <= key(item) {
        sorted.push(item)
    } else {
        insert_by_key(sorted.drop_last(), item, key).push(sorted.last())
    }
}

/// `items` in ascending order of their keys, where items with equal keys keep
/// the order that they had.
pub open spec fn sorted_by_key<T>(items: Seq<T>, key: spec_fn(T) -> int) -> Seq<T>
    decreases items.len(),
{
    if items.len() == 0 {
        items
    } else {
        insert_by_key(sorted_by_key(items.drop_last(), key), items.last(), key)
    }
}

/// Whether the keys of `items` never descend.
pub open spec fn ascends<T>(items: Seq<T>, key: spec_fn(T) -> int) -> bool {
    forall|i: int, j: int| 0 <= i <= j < items.len() ==> key(#[trigger] items[i]) <= key(#[trigger] items[j])
}

/// The items of `items` whose key is `k`, in their order.
pub open spec fn with_key<T>(items: Seq<T>, key: spec_fn(T) -> int, k: int) -> Seq<T> {
    items.filter(|item: T| key(item) == k)
}

pub(crate) proof fn lemma_with_key<T>(
    items: Seq<T>,
    key: spec_fn(T) -> int,
    k: int,
    p: spec_fn(T) -> bool,
)
    requires
        forall|item: T| #[trigger] p(item) <==> key(item) == k,
    ensures
        with_key(items, key, k) == items.filter(p),
    decreases items.len(),
{
    reveal(Seq::filter);
    if items.len() > 0 {
        let front = items.drop_last();
        lemma_with_key(front, key, k, p);
        lemma_with_key_push(front, items.last(), key, k);
        assert(items =~= front.push(items.last()));
    }
}

proof fn lemma_with_key_push<T>(items: Seq<T>, item: T, key: spec_fn(T) -> int, k: int)
    ensures
        with_key(items.push(item), key, k) == if key(item) == k {
            with_key(items, key, k).push(item)
        } else {
            with_key(items, key, k)
        },
{
    reveal(Seq::filter);
    assert(items.push(item).drop_last() =~= items);
}

proof fn lemma_insert_keeps_order<T>(sorted: Seq<T>, item: T, key: spec_fn(T) -> int)
    requires
        ascends(sorted, key),
    ensures
        ascends(insert_by_key(sorted, item, key), key),
        insert_by_key(sorted, item, key).len() == sorted.len() + 1,
    decreases sorted.len(),
{
    if sorted.len() > 0 && key(sorted.last()) > key(item) {
        let front = sorted.drop_last();
        lemma_insert_keeps_order(front, item, key);
        let inner = insert_by_key(front, item, key);
        assert(key(inner.last()) <= key(sorted.last()));
        assert forall|i: int| 0 <= i < inner.len() implies key(#[trigger] inner[i]) <= key(
            sorted.last(),
        ) by {
            assert(key(inner[i]) <= key(inner[inner.len() - 1]));
        }
    }
}

proof fn lemma_insert_keeps_items<T>(sorted: Seq<T>, item: T, key: spec_fn(T) -> int)
    ensures
        insert_by_key(sorted, item, key).to_multiset() == sorted.to_multiset().insert(item),
    decreases sorted.len(),
{
    broadcast use vstd::seq_lib::group_to_multiset_ensures;

    if sorted.len() > 0 && key(sorted.last()) > key(item) {
        let front = sorted.drop_last();
        lemma_insert_keeps_items(front, item, key);
        assert(sorted =~= front.push(sorted.last()));
        assert(front.to_multiset().insert(item).insert(sorted.last())
            =~= front.to_multiset().insert(sorted.last()).insert(item));
    }
}

proof fn lemma_insert_is_stable<T>(sorted: Seq<T>, item: T, key: spec_fn(T) -> int, k: int)
    ensures
        with_key(insert_by_key(sorted, item, key), key, k) == with_key(sorted.push(item), key, k),
    decreases sorted.len(),
{
    if sorted.len() > 0 && key(sorted.last()) > key(item) {
        let front = sorted.drop_last();
        let last = sorted.last();
        lemma_insert_is_stable(front, item, key, k);
        assert(sorted =~= front.push(last));
        lemma_with_key_push(insert_by_key(front, item, key), last, key, k);
        lemma_with_key_push(front, item, key, k);
        lemma_with_key_push(front, last, key, k);
        lemma_with_key_push(sorted, item, key, k);
    }
}

/// Sorting keeps every item, puts the keys in ascending order and leaves items
/// with equal keys in the order that they had.
pub proof fn law_sorted_by_key<T>(items: Seq<T>, key: spec_fn(T) -> int)
    ensures
        sorted_by_key(items, key).len() == items.len(),
        sorted_by_key(items, key).to_multiset() == items.to_multiset(),
        ascends(sorted_by_key(items, key), key),
        forall|k: int| #[trigger]
            with_key(sorted_by_key(items, key), key, k) == with_key(items, key, k),
    decreases items.len(),
{
    broadcast use vstd::seq_lib::group_to_multiset_ensures;

    if items.len() > 0 {
        let front = items.drop_last();
        let last = items.last();
        let sorted = sorted_by_key(front, key);
        law_sorted_by_key(front, key);
        lemma_insert_keeps_order(sorted, last, key);
        lemma_insert_keeps_items(sorted, last, key);
        assert(items =~= front.push(last));
        assert forall|k: int| #[trigger]
            with_key(sorted_by_key(items, key), key, k) == with_key(items, key, k) by {
            lemma_insert_is_stable(sorted, last, key, k);
            assert(with_key(sorted, key, k) == with_key(front, key, k));
            lemma_with_key_push(sorted, last, key, k);
            lemma_with_key_push(front, last, key, k);
        }
    }
}

/// Two sequences in ascending order that hold the same items, as often as each
/// other, are the same, provided that items with equal keys are equal.
pub proof fn law_one_ascending_order<T>(a: Seq<T>, b: Seq<T>, key: spec_fn(T) -> int)
    requires
        ascends(a, key),
        ascends(b, key),
        a.to_multiset() == b.to_multiset(),
        forall|i: int, j: int|
            0 <= i < a.len() && 0 <= j < a.len() && key(#[trigger] a[i]) == key(#[trigger] a[j])
                ==> a[i] == a[j],
    ensures
        a == b,
    decreases a.len(),
{
    broadcast use vstd::seq_lib::group_to_multiset_ensures;

    assert(a.to_multiset().len() == a.len());
    assert(b.to_multiset().len() == b.len());
    if a.len() == 0 {
        assert(a =~= b);
    } else {
        let last = a.len() - 1;
        assert(a.to_multiset().count(b[last]) > 0) by {
            assert(b.contains(b[last]));
        }
        assert(b.to_multiset().count(a[last]) > 0) by {
            assert(a.contains(a[last]));
        }
        let i = a.index_of(b[last]);
        let j = b.index_of(a[last]);
        assert(0 <= i < a.len() && a[i] == b[last]);
        assert(0 <= j < b.len() && b[j] == a[last]);
        assert(key(a[i]) <= key(a[last]));
        assert(key(b[j]) <= key(b[last]));
        assert(a[last] == b[last]);
        assert(a.drop_last() =~= a.remove(last));
        assert(b.drop_last() =~= b.remove(last));
        law_one_ascending_order(a.drop_last(), b.drop_last(), key);
        assert(a =~= a.drop_last().push(a[last]));
        assert(b =~= b.drop_last().push(b[last]));
    }
}

/// Insertion at the one place behind everything whose key is not greater.
proof fn lemma_insert_at<T>(sorted: Seq<T>, item: T, key: spec_fn(T) -> int, place: int)
    requires
        0 <= place <= sorted.len(),
        place == 0 || key(sorted[place - 1]) <= key(item),
        forall|i: int| place <= i < sorted.len() ==> key(#[trigger] sorted[i]) > key(item),
    ensures
        insert_by_key(sorted, item, key) == sorted.insert(place, item),
    decreases sorted.len(),
{
    if place < sorted.len() {
        lemma_insert_at(sorted.drop_last(), item, key, place);
        assert(sorted.drop_last().insert(place, item).push(sorted.last()) =~= sorted.insert(
            place,
            item,
        ));
    } else {
        assert(sorted.insert(place, item) =~= sorted.push(item));
    }
}

/// Something that is sorted by an unsigned key.
pub trait Keyed: Sized {
    /// The key.
    spec fn key(self) -> int;

    /// Returns the key.
    fn sort_key(&self) -> (key: u64)
        ensures
            key == self.key(),
    ;
}

/// The key of each item.
pub open spec fn key_of<T: Keyed>() -> spec_fn(T) -> int {
    |item: T| item.key()
}

/// Sorts `items` by their keys; items with equal keys keep their order.
pub fn sort_by_key<T: Keyed>(items: Vec<T>) -> (sorted: Vec<T>)
    ensures
        sorted@ == sorted_by_key(items@, key_of::<T>()),
{
    let ghost key = key_of::<T>();
    let ghost all = items@;
    let mut sorted: Vec<T> = Vec::new();
    for item in it: items
        invariant
            it.seq() == all,
            key == key_of::<T>(),
            sorted@ == sorted_by_key(all.take(it.index() as int), key),
    {
        let new_key: u64 = item.sort_key();
        let mut place: usize = sorted.len();
        while place > 0 && sorted[place - 1].sort_key() > new_key
            invariant
                place <= sorted@.len(),
                new_key == item.key(),
                forall|i: int| place <= i < sorted@.len() ==> (#[trigger] sorted@[i]).key() > item.key(),
            decreases place,
        {
            place -= 1;
        }
        proof {
            lemma_insert_at(sorted@, item, key, place as int);
            assert(all.take(it.index() + 1).drop_last() =~= all.take(it.index() as int));
        }
        sorted.insert(place, item);
    }
    assert(all.take(all.len() as int) =~= all);
    sorted
}

/// Items can be sorted before or after they are mapped, as long as the keys
/// agree.
pub proof fn law_sorting_commutes_with_mapping<A, B>(
    items: Seq<A>,
    image: spec_fn(A) -> B,
    key: spec_fn(B) -> int,
)
    ensures
        sorted_by_key(items, |item: A| key(image(item))).map_values(image) == sorted_by_key(
            items.map_values(image),
            key,
        ),
    decreases items.len(),
{
    let mapped_key = |item: A| key(image(item));
    if items.len() == 0 {
        assert(items.map_values(image) =~= Seq::empty());
        assert(sorted_by_key(items, mapped_key).map_values(image) =~= Seq::empty());
        assert(sorted_by_key(items.map_values(image), key) =~= Seq::empty());
    } else {
        let front = items.drop_last();
        law_sorting_commutes_with_mapping(front, image, key);
        lemma_insert_commutes_with_mapping(
            sorted_by_key(front, mapped_key),
            items.last(),
            image,
            key,
        );
        assert(items.map_values(image).drop_last() =~= front.map_values(image));
    }
}

proof fn lemma_insert_commutes_with_mapping<A, B>(
    sorted: Seq<A>,
    item: A,
    image: spec_fn(A) -> B,
    key: spec_fn(B) -> int,
)
    ensures
        insert_by_key(sorted, item, |item: A| key(image(item))).map_values(image) == insert_by_key(
            sorted.map_values(image),
            image(item),
            key,
        ),
    decreases sorted.len(),
{
    let mapped_key = |item: A| key(image(item));
    if sorted.len() == 0 || key(image(sorted.last())) <= key(image(item)) {
        assert(sorted.push(item).map_values(image) =~= sorted.map_values(image).push(image(item)));
    } else {
        let front = sorted.drop_last();
        lemma_insert_commutes_with_mapping(front, item, image, key);
        assert(sorted.map_values(image).drop_last() =~= front.map_values(image));
        assert(insert_by_key(front, item, mapped_key).push(sorted.last()).map_values(image)
            =~= insert_by_key(front, item, mapped_key).map_values(image).push(image(sorted.last())));
    }
}

} // verus!
