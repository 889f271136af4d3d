//! Stable sorting by a text key.

use vstd::prelude::*;
use crate::text;

verus! {

/// Something that is sorted by a text.
pub trait Keyed {
    /// The text a value is sorted by.
    spec fn key(&self) -> Seq<char>;

    /// The text a value is sorted by.
    fn key_text(&self) -> (text: &str)
        ensures
            text@ == self.key(),
    ;
}

impl Keyed for String {
    open spec fn key(&self) -> Seq<char> {
        self@
    }

    fn key_text(&self) -> (text: &str) {
        self.as_str()
    }
}

/// The text a value is sorted by, as a function.
pub open spec fn key_of<T: Keyed>() -> spec_fn(T) -> Seq<char> {
    |value: T| value.key()
}

/// `sorted` with `item` put in front of the first element whose key is not
/// before its own.
pub open spec fn placed<V>(item: V, sorted: Seq<V>, key: spec_fn(V) -> Seq<char>) -> Seq<V>
    decreases sorted.len(),
{
    if sorted.len() > 0 && text::before(key(sorted[0]), key(item)) {
        seq![sorted[0]] + placed(item, sorted.drop_first(), key)
    } else {
        seq![item] + sorted
    }
}

/// The elements in the order of their keys; equal keys keep their order.
pub open spec fn sorted_by<V>(items: Seq<V>, key: spec_fn(V) -> Seq<char>) -> Seq<V>
    decreases items.len(),
{
    if items.len() == 0 {
        items
    } else {
        placed(items[0], sorted_by(items.drop_first(), key), key)
    }
}

/// The elements in the order of their own keys; equal keys keep their order.
pub open spec fn sorted<T: Keyed>(items: Seq<T>) -> Seq<T> {
    sorted_by(items, key_of())
}

/// Whether no element has a key before that of an earlier one.
pub open spec fn in_order<V>(items: Seq<V>, key: spec_fn(V) -> Seq<char>) -> bool {
    forall|i: int, j: int|
        0 <= i < j < items.len() ==> !text::before(
            key(#[trigger] items[j]),
            key(#[trigger] items[i]),
        )
}

/// The test for one key.
pub open spec fn has_key<V>(key: spec_fn(V) -> Seq<char>, wanted: Seq<char>) -> spec_fn(V) -> bool {
    |item: V| key(item) == wanted
}

/// The elements with one key, in their order.
pub open spec fn with_key<V>(items: Seq<V>, key: spec_fn(V) -> Seq<char>, wanted: Seq<char>) -> Seq<V> {
    items.filter(has_key(key, wanted))
}

/// What a first element adds to the elements with one key.
proof fn with_key_of_first<V>(
    first: V,
    rest: Seq<V>,
    key: spec_fn(V) -> Seq<char>,
    wanted: Seq<char>,
)
    ensures
        with_key(seq![first] + rest, key, wanted) == if key(first) == wanted {
            seq![first] + with_key(rest, key, wanted)
        } else {
            with_key(rest, key, wanted)
        },
{
    let one = seq![first];
    Seq::filter_distributes_over_add(one, rest, has_key(key, wanted));
    reveal_with_fuel(Seq::filter, 2);
    assert(one.drop_last() =~= Seq::empty());
    if key(first) == wanted {
        assert(with_key(one, key, wanted) =~= one);
    } else {
        assert(with_key(one, key, wanted) =~= Seq::empty());
        assert(Seq::empty() + with_key(rest, key, wanted) =~= with_key(rest, key, wanted));
    }
}

/// Where [`placed`] puts the element, given the length of the run before it.
proof fn placed_at<V>(item: V, sorted: Seq<V>, key: spec_fn(V) -> Seq<char>, at: int)
    requires
        0 <= at <= sorted.len(),
        forall|i: int| 0 <= i < at ==> text::before(key(#[trigger] sorted[i]), key(item)),
        at < sorted.len() ==> !text::before(key(sorted[at]), key(item)),
    ensures
        placed(item, sorted, key) == sorted.insert(at, item),
    decreases at,
{
    if at == 0 {
        assert(placed(item, sorted, key) =~= sorted.insert(0, item));
    } else {
        let rest = sorted.drop_first();
        assert forall|i: int| 0 <= i < at - 1 implies text::before(
            key(#[trigger] rest[i]),
            key(item),
        ) by {
            assert(rest[i] == sorted[i + 1]);
        }
        if at - 1 < rest.len() {
            assert(rest[at - 1] == sorted[at]);
        }
        placed_at(item, rest, key, at - 1);
        assert(text::before(key(sorted[0]), key(item)));
        assert(seq![sorted[0]] + rest.insert(at - 1, item) =~= sorted.insert(at, item));
    }
}

/// Sorts by key, keeping the order of elements with equal keys.
pub fn sort<T: Keyed>(items: Vec<T>) -> (result: Vec<T>)
    ensures
        result@ == sorted(items@),
{
    let ghost all = items@;
    let mut rest = items;
    let mut result: Vec<T> = Vec::new();
    assert(all.skip(all.len() as int) =~= Seq::empty());
    while rest.len() > 0
        invariant
            rest@.len() <= all.len(),
            rest@ == all.take(rest@.len() as int),
            result@ == sorted(all.skip(rest@.len() as int)),
        decreases rest@.len(),
    {
        let ghost left = rest@.len() as int;
        let last: usize = rest.len() - 1;
        let item = rest.remove(last);
        assert(item == all[left - 1]);
        assert(rest@ =~= all.take(left - 1));
        let mut at: usize = 0;
        while at < result.len() && text::is_before(result[at].key_text(), item.key_text())
            invariant
                0 <= at <= result@.len(),
                forall|i: int|
                    0 <= i < at ==> text::before((#[trigger] result@[i]).key(), item.key()),
            decreases result@.len() - at,
        {
            at = at + 1;
        }
        proof {
            placed_at(item, result@, key_of(), at as int);
            assert(all.skip(left - 1).drop_first() =~= all.skip(left));
            assert(all.skip(left - 1)[0] == item);
        }
        result.insert(at, item);
    }
    assert(all.skip(0) =~= all);
    result
}

/// What [`placed`] keeps: the elements, the order, and the order among equals.
proof fn placed_keeps<V>(
    item: V,
    sorted: Seq<V>,
    key: spec_fn(V) -> Seq<char>,
    wanted: Seq<char>,
)
    requires
        in_order(sorted, key),
    ensures
        in_order(placed(item, sorted, key), key),
        placed(item, sorted, key).to_multiset() == sorted.to_multiset().insert(item),
        with_key(placed(item, sorted, key), key, wanted) == if key(item) == wanted {
            seq![item] + with_key(sorted, key, wanted)
        } else {
            with_key(sorted, key, wanted)
        },
        placed(item, sorted, key).len() == sorted.len() + 1,
        forall|i: int|
            0 <= i < placed(item, sorted, key).len() ==> (#[trigger] placed(item, sorted, key)[i])
                == item || exists|j: int|
                0 <= j < sorted.len() && sorted[j] == placed(item, sorted, key)[i],
    decreases sorted.len(),
{
    broadcast use vstd::seq_lib::group_to_multiset_ensures;

    if sorted.len() > 0 && text::before(key(sorted[0]), key(item)) {
        let rest = sorted.drop_first();
        let inner = placed(item, rest, key);
        assert forall|i: int, j: int| 0 <= i < j < rest.len() implies !text::before(
            key(#[trigger] rest[j]),
            key(#[trigger] rest[i]),
        ) by {
            assert(rest[i] == sorted[i + 1] && rest[j] == sorted[j + 1]);
        }
        placed_keeps(item, rest, key, wanted);
        let all = seq![sorted[0]] + inner;
        assert forall|i: int, j: int| 0 <= i < j < all.len() implies !text::before(
            key(#[trigger] all[j]),
            key(#[trigger] all[i]),
        ) by {
            if i == 0 {
                assert(all[j] == inner[j - 1]);
                if inner[j - 1] == item {
                    text::before_is_total(key(sorted[0]), key(item));
                } else {
                    let k = choose|k: int| 0 <= k < rest.len() && rest[k] == inner[j - 1];
                    assert(rest[k] == sorted[k + 1]);
                }
            } else {
                assert(all[i] == inner[i - 1] && all[j] == inner[j - 1]);
            }
        }
        assert(sorted =~= seq![sorted[0]] + rest);
        vstd::seq_lib::lemma_multiset_commutative(seq![sorted[0]], inner);
        vstd::seq_lib::lemma_multiset_commutative(seq![sorted[0]], rest);
        assert(all.to_multiset() =~= sorted.to_multiset().insert(item));
        with_key_of_first(sorted[0], inner, key, wanted);
        with_key_of_first(sorted[0], rest, key, wanted);
        text::before_is_total(key(sorted[0]), key(item));
    } else {
        let all = seq![item] + sorted;
        assert forall|i: int, j: int| 0 <= i < j < all.len() implies !text::before(
            key(#[trigger] all[j]),
            key(#[trigger] all[i]),
        ) by {
            if i == 0 {
                assert(all[j] == sorted[j - 1]);
                if j - 1 > 0 {
                    if text::before(key(sorted[j - 1]), key(item)) {
                        text::before_is_total(key(sorted[j - 1]), key(sorted[0]));
                        if key(sorted[j - 1]) != key(sorted[0]) {
                            text::before_is_transitive(
                                key(sorted[0]),
                                key(sorted[j - 1]),
                                key(item),
                            );
                        }
                    }
                }
            } else {
                assert(all[i] == sorted[i - 1] && all[j] == sorted[j - 1]);
            }
        }
        vstd::seq_lib::lemma_multiset_commutative(seq![item], sorted);
        assert(all.to_multiset() =~= sorted.to_multiset().insert(item));
        with_key_of_first(item, sorted, key, wanted);
    }
}

/// Sorting orders the elements, neither loses nor invents one, and keeps the
/// order of those with equal keys.
pub proof fn sorting_is_stable<V>(
    items: Seq<V>,
    key: spec_fn(V) -> Seq<char>,
    wanted: Seq<char>,
)
    ensures
        in_order(sorted_by(items, key), key),
        sorted_by(items, key).to_multiset() == items.to_multiset(),
        sorted_by(items, key).len() == items.len(),
        with_key(sorted_by(items, key), key, wanted) == with_key(items, key, wanted),
    decreases items.len(),
{
    broadcast use vstd::seq_lib::group_to_multiset_ensures;

    if items.len() > 0 {
        let rest = items.drop_first();
        sorting_is_stable(rest, key, wanted);
        placed_keeps(items[0], sorted_by(rest, key), key, wanted);
        assert(items =~= seq![items[0]] + rest);
        vstd::seq_lib::lemma_multiset_commutative(seq![items[0]], rest);
        assert(items.to_multiset() =~= rest.to_multiset().insert(items[0]));
        with_key_of_first(items[0], rest, key, wanted);
    }
}

/// Placing values and placing what they stand for comes to the same.
proof fn placing_commutes<T: Keyed, V>(
    item: T,
    sorted: Seq<T>,
    view: spec_fn(T) -> V,
    key: spec_fn(V) -> Seq<char>,
)
    requires
        forall|value: T| key(#[trigger] view(value)) == value.key(),
    ensures
        placed(item, sorted, key_of()).map_values(view) == placed(
            view(item),
            sorted.map_values(view),
            key,
        ),
    decreases sorted.len(),
{
    let views = sorted.map_values(view);
    if sorted.len() > 0 && text::before(sorted[0].key(), item.key()) {
        let rest = sorted.drop_first();
        placing_commutes(item, rest, view, key);
        assert(views.drop_first() =~= rest.map_values(view));
        assert(views[0] == view(sorted[0]));
        assert((seq![sorted[0]] + placed(item, rest, key_of())).map_values(view) =~= seq![views[0]]
            + placed(item, rest, key_of()).map_values(view));
    } else {
        if sorted.len() > 0 {
            assert(views[0] == view(sorted[0]));
        }
        assert((seq![item] + sorted).map_values(view) =~= seq![view(item)] + views);
    }
}

/// Sorting values and sorting what they stand for comes to the same.
pub proof fn sorting_commutes<T: Keyed, V>(
    items: Seq<T>,
    view: spec_fn(T) -> V,
    key: spec_fn(V) -> Seq<char>,
)
    requires
        forall|value: T| key(#[trigger] view(value)) == value.key(),
    ensures
        sorted(items).map_values(view) == sorted_by(items.map_values(view), key),
    decreases items.len(),
{
    let views = items.map_values(view);
    if items.len() == 0 {
        assert(sorted(items).map_values(view) =~= views);
    } else {
        let rest = items.drop_first();
        sorting_commutes(rest, view, key);
        placing_commutes(items[0], sorted(rest), view, key);
        assert(views.drop_first() =~= rest.map_values(view));
        assert(views[0] == view(items[0]));
    }
}

/// Sorting neither loses nor invents an element.
pub proof fn sorting_keeps_the_elements<V>(items: Seq<V>, key: spec_fn(V) -> Seq<char>, item: V)
    ensures
        sorted_by(items, key).contains(item) <==> items.contains(item),
        sorted_by(items, key).len() == items.len(),
{
    broadcast use vstd::seq_lib::group_to_multiset_ensures;

    sorting_is_stable(items, key, Seq::empty());
    assert(sorted_by(items, key).to_multiset().count(item) == items.to_multiset().count(item));
}

/// Filtering keeps exactly the elements that pass the test.
pub proof fn filtering_keeps_what_passes<V>(items: Seq<V>, test: spec_fn(V) -> bool, item: V)
    ensures
        items.filter(test).contains(item) <==> items.contains(item) && test(item),
    decreases items.len(),
{
    reveal(Seq::filter);
    if items.len() > 0 {
        let init = items.drop_last();
        let last = items.last();
        let kept = items.filter(test);
        let shorter = init.filter(test);
        filtering_keeps_what_passes(init, test, item);
        assert(items.contains(item) <==> init.contains(item) || item == last) by {
            if init.contains(item) {
                let i = choose|i: int| 0 <= i < init.len() && init[i] == item;
                assert(items[i] == item);
            }
            assert(items[items.len() - 1] == last);
            if items.contains(item) {
                let i = choose|i: int| 0 <= i < items.len() && items[i] == item;
                assert(i < init.len() ==> init[i] == item);
            }
        }
        if test(last) {
            if shorter.contains(item) {
                let i = choose|i: int| 0 <= i < shorter.len() && shorter[i] == item;
                assert(kept[i] == item);
            }
            assert(kept[kept.len() - 1] == last);
            if kept.contains(item) {
                let i = choose|i: int| 0 <= i < kept.len() && kept[i] == item;
                assert(i < shorter.len() ==> shorter[i] == item);
            }
        }
    }
}

} // verus!
