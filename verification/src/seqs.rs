//! Facts about sequences that several modules lean on.

use vstd::prelude::*;

verus! {

/// Filtering a list that is one item longer.
pub proof fn lemma_filter_push<T>(items: Seq<T>, item: T, pred: spec_fn(T) -> bool)
    ensures
        items.push(item).filter(pred) == if pred(item) {
            items.filter(pred).push(item)
        } else {
            items.filter(pred)
        },
{
    reveal(Seq::filter);
    assert(items.push(item).drop_last() =~= items);
}

/// What is left after filtering was there before, satisfies the predicate, and
/// stands in the order it had; nothing that satisfies the predicate is lost.
pub proof fn lemma_filter_is_within<T>(items: Seq<T>, pred: spec_fn(T) -> bool)
    ensures
        items.filter(pred).len() <= items.len(),
        forall|x: T| #[trigger] items.filter(pred).contains(x) ==> items.contains(x) && pred(x),
        forall|x: T| items.contains(x) && pred(x) ==> #[trigger] items.filter(pred).contains(x),
        items.no_duplicates() ==> items.filter(pred).no_duplicates(),
    decreases items.len(),
{
    reveal(Seq::filter);
    if items.len() > 0 {
        let before = items.drop_last();
        let last = items.last();
        lemma_filter_is_within(before, pred);
        let rest = before.filter(pred);
        let out = items.filter(pred);
        assert forall|x: T| #[trigger] out.contains(x) implies items.contains(x) && pred(x) by {
            let i = choose|i: int| 0 <= i < out.len() && out[i] == x;
            if i < rest.len() {
                assert(rest.contains(x));
                let j = choose|j: int| 0 <= j < before.len() && before[j] == x;
            }
        }
        assert forall|x: T| items.contains(x) && pred(x) implies #[trigger] out.contains(x) by {
            let j = choose|j: int| 0 <= j < items.len() && items[j] == x;
            if j < items.len() - 1 {
                assert(before[j] == x);
            }
        }
        if items.no_duplicates() {
            if pred(last) {
                assert(!rest.contains(last));
            }
        }
    }
}

/// Where no two items have the same key, no two items that are left after
/// filtering have the same key.
pub proof fn lemma_filter_keeps_keys_single<T, K>(
    items: Seq<T>,
    pred: spec_fn(T) -> bool,
    key: spec_fn(T) -> K,
)
    requires
        items.map_values(key).no_duplicates(),
    ensures
        items.filter(pred).map_values(key).no_duplicates(),
    decreases items.len(),
{
    reveal(Seq::filter);
    if items.len() > 0 {
        let before = items.drop_last();
        let last = items.last();
        assert(before.map_values(key) =~= items.map_values(key).drop_last());
        lemma_filter_keeps_keys_single(before, pred, key);
        lemma_filter_is_within(before, pred);
        let rest = before.filter(pred);
        if pred(last) {
            assert(rest.push(last).map_values(key) =~= rest.map_values(key).push(key(last)));
            assert(!rest.map_values(key).contains(key(last))) by {
                if rest.map_values(key).contains(key(last)) {
                    let k = choose|k: int|
                        0 <= k < rest.map_values(key).len() && rest.map_values(key)[k] == key(
                            last,
                        );
                    assert(rest.contains(rest[k]));
                    let m = choose|m: int| 0 <= m < before.len() && before[m] == rest[k];
                    assert(items.map_values(key)[m] == key(last));
                    assert(items.map_values(key)[items.len() - 1] == key(last));
                }
            }
        }
    }
}

/// How many of `items` satisfy `pred`.
pub open spec fn occurrences<T>(items: Seq<T>, pred: spec_fn(T) -> bool) -> nat
    decreases items.len(),
{
    if items.len() == 0 {
        0
    } else {
        occurrences(items.drop_last(), pred) + if pred(items.last()) {
            1nat
        } else {
            0nat
        }
    }
}

/// Counting in a list that is one item longer.
pub proof fn lemma_occurrences_push<T>(items: Seq<T>, item: T, pred: spec_fn(T) -> bool)
    ensures
        occurrences(items.push(item), pred) == occurrences(items, pred) + if pred(item) {
            1nat
        } else {
            0nat
        },
{
    assert(items.push(item).drop_last() =~= items);
}

} // verus!
