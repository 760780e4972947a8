//! Stable sorting by any order.

use vstd::prelude::*;

verus! {

/// The position, from `from` on, of the first item that `wanted` accepts.
pub open spec fn first_where<T>(items: Seq<T>, wanted: spec_fn(T) -> bool, from: int) -> Option<int>
    decreases items.len() - from,
{
    if from < 0 || from >= items.len() {
        None
    } else if wanted(items[from]) {
        Some(from)
    } else {
        first_where(items, wanted, from + 1)
    }
}

/// `first_where` gives the least position that is accepted.
pub proof fn lemma_first_where<T>(items: Seq<T>, wanted: spec_fn(T) -> bool, from: int)
    requires
        0 <= from,
    ensures
        match first_where(items, wanted, from) {
            Some(at) => from <= at < items.len() && wanted(items[at]) && (forall|k: int|
                from <= k < at ==> !wanted(#[trigger] items[k])),
            None => forall|k: int| from <= k < items.len() ==> !wanted(#[trigger] items[k]),
        },
    decreases items.len() - from,
{
    if from < items.len() && !wanted(items[from]) {
        lemma_first_where(items, wanted, from + 1);
    }
}

/// A position that is accepted and that no accepted one precedes is the first.
pub proof fn lemma_is_first_where<T>(items: Seq<T>, wanted: spec_fn(T) -> bool, at: Option<int>)
    requires
        match at {
            Some(i) => 0 <= i < items.len() && wanted(items[i]) && (forall|k: int|
                0 <= k < i ==> !wanted(#[trigger] items[k])),
            None => forall|k: int| 0 <= k < items.len() ==> !wanted(#[trigger] items[k]),
        },
    ensures
        first_where(items, wanted, 0) == at,
{
    lemma_first_where(items, wanted, 0);
}

/// `item` put behind every item that it does not come before.
pub open spec fn insert_sorted<T>(items: Seq<T>, item: T, before: spec_fn(T, T) -> bool) -> Seq<T>
    decreases items.len(),
{
    if items.len() == 0 || !before(item, items.last()) {
        items.push(item)
    } else {
        insert_sorted(items.drop_last(), item, before).push(items.last())
    }
}

/// The items in the given order; those that neither precede nor follow each
/// other keep their order.
pub open spec fn sorted<T>(items: Seq<T>, before: spec_fn(T, T) -> bool) -> Seq<T>
    decreases items.len(),
{
    if items.len() == 0 {
        items
    } else {
        insert_sorted(sorted(items.drop_last(), before), items.last(), before)
    }
}

/// What an order must satisfy for `sorted` to sort.
pub open spec fn orders<T>(before: spec_fn(T, T) -> bool) -> bool {
    &&& forall|a: T, b: T| #[trigger] before(a, b) ==> !before(b, a)
    &&& forall|a: T, b: T, c: T|
        #![trigger before(a, b), before(b, c)]
        before(a, b) && before(b, c) ==> before(a, c)
    &&& forall|a: T, b: T, c: T|
        #![trigger before(a, b), before(b, c)]
        !before(a, b) && !before(b, c) ==> !before(a, c)
}

pub open spec fn in_order<T>(items: Seq<T>, before: spec_fn(T, T) -> bool) -> bool {
    forall|i: int, j: int| 0 <= i < j < items.len() ==> !before(#[trigger] items[j], #[trigger] items[i])
}

proof fn lemma_insert_sorted_items<T>(items: Seq<T>, item: T, before: spec_fn(T, T) -> bool)
    ensures
        insert_sorted(items, item, before).to_multiset() == items.to_multiset().insert(item),
        insert_sorted(items, item, before).len() == items.len() + 1,
        forall|i: int|
            0 <= i < items.len() + 1 ==> #[trigger] insert_sorted(items, item, before)[i] == item
                || items.contains(insert_sorted(items, item, before)[i]),
    decreases items.len(),
{
    broadcast use vstd::seq_lib::to_multiset_build;

    let result = insert_sorted(items, item, before);
    if items.len() == 0 || !before(item, items.last()) {
        assert forall|i: int| 0 <= i < items.len() + 1 implies #[trigger] result[i] == item
            || items.contains(result[i]) by {
            if i < items.len() {
                assert(items.contains(items[i]));
            }
        }
    } else {
        let head = items.drop_last();
        lemma_insert_sorted_items(head, item, before);
        assert(items =~= head.push(items.last()));
        assert(items.to_multiset() == head.to_multiset().insert(items.last()));
        assert(result.to_multiset() =~= items.to_multiset().insert(item));
        assert forall|i: int| 0 <= i < items.len() + 1 implies #[trigger] result[i] == item
            || items.contains(result[i]) by {
            if i < items.len() {
                let earlier = insert_sorted(head, item, before);
                assert(result[i] == earlier[i]);
                if earlier[i] != item {
                    let k = choose|k: int| 0 <= k < head.len() && head[k] == earlier[i];
                    assert(items[k] == result[i]);
                }
            } else {
                assert(items[items.len() - 1] == result[i]);
            }
        }
    }
}

proof fn lemma_insert_sorted_in_order<T>(items: Seq<T>, item: T, before: spec_fn(T, T) -> bool)
    requires
        orders(before),
        in_order(items, before),
    ensures
        in_order(insert_sorted(items, item, before), before),
    decreases items.len(),
{
    let result = insert_sorted(items, item, before);
    if items.len() == 0 {
    } else if !before(item, items.last()) {
        assert forall|i: int, j: int| 0 <= i < j < result.len() implies !before(
            #[trigger] result[j],
            #[trigger] result[i],
        ) by {
            if j == items.len() {
                if i < items.len() - 1 {
                    assert(!before(items[items.len() - 1], items[i]));
                }
            }
        }
    } else {
        let head = items.drop_last();
        lemma_insert_sorted_in_order(head, item, before);
        lemma_insert_sorted_items(head, item, before);
        let earlier = insert_sorted(head, item, before);
        assert forall|i: int, j: int| 0 <= i < j < result.len() implies !before(
            #[trigger] result[j],
            #[trigger] result[i],
        ) by {
            if j == items.len() {
                assert(result[i] == earlier[i]);
                if earlier[i] != item {
                    let k = choose|k: int| 0 <= k < head.len() && head[k] == earlier[i];
                    assert(items[k] == result[i]);
                    assert(!before(items[items.len() - 1], items[k]));
                }
            }
        }
    }
}

/// Sorting keeps every item, as often as it stood there.
pub proof fn lemma_sorted_keeps_items<T>(items: Seq<T>, before: spec_fn(T, T) -> bool)
    ensures
        sorted(items, before).to_multiset() == items.to_multiset(),
        sorted(items, before).len() == items.len(),
    decreases items.len(),
{
    broadcast use vstd::seq_lib::to_multiset_build;

    if items.len() > 0 {
        let head = items.drop_last();
        lemma_sorted_keeps_items(head, before);
        lemma_insert_sorted_items(sorted(head, before), items.last(), before);
        assert(items =~= head.push(items.last()));
    }
}

/// After sorting no item comes before one that stands ahead of it.
pub proof fn lemma_sorted_in_order<T>(items: Seq<T>, before: spec_fn(T, T) -> bool)
    requires
        orders(before),
    ensures
        in_order(sorted(items, before), before),
    decreases items.len(),
{
    if items.len() > 0 {
        lemma_sorted_in_order(items.drop_last(), before);
        lemma_insert_sorted_in_order(sorted(items.drop_last(), before), items.last(), before);
    }
}

proof fn lemma_insert_sorted_stable<T>(
    items: Seq<T>,
    item: T,
    before: spec_fn(T, T) -> bool,
    class: spec_fn(T) -> bool,
)
    requires
        forall|a: T, b: T| class(a) && class(b) ==> !#[trigger] before(a, b),
    ensures
        insert_sorted(items, item, before).filter(class) == items.push(item).filter(class),
    decreases items.len(),
{
    broadcast use Seq::lemma_filter_push;

    if items.len() == 0 || !before(item, items.last()) {
    } else {
        let head = items.drop_last();
        lemma_insert_sorted_stable(head, item, before, class);
        assert(items =~= head.push(items.last()));
        head.lemma_filter_push(item, class);
        head.lemma_filter_push(items.last(), class);
        items.lemma_filter_push(item, class);
        insert_sorted(head, item, before).lemma_filter_push(items.last(), class);
    }
}

/// Sorting is stable: items of which none comes before another keep their
/// order among themselves.
pub proof fn lemma_sorted_stable<T>(
    items: Seq<T>,
    before: spec_fn(T, T) -> bool,
    class: spec_fn(T) -> bool,
)
    requires
        forall|a: T, b: T| class(a) && class(b) ==> !#[trigger] before(a, b),
    ensures
        sorted(items, before).filter(class) == items.filter(class),
    decreases items.len(),
{
    if items.len() > 0 {
        let head = items.drop_last();
        lemma_sorted_stable(head, before, class);
        lemma_insert_sorted_stable(sorted(head, before), items.last(), before, class);
        sorted(head, before).lemma_filter_push(items.last(), class);
        head.lemma_filter_push(items.last(), class);
        assert(items =~= head.push(items.last()));
    }
}

proof fn lemma_insert_sorted_map<T, U>(
    items: Seq<T>,
    item: T,
    before: spec_fn(T, T) -> bool,
    image: spec_fn(T) -> U,
    order: spec_fn(U, U) -> bool,
)
    requires
        forall|a: T, b: T| #[trigger] before(a, b) == order(image(a), image(b)),
    ensures
        insert_sorted(items, item, before).map_values(image) == insert_sorted(
            items.map_values(image),
            image(item),
            order,
        ),
    decreases items.len(),
{
    if items.len() == 0 || !before(item, items.last()) {
        assert(items.push(item).map_values(image) =~= items.map_values(image).push(image(item)));
    } else {
        let head = items.drop_last();
        lemma_insert_sorted_map(head, item, before, image, order);
        assert(head.map_values(image) =~= items.map_values(image).drop_last());
        assert(insert_sorted(items, item, before).map_values(image) =~= insert_sorted(
            head,
            item,
            before,
        ).map_values(image).push(image(items.last())));
    }
}

/// Sorting items by an order on their images sorts the images.
pub proof fn lemma_sorted_map<T, U>(
    items: Seq<T>,
    before: spec_fn(T, T) -> bool,
    image: spec_fn(T) -> U,
    order: spec_fn(U, U) -> bool,
)
    requires
        forall|a: T, b: T| #[trigger] before(a, b) == order(image(a), image(b)),
    ensures
        sorted(items, before).map_values(image) == sorted(items.map_values(image), order),
    decreases items.len(),
{
    if items.len() > 0 {
        let head = items.drop_last();
        lemma_sorted_map(head, before, image, order);
        lemma_insert_sorted_map(sorted(head, before), items.last(), before, image, order);
        assert(items.map_values(image).drop_last() =~= head.map_values(image));
    } else {
        assert(items.map_values(image) =~= sorted(items, before).map_values(image));
    }
}

proof fn lemma_insert_sorted_same<T>(
    items: Seq<T>,
    item: T,
    before: spec_fn(T, T) -> bool,
    other: spec_fn(T, T) -> bool,
)
    requires
        forall|k: int| 0 <= k < items.len() ==> before(item, #[trigger] items[k]) == other(item, items[k]),
    ensures
        insert_sorted(items, item, before) == insert_sorted(items, item, other),
    decreases items.len(),
{
    if items.len() > 0 {
        let head = items.drop_last();
        assert forall|k: int| 0 <= k < head.len() implies before(item, #[trigger] head[k]) == other(
            item,
            head[k],
        ) by {
            assert(head[k] == items[k]);
        }
        lemma_insert_sorted_same(head, item, before, other);
    }
}

/// Two orders that agree on the items sort them alike.
pub proof fn lemma_sorted_same<T>(
    items: Seq<T>,
    before: spec_fn(T, T) -> bool,
    other: spec_fn(T, T) -> bool,
)
    requires
        forall|i: int, j: int|
            0 <= i < items.len() && 0 <= j < items.len() ==> before(
                #[trigger] items[i],
                #[trigger] items[j],
            ) == other(items[i], items[j]),
    ensures
        sorted(items, before) == sorted(items, other),
    decreases items.len(),
{
    if items.len() > 0 {
        let head = items.drop_last();
        assert forall|i: int, j: int| 0 <= i < head.len() && 0 <= j < head.len() implies before(
            #[trigger] head[i],
            #[trigger] head[j],
        ) == other(head[i], head[j]) by {
            assert(head[i] == items[i] && head[j] == items[j]);
        }
        lemma_sorted_same(head, before, other);
        let earlier = sorted(head, before);
        lemma_sorted_contains(head, before);
        assert forall|k: int| 0 <= k < earlier.len() implies before(items.last(), #[trigger] earlier[k])
            == other(items.last(), earlier[k]) by {
            let at = choose|at: int| 0 <= at < head.len() && head[at] == earlier[k];
            assert(items[at] == earlier[k] && items[items.len() - 1] == items.last());
        }
        lemma_insert_sorted_same(earlier, items.last(), before, other);
    }
}

/// Every item of the sorted sequence stood in the given one.
pub proof fn lemma_sorted_contains<T>(items: Seq<T>, before: spec_fn(T, T) -> bool)
    ensures
        sorted(items, before).len() == items.len(),
        forall|i: int|
            0 <= i < items.len() ==> items.contains(#[trigger] sorted(items, before)[i]),
    decreases items.len(),
{
    lemma_sorted_keeps_items(items, before);
    if items.len() > 0 {
        let head = items.drop_last();
        lemma_sorted_contains(head, before);
        let earlier = sorted(head, before);
        lemma_insert_sorted_items(earlier, items.last(), before);
        assert forall|i: int| 0 <= i < items.len() implies items.contains(
            #[trigger] sorted(items, before)[i],
        ) by {
            let found = sorted(items, before)[i];
            if found == items.last() {
                assert(items[items.len() - 1] == found);
            } else {
                let k = choose|k: int| 0 <= k < earlier.len() && earlier[k] == found;
                assert(head.contains(earlier[k]));
                let at = choose|at: int| 0 <= at < head.len() && head[at] == found;
                assert(items[at] == found);
            }
        }
    }
}

/// `insert_sorted` puts the item at `at` where it comes before all that stand
/// from there on and not before the one ahead of it.
proof fn lemma_insert_sorted_at<T>(items: Seq<T>, item: T, before: spec_fn(T, T) -> bool, at: int)
    requires
        0 <= at <= items.len(),
        forall|k: int| at <= k < items.len() ==> before(item, #[trigger] items[k]),
        at > 0 ==> !before(item, items[at - 1]),
    ensures
        insert_sorted(items, item, before) == items.insert(at, item),
    decreases items.len(),
{
    if at < items.len() {
        let head = items.drop_last();
        assert forall|k: int| at <= k < head.len() implies before(item, #[trigger] head[k]) by {
            assert(head[k] == items[k]);
        }
        lemma_insert_sorted_at(head, item, before, at);
        assert(head.insert(at, item).push(items.last()) =~= items.insert(at, item));
    } else {
        assert(items.insert(at, item) =~= items.push(item));
    }
}

/// Sorts in place. `less` decides the order that `before` states.
pub fn sort_by<T, F: Fn(&T, &T) -> bool>(
    items: &mut Vec<T>,
    less: F,
    Ghost(before): Ghost<spec_fn(T, T) -> bool>,
)
    requires
        forall|a: T, b: T| #[trigger] less.requires((&a, &b)),
        forall|a: T, b: T, yes: bool| #[trigger] less.ensures((&a, &b), yes) ==> yes == before(a, b),
    ensures
        final(items)@ == sorted(old(items)@, before),
{
    let ghost start = items@;
    let mut rest: Vec<T> = Vec::new();
    rest.append(items);
    let mut out: Vec<T> = Vec::new();
    let ghost mut done: int = 0;
    rest = reversed(rest);
    while rest.len() > 0
        invariant
            0 <= done <= start.len(),
            rest@ == start.skip(done).reverse(),
            out@ == sorted(start.take(done), before),
            forall|a: T, b: T| #[trigger] less.requires((&a, &b)),
            forall|a: T, b: T, yes: bool| #[trigger]
                less.ensures((&a, &b), yes) ==> yes == before(a, b),
        decreases rest@.len(),
    {
        let ghost item_view = rest@.last();
        match rest.pop() {
            Some(item) => {
                proof {
                    assert(item == start[done]);
                    assert(start.take(done + 1).drop_last() =~= start.take(done));
                    assert(start.take(done + 1).last() == item);
                    assert(rest@ =~= start.skip(done + 1).reverse());
                }
                let mut at: usize = out.len();
                while at > 0 && less(&item, &out[at - 1])
                    invariant
                        at <= out@.len(),
                        forall|k: int| at <= k < out@.len() ==> before(item, #[trigger] out@[k]),
                        forall|a: T, b: T| #[trigger] less.requires((&a, &b)),
                        forall|a: T, b: T, yes: bool| #[trigger]
                            less.ensures((&a, &b), yes) ==> yes == before(a, b),
                    ensures
                        at <= out@.len(),
                        forall|k: int| at <= k < out@.len() ==> before(item, #[trigger] out@[k]),
                        at > 0 ==> !before(item, out@[at - 1]),
                    decreases at,
                {
                    at = at - 1;
                }
                proof {
                    lemma_insert_sorted_at(out@, item, before, at as int);
                    done = done + 1;
                }
                out.insert(at, item);
            },
            None => {},
        }
    }
    proof {
        assert(start.skip(done).len() == 0);
        assert(start.take(done) =~= start);
    }
    items.append(&mut out);
}

/// The items in reverse order.
fn reversed<T>(items: Vec<T>) -> (out: Vec<T>)
    ensures
        out@ == items@.reverse(),
{
    let ghost start = items@;
    let mut rest = items;
    let mut out: Vec<T> = Vec::new();
    while rest.len() > 0
        invariant
            rest@.len() <= start.len(),
            rest@ == start.take(rest@.len() as int),
            out@ == start.skip(rest@.len() as int).reverse(),
        decreases rest@.len(),
    {
        let ghost n = rest@.len() as int;
        match rest.pop() {
            Some(item) => {
                proof {
                    assert(rest@ =~= start.take(n - 1));
                    assert(item == start[n - 1]);
                }
                out.push(item);
                assert(out@ =~= start.skip(n - 1).reverse());
            },
            None => {},
        }
    }
    assert(out@ =~= start.reverse());
    out
}

} // verus!
