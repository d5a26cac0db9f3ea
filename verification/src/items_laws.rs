use vstd::prelude::*;
use crate::items::{WalkEvent, WalkStep, WalkView};
use crate::map_batch::{BatchResult, BATCH_SIZE};
use crate::map_common::{KeyValue, MapValue};

verus! {

/// The walk as it ends when every step it asks for is answered by `kernel`,
/// for at most `fuel` steps.
pub open spec fn run<K, V>(
    walk: WalkView<K, V>,
    kernel: spec_fn(WalkStep<K>) -> WalkEvent<K, V>,
    fuel: nat,
) -> WalkView<K, V>
    decreases fuel,
{
    if fuel == 0 || walk.step is Done {
        walk
    } else {
        run(walk.advanced(kernel(walk.step)), kernel, (fuel - 1) as nat)
    }
}

/// True if `event` says that no further key can be had.
pub open spec fn no_further_key<K, V>(event: WalkEvent<K, V>) -> bool {
    event is Key && event->Key_0 is Err
}

/// True if `kernel` answers as a map that holds `contents` and hands out its
/// keys in the order `order`: the first key after none, each key after the
/// one before it, nothing after the last, and under each key its value.
pub open spec fn answers_key_by_key<K, V>(
    kernel: spec_fn(WalkStep<K>) -> WalkEvent<K, V>,
    order: Seq<K>,
    contents: Map<K, MapValue<V>>,
) -> bool {
    &&& forall|k: K| order.contains(k) <==> contents.dom().contains(k)
    &&& order.len() == 0 ==> no_further_key(kernel(WalkStep::NextKey(None)))
    &&& order.len() > 0 ==> kernel(WalkStep::NextKey(None)) == WalkEvent::<K, V>::Key(
        Ok(order[0]),
    )
    &&& forall|i: int|
        0 <= i < order.len() - 1 ==> #[trigger] kernel(WalkStep::NextKey(Some(order[i])))
            == WalkEvent::<K, V>::Key(Ok(order[i + 1]))
    &&& order.len() > 0 ==> no_further_key(kernel(WalkStep::NextKey(Some(order.last()))))
    &&& forall|k: K|
        contents.dom().contains(k) ==> #[trigger] kernel(WalkStep::Lookup(k))
            == WalkEvent::<K, V>::Value(Ok(contents[k]))
}

/// The items of `contents` in the order `order`.
pub open spec fn items_in_order<K, V>(order: Seq<K>, contents: Map<K, MapValue<V>>) -> Seq<
    KeyValue<K, MapValue<V>>,
> {
    Seq::new(order.len(), |i: int| KeyValue { key: order[i], value: contents[order[i]] })
}

/// A walk that goes key by key and has taken the first `i` keys of `order`.
pub open spec fn key_by_key_after<K, V>(
    order: Seq<K>,
    contents: Map<K, MapValue<V>>,
    skip_lost: bool,
    i: int,
) -> WalkView<K, V> {
    WalkView {
        step: WalkStep::NextKey(
            if i == 0 {
                None
            } else {
                Some(order[i - 1])
            },
        ),
        items: items_in_order(order, contents).take(i),
        error: None,
        skip_lost,
    }
}

proof fn lemma_key_by_key_from<K, V>(
    kernel: spec_fn(WalkStep<K>) -> WalkEvent<K, V>,
    order: Seq<K>,
    contents: Map<K, MapValue<V>>,
    skip_lost: bool,
    i: int,
    fuel: nat,
)
    requires
        answers_key_by_key(kernel, order, contents),
        0 <= i <= order.len(),
        fuel >= 2 * (order.len() - i) + 1,
    ensures
        run(key_by_key_after(order, contents, skip_lost, i), kernel, fuel) == (WalkView {
            step: WalkStep::Done,
            items: items_in_order(order, contents),
            error: None,
            skip_lost,
        }),
    decreases order.len() - i,
{
    let all = items_in_order(order, contents);
    let here = key_by_key_after(order, contents, skip_lost, i);
    let asked = kernel(here.step);
    if i == order.len() {
        assert(no_further_key(asked)) by {
            if i > 0 {
                assert(order[i - 1] == order.last());
            }
        }
        let end = here.advanced(asked);
        assert(all.take(i) =~= all);
        assert(end.step is Done);
        assert(run(end, kernel, (fuel - 1) as nat) == end);
    } else {
        assert(asked == WalkEvent::<K, V>::Key(Ok(order[i]))) by {
            if i > 0 {
                assert(kernel(WalkStep::NextKey(Some(order[i - 1]))) == WalkEvent::<K, V>::Key(
                    Ok(order[i - 1 + 1]),
                ));
            }
        }
        let found = here.advanced(asked);
        assert(found.step == WalkStep::Lookup(order[i]));
        assert(order.contains(order[i]));
        let read = kernel(found.step);
        assert(read == WalkEvent::<K, V>::Value(Ok(contents[order[i]])));
        let next = found.advanced(read);
        assert(all.take(i).push(all[i]) =~= all.take(i + 1));
        assert(next == key_by_key_after(order, contents, skip_lost, i + 1));
        lemma_key_by_key_from(kernel, order, contents, skip_lost, i + 1, (fuel - 2) as nat);
        assert(run(found, kernel, (fuel - 1) as nat) == run(next, kernel, (fuel - 2) as nat));
    }
}

/// A walk that goes key by key over a map that hands out its keys in the
/// order `order` ends without an error, after two steps for each key and one
/// more, with one item for each key, in that order.
pub proof fn lemma_key_by_key_walk<K, V>(
    kernel: spec_fn(WalkStep<K>) -> WalkEvent<K, V>,
    order: Seq<K>,
    contents: Map<K, MapValue<V>>,
    skip_lost: bool,
)
    requires
        answers_key_by_key(kernel, order, contents),
    ensures
        run(WalkView::linear(skip_lost), kernel, 2 * order.len() + 1) == (WalkView {
            step: WalkStep::Done,
            items: items_in_order(order, contents),
            error: None,
            skip_lost,
        }),
{
    assert(items_in_order(order, contents).take(0) =~= Seq::empty());
    assert(WalkView::<K, V>::linear(skip_lost) == key_by_key_after(
        order,
        contents,
        skip_lost,
        0,
    ));
    lemma_key_by_key_from(kernel, order, contents, skip_lost, 0, 2 * order.len() + 1);
}

/// True if `kernel` answers as a map of a fixed population that holds
/// `values[i]` under the key `i`: the keys run from 0 up, one by one, and
/// every one of them has a value, written or not.
pub open spec fn answers_as_array<V>(
    kernel: spec_fn(WalkStep<u32>) -> WalkEvent<u32, V>,
    values: Seq<MapValue<V>>,
) -> bool {
    &&& values.len() <= u32::MAX
    &&& values.len() == 0 ==> no_further_key(kernel(WalkStep::NextKey(None)))
    &&& values.len() > 0 ==> kernel(WalkStep::NextKey(None)) == WalkEvent::<u32, V>::Key(Ok(0u32))
    &&& forall|k: u32|
        k + 1 < values.len() ==> #[trigger] kernel(WalkStep::NextKey(Some(k)))
            == WalkEvent::<u32, V>::Key(Ok((k + 1) as u32))
    &&& forall|k: u32|
        k + 1 == values.len() ==> no_further_key(#[trigger] kernel(WalkStep::NextKey(Some(k))))
    &&& forall|k: u32|
        k < values.len() ==> #[trigger] kernel(WalkStep::Lookup(k)) == WalkEvent::<u32, V>::Value(
            Ok(values[k as int]),
        )
}

/// One item for each key from 0 up, with the value under that key.
pub open spec fn dense_items<V>(values: Seq<MapValue<V>>) -> Seq<KeyValue<u32, MapValue<V>>> {
    Seq::new(values.len(), |i: int| KeyValue { key: i as u32, value: values[i] })
}

/// All the items of a map of a fixed population: a walk that goes key by key
/// over a map with `values.len()` entries ends without an error with exactly
/// that many items, whose keys are 0, 1, 2, ... with none left out, the first
/// key included.
pub proof fn lemma_array_walk_is_dense<V>(
    kernel: spec_fn(WalkStep<u32>) -> WalkEvent<u32, V>,
    values: Seq<MapValue<V>>,
    skip_lost: bool,
)
    requires
        answers_as_array(kernel, values),
    ensures
        run(WalkView::linear(skip_lost), kernel, 2 * values.len() + 1) == (WalkView {
            step: WalkStep::Done,
            items: dense_items(values),
            error: None,
            skip_lost,
        }),
        dense_items(values).len() == values.len(),
        forall|i: int| 0 <= i < values.len() ==> (#[trigger] dense_items(values)[i]).key == i,
{
    let order = Seq::new(values.len(), |i: int| i as u32);
    let contents = Map::new(|k: u32| k < values.len(), |k: u32| values[k as int]);
    assert forall|k: u32| order.contains(k) <==> contents.dom().contains(k) by {
        if k < values.len() {
            assert(order[k as int] == k);
        }
    }
    assert forall|i: int| 0 <= i < order.len() - 1 implies #[trigger] kernel(
        WalkStep::NextKey(Some(order[i])),
    ) == WalkEvent::<u32, V>::Key(Ok(order[i + 1])) by {
        let k = i as u32;
        assert(k + 1 < values.len());
    }
    if order.len() > 0 {
        let k = (values.len() - 1) as u32;
        assert(order.last() == k);
        assert(k + 1 == values.len());
    }
    assert(answers_key_by_key(kernel, order, contents));
    lemma_key_by_key_walk(kernel, order, contents, skip_lost);
    assert(items_in_order(order, contents) =~= dense_items(values));
}

/// True if `kernel` hands out `batches` one after the other: the first where
/// the walk has no key to go on from, each further one where it goes on from
/// the key that came with the one before, and no key to go on from with the
/// last.
pub open spec fn answers_in_batches<K, V>(
    kernel: spec_fn(WalkStep<K>) -> WalkEvent<K, V>,
    batches: Seq<BatchResult<K, MapValue<V>>>,
) -> bool {
    &&& batches.len() > 0
    &&& kernel(WalkStep::LookupBatch { batch_size: BATCH_SIZE, next_key: None })
        == WalkEvent::<K, V>::Batch(Ok(batches[0]))
    &&& forall|i: int|
        0 <= i < batches.len() - 1 ==> (#[trigger] batches[i]).next_key is Some && kernel(
            WalkStep::LookupBatch { batch_size: BATCH_SIZE, next_key: batches[i].next_key },
        ) == WalkEvent::<K, V>::Batch(Ok(batches[i + 1]))
    &&& batches.last().next_key is None
}

/// The items of the first `n` batches, in the order in which they came.
pub open spec fn batched_items<K, V>(batches: Seq<BatchResult<K, MapValue<V>>>, n: int) -> Seq<
    KeyValue<K, MapValue<V>>,
>
    decreases n,
{
    if n <= 0 {
        Seq::empty()
    } else {
        batched_items(batches, n - 1) + batches[n - 1].items@
    }
}

/// A walk that goes batch by batch and has taken the first `i` batches.
pub open spec fn batch_by_batch_after<K, V>(
    batches: Seq<BatchResult<K, MapValue<V>>>,
    i: int,
) -> WalkView<K, V> {
    WalkView {
        step: if i > 0 && batches[i - 1].next_key is None {
            WalkStep::Done
        } else {
            WalkStep::LookupBatch {
                batch_size: BATCH_SIZE,
                next_key: if i == 0 {
                    None
                } else {
                    batches[i - 1].next_key
                },
            }
        },
        items: batched_items(batches, i),
        error: None,
        skip_lost: false,
    }
}

proof fn lemma_batch_by_batch_from<K, V>(
    kernel: spec_fn(WalkStep<K>) -> WalkEvent<K, V>,
    batches: Seq<BatchResult<K, MapValue<V>>>,
    i: int,
    fuel: nat,
)
    requires
        answers_in_batches(kernel, batches),
        0 <= i <= batches.len(),
        fuel >= batches.len() - i,
    ensures
        run(batch_by_batch_after(batches, i), kernel, fuel) == batch_by_batch_after(
            batches,
            batches.len() as int,
        ),
    decreases batches.len() - i,
{
    let here = batch_by_batch_after(batches, i);
    if i == batches.len() {
        assert(here.step is Done);
    } else {
        if i > 0 {
            assert(batches[i - 1].next_key is Some);
            assert(kernel(here.step) == WalkEvent::<K, V>::Batch(Ok(batches[i - 1 + 1])));
        }
        assert(kernel(here.step) == WalkEvent::<K, V>::Batch(Ok(batches[i])));
        let next = here.advanced(kernel(here.step));
        assert(next == batch_by_batch_after(batches, i + 1));
        lemma_batch_by_batch_from(kernel, batches, i + 1, (fuel - 1) as nat);
    }
}

/// A walk that goes batch by batch goes on from the key that came with each
/// batch, unchanged, and ends without an error with the batch that came with
/// no such key. It then holds every item that the kernel handed out, once
/// and in the order in which they came: none is lost and none is doubled.
pub proof fn lemma_batch_by_batch_walk<K, V>(
    kernel: spec_fn(WalkStep<K>) -> WalkEvent<K, V>,
    batches: Seq<BatchResult<K, MapValue<V>>>,
)
    requires
        answers_in_batches(kernel, batches),
    ensures
        run(WalkView::bulk(), kernel, batches.len()) == (WalkView {
            step: WalkStep::Done,
            items: batched_items(batches, batches.len() as int),
            error: None,
            skip_lost: false,
        }),
{
    assert(WalkView::<K, V>::bulk() == batch_by_batch_after(batches, 0));
    lemma_batch_by_batch_from(kernel, batches, 0, batches.len());
    assert(batches[batches.len() - 1] == batches.last());
}

/// True if `items` are those of a map of a fixed population that holds
/// `values[k]` under the key `k`: there are as many items as keys, and each
/// key from 0 up has its item among them.
pub open spec fn dense_in_some_order<V>(
    items: Seq<KeyValue<u32, MapValue<V>>>,
    values: Seq<MapValue<V>>,
) -> bool {
    &&& items.len() == values.len()
    &&& forall|k: int|
        #![trigger values[k]]
        0 <= k < values.len() ==> items.contains(KeyValue { key: k as u32, value: values[k] })
}

/// All the items of a map of a fixed population, whichever way the walk
/// goes: key by key, the walk ends with exactly one item for each key from 0
/// up; batch by batch, it ends with exactly the items that the kernel handed
/// out, which are one for each key from 0 up where the kernel hands out the
/// whole map.
pub proof fn lemma_array_items_are_dense<V>(
    key_kernel: spec_fn(WalkStep<u32>) -> WalkEvent<u32, V>,
    batch_kernel: spec_fn(WalkStep<u32>) -> WalkEvent<u32, V>,
    batches: Seq<BatchResult<u32, MapValue<V>>>,
    values: Seq<MapValue<V>>,
)
    requires
        answers_as_array(key_kernel, values),
        answers_in_batches(batch_kernel, batches),
        dense_in_some_order(batched_items(batches, batches.len() as int), values),
    ensures
        ({
            let by_key = run(WalkView::linear(false), key_kernel, 2 * values.len() + 1);
            let by_batch = run(WalkView::bulk(), batch_kernel, batches.len());
            &&& by_key.step is Done && by_key.error is None
            &&& by_batch.step is Done && by_batch.error is None
            &&& dense_in_some_order(by_key.items, values)
            &&& dense_in_some_order(by_batch.items, values)
        }),
{
    lemma_array_walk_is_dense(key_kernel, values, false);
    lemma_batch_by_batch_walk(batch_kernel, batches);
    let items = dense_items(values);
    assert forall|k: int| #![trigger values[k]] 0 <= k < values.len() implies items.contains(
        KeyValue { key: k as u32, value: values[k] },
    ) by {
        assert(items[k] == (KeyValue { key: k as u32, value: values[k] }));
    }
}

/// True if `items` are those of `contents`: each of them is an entry of
/// `contents`, and each key of `contents` is the key of one of them.
pub open spec fn items_of<K, V>(
    items: Seq<KeyValue<K, MapValue<V>>>,
    contents: Map<K, MapValue<V>>,
) -> bool {
    &&& forall|i: int|
        0 <= i < items.len() ==> contents.dom().contains((#[trigger] items[i]).key)
            && items[i].value == contents[items[i].key]
    &&& forall|k: K|
        contents.dom().contains(k) ==> exists|i: int|
            0 <= i < items.len() && (#[trigger] items[i]).key == k
}

/// Going key by key and going batch by batch come to the same: over a map
/// that holds `contents` and hands them out whole either way, both walks end
/// without an error, with the same set of items.
pub proof fn lemma_strategies_agree<K, V>(
    contents: Map<K, MapValue<V>>,
    key_kernel: spec_fn(WalkStep<K>) -> WalkEvent<K, V>,
    order: Seq<K>,
    batch_kernel: spec_fn(WalkStep<K>) -> WalkEvent<K, V>,
    batches: Seq<BatchResult<K, MapValue<V>>>,
)
    requires
        answers_key_by_key(key_kernel, order, contents),
        answers_in_batches(batch_kernel, batches),
        items_of(batched_items(batches, batches.len() as int), contents),
    ensures
        ({
            let by_key = run(WalkView::linear(false), key_kernel, 2 * order.len() + 1);
            let by_batch = run(WalkView::bulk(), batch_kernel, batches.len());
            &&& by_key.step is Done
            &&& by_batch.step is Done
            &&& by_key.error is None
            &&& by_batch.error is None
            &&& by_key.items.to_set() == by_batch.items.to_set()
        }),
{
    lemma_key_by_key_walk(key_kernel, order, contents, false);
    lemma_batch_by_batch_walk(batch_kernel, batches);
    let a = items_in_order(order, contents);
    let b = batched_items(batches, batches.len() as int);
    assert forall|item: KeyValue<K, MapValue<V>>| a.to_set().contains(item) == b.to_set().contains(
        item,
    ) by {
        if a.contains(item) {
            let i = choose|i: int| 0 <= i < a.len() && a[i] == item;
            assert(order.contains(order[i]));
            let j = choose|j: int| 0 <= j < b.len() && (#[trigger] b[j]).key == order[i];
            assert(b[j] == item);
        }
        if b.contains(item) {
            let j = choose|j: int| 0 <= j < b.len() && b[j] == item;
            assert(contents.dom().contains(b[j].key));
            assert(order.contains(item.key));
            let i = choose|i: int| 0 <= i < order.len() && order[i] == item.key;
            assert(a[i] == item);
        }
    }
    assert(a.to_set() =~= b.to_set());
}

/// True if `event` says that a value could not be read.
pub open spec fn no_value<K, V>(event: WalkEvent<K, V>) -> bool {
    event is Value && event->Value_0 is Err
}

/// True if `kernel` answers as a map that lists the keys `order`, of which it
/// still holds those of `contents`: the others are listed, but their values
/// cannot be read.
pub open spec fn answers_with_losses<K, V>(
    kernel: spec_fn(WalkStep<K>) -> WalkEvent<K, V>,
    order: Seq<K>,
    contents: Map<K, MapValue<V>>,
) -> bool {
    &&& order.len() == 0 ==> no_further_key(kernel(WalkStep::NextKey(None)))
    &&& order.len() > 0 ==> kernel(WalkStep::NextKey(None)) == WalkEvent::<K, V>::Key(
        Ok(order[0]),
    )
    &&& forall|i: int|
        0 <= i < order.len() - 1 ==> #[trigger] kernel(WalkStep::NextKey(Some(order[i])))
            == WalkEvent::<K, V>::Key(Ok(order[i + 1]))
    &&& order.len() > 0 ==> no_further_key(kernel(WalkStep::NextKey(Some(order.last()))))
    &&& forall|k: K|
        contents.dom().contains(k) ==> #[trigger] kernel(WalkStep::Lookup(k))
            == WalkEvent::<K, V>::Value(Ok(contents[k]))
    &&& forall|k: K| !contents.dom().contains(k) ==> no_value(#[trigger] kernel(WalkStep::Lookup(k)))
}

/// The items of those keys of `order` that `contents` holds, in the order of
/// `order`.
pub open spec fn items_still_there<K, V>(order: Seq<K>, contents: Map<K, MapValue<V>>) -> Seq<
    KeyValue<K, MapValue<V>>,
>
    decreases order.len(),
{
    if order.len() == 0 {
        Seq::empty()
    } else if contents.dom().contains(order.last()) {
        items_still_there(order.drop_last(), contents).push(
            KeyValue { key: order.last(), value: contents[order.last()] },
        )
    } else {
        items_still_there(order.drop_last(), contents)
    }
}

proof fn lemma_passing_over_from<K, V>(
    kernel: spec_fn(WalkStep<K>) -> WalkEvent<K, V>,
    order: Seq<K>,
    contents: Map<K, MapValue<V>>,
    i: int,
    fuel: nat,
)
    requires
        answers_with_losses(kernel, order, contents),
        0 <= i <= order.len(),
        fuel >= 2 * (order.len() - i) + 1,
    ensures
        run(
            WalkView {
                step: WalkStep::NextKey(
                    if i == 0 {
                        None
                    } else {
                        Some(order[i - 1])
                    },
                ),
                items: items_still_there(order.take(i), contents),
                error: None,
                skip_lost: true,
            },
            kernel,
            fuel,
        ) == (WalkView {
            step: WalkStep::Done,
            items: items_still_there(order, contents),
            error: None,
            skip_lost: true,
        }),
    decreases order.len() - i,
{
    let here = WalkView {
        step: WalkStep::NextKey(
            if i == 0 {
                None
            } else {
                Some(order[i - 1])
            },
        ),
        items: items_still_there(order.take(i), contents),
        error: None,
        skip_lost: true,
    };
    let asked = kernel(here.step);
    if i == order.len() {
        assert(no_further_key(asked)) by {
            if i > 0 {
                assert(order[i - 1] == order.last());
            }
        }
        let end = here.advanced(asked);
        assert(order.take(i) =~= order);
        assert(run(end, kernel, (fuel - 1) as nat) == end);
    } else {
        assert(asked == WalkEvent::<K, V>::Key(Ok(order[i]))) by {
            if i > 0 {
                assert(kernel(WalkStep::NextKey(Some(order[i - 1]))) == WalkEvent::<K, V>::Key(
                    Ok(order[i - 1 + 1]),
                ));
            }
        }
        let found = here.advanced(asked);
        let read = kernel(found.step);
        let next = found.advanced(read);
        assert(order.take(i + 1).drop_last() =~= order.take(i));
        assert(order.take(i + 1).last() == order[i]);
        if contents.dom().contains(order[i]) {
            assert(read == WalkEvent::<K, V>::Value(Ok(contents[order[i]])));
        } else {
            assert(no_value(read));
        }
        assert(next.items == items_still_there(order.take(i + 1), contents));
        lemma_passing_over_from(kernel, order, contents, i + 1, (fuel - 2) as nat);
        assert(run(found, kernel, (fuel - 1) as nat) == run(next, kernel, (fuel - 2) as nat));
    }
}

/// A walk over a map whose entries can vanish passes over every key whose
/// value cannot be read, and goes on: it ends without an error, with the
/// items of all the keys that are still there, in the order of the keys.
pub proof fn lemma_walk_passes_over_lost<K, V>(
    kernel: spec_fn(WalkStep<K>) -> WalkEvent<K, V>,
    order: Seq<K>,
    contents: Map<K, MapValue<V>>,
)
    requires
        answers_with_losses(kernel, order, contents),
    ensures
        run(WalkView::linear(true), kernel, 2 * order.len() + 1) == (WalkView {
            step: WalkStep::Done,
            items: items_still_there(order, contents),
            error: None,
            skip_lost: true,
        }),
{
    assert(order.take(0) =~= Seq::empty());
    lemma_passing_over_from(kernel, order, contents, 0, 2 * order.len() + 1);
}

/// Any other walk stops at the first value that it cannot read, and ends
/// with the error of that lookup: a walk that has taken an item for each of
/// the keys before it and then finds no value under `key` asks for nothing
/// more.
pub proof fn lemma_walk_stops_at_lost<K, V>(
    walk: WalkView<K, V>,
    key: K,
    e: crate::error::XDPError,
    r: crate::result::XDPResult<Vec<KeyValue<K, MapValue<V>>>>,
)
    requires
        walk.step == WalkStep::Lookup(key),
        !walk.skip_lost,
        walk.advanced(WalkEvent::Value(Err(e))).outcome_is(r),
    ensures
        walk.advanced(WalkEvent::Value(Err(e))).step is Done,
        r == Err::<Vec<KeyValue<K, MapValue<V>>>, crate::error::XDPError>(e),
{
}

} // verus!
