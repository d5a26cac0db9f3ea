use vstd::prelude::*;
use crate::byte_aligned::ByteAligned;
use crate::items::{WalkEvent, WalkStep, WalkView};
use crate::items_laws::run;
use crate::map_batch::{batch_cursor, batch_items, BatchResult, BATCH_SIZE, ENOENT};
use crate::map_common::{KeyValue, MapValue, Outcome};
use crate::percpu_map::per_cpu_batch_items;

verus! {

/// A map as batch lookups see it while nothing else changes it: its keys in
/// the kernel's order, and for every place in that order how many elements a
/// lookup hands out that goes on from there, and whether it reports that
/// there are no more entries.
pub struct BatchedMap<K> {
    pub keys: Seq<K>,
    pub count: spec_fn(nat) -> nat,
    pub ends: spec_fn(nat) -> bool,
}

/// True if no key comes twice.
pub open spec fn keys_differ<K>(keys: Seq<K>) -> bool {
    forall|s: int, t: int| 0 <= s < t < keys.len() ==> #[trigger] keys[s] != #[trigger] keys[t]
}

/// The keys of `items`, in their order.
pub open spec fn keys_of<K, V>(items: Seq<KeyValue<K, MapValue<V>>>) -> Seq<K> {
    Seq::new(items.len(), |t: int| items[t].key)
}

/// The place that a cursor stands for: the start of the map where there is
/// none.
pub open spec fn place_of(cursor: Option<u32>) -> nat {
    match cursor {
        None => 0,
        Some(n) => n as nat,
    }
}

impl<K> BatchedMap<K> {
    /// True if the map answers lookups of up to `batch_size` elements as a
    /// map does: no key is there twice; a lookup hands out no more elements
    /// than it was asked for and than are left, and at least one while any is
    /// left; it reports the end only when it has handed out the last element,
    /// and always when none was left.
    pub open spec fn answers_as_a_map(self, batch_size: u32) -> bool {
        &&& self.keys.len() <= u32::MAX
        &&& keys_differ(self.keys)
        &&& forall|p: nat|
            p <= self.keys.len() ==> {
                &&& p + #[trigger] (self.count)(p) <= self.keys.len()
                &&& (self.count)(p) <= batch_size
                &&& (p < self.keys.len() ==> (self.count)(p) >= 1)
                &&& ((self.ends)(p) ==> p + (self.count)(p) == self.keys.len())
                &&& (p == self.keys.len() ==> (self.ends)(p))
            }
    }

    /// The place up to which the map has handed out its elements after
    /// `calls` lookups, each of which went on from where the one before
    /// stopped.
    pub open spec fn place(self, calls: nat) -> nat
        decreases calls,
    {
        if calls == 0 {
            0
        } else {
            let before = self.place((calls - 1) as nat);
            before + (self.count)(before)
        }
    }

    /// True if `r` is what a lookup finds that goes on from `cursor`: the
    /// elements from that place on, as many as the map hands out there, the
    /// last of them first; and the place to go on from, unless the map
    /// reports the end.
    pub open spec fn answers<V>(self, cursor: Option<u32>, r: BatchResult<K, MapValue<V>>) -> bool {
        let p = place_of(cursor);
        let c = (self.count)(p);
        &&& r.num_items == c
        &&& is_chunk(keys_of(r.items@), self.keys, p, c)
        &&& r.next_key == if (self.ends)(p) {
            None
        } else {
            Some((p + c) as u32)
        }
    }
}

/// True if `chunk` holds the `c` keys from the place `p` on, the last of
/// them first.
pub open spec fn is_chunk<K>(chunk: Seq<K>, keys: Seq<K>, p: nat, c: nat) -> bool {
    &&& chunk.len() == c
    &&& p + c <= keys.len()
    &&& forall|j: int| 0 <= j < c ==> #[trigger] chunk[j] == keys[p + c - 1 - j]
}

/// The cursor that the call number `i` of a chain goes on from: none for the
/// first call, and for every other one the cursor that came with the result
/// before, unchanged.
pub open spec fn cursor_before<K, V>(results: Seq<BatchResult<K, MapValue<V>>>, i: int) -> Option<
    u32,
> {
    if i == 0 {
        None
    } else {
        results[i - 1].next_key
    }
}

/// True if `results` are what a caller gets who looks up batch after batch
/// from `map`, the first from the start and each further one from the cursor
/// of the one before, and who goes on only while there is a cursor.
pub open spec fn is_chain<K, V>(map: BatchedMap<K>, results: Seq<BatchResult<K, MapValue<V>>>)
    -> bool {
    forall|i: int|
        0 <= i < results.len() ==> {
            &&& map.answers(cursor_before(results, i), #[trigger] results[i])
            &&& (i < results.len() - 1 ==> results[i].next_key is Some)
        }
}

/// The keys of the items of the first `n` results of a chain, in the order
/// in which they came.
pub open spec fn chain_keys<K, V>(results: Seq<BatchResult<K, MapValue<V>>>, n: int) -> Seq<K>
    decreases n,
{
    if n <= 0 {
        Seq::empty()
    } else {
        chain_keys(results, n - 1) + keys_of(results[n - 1].items@)
    }
}

/// The number of items that the first `n` results of a chain report.
pub open spec fn chain_count<K, V>(results: Seq<BatchResult<K, MapValue<V>>>, n: int) -> nat
    decreases n,
{
    if n <= 0 {
        0
    } else {
        chain_count(results, n - 1) + results[n - 1].num_items as nat
    }
}

/// True if the kernel has answered a lookup that went on from `cursor` as
/// `map` does: it has written the keys from that place on to `keys`, counted
/// them, handed back the place behind them, and failed with "no more
/// entries" where the map reports the end and not at all elsewhere.
pub open spec fn is_reply<K>(
    map: BatchedMap<K>,
    cursor: Option<u32>,
    keys: Seq<K>,
    count: u32,
    nkey: u32,
    outcome: Outcome,
) -> bool {
    let p = place_of(cursor);
    &&& p <= map.keys.len()
    &&& count == (map.count)(p)
    &&& count <= keys.len()
    &&& forall|j: int| 0 <= j < count ==> #[trigger] keys[j] == map.keys[p + j]
    &&& nkey == p + count
    &&& ((map.ends)(p) ==> outcome.failed() && outcome.errno == ENOENT)
    &&& (!(map.ends)(p) ==> !outcome.failed())
}

/// What `finish_lookup_batch` makes of the kernel's reply is what the map
/// answers, for a map whose values all CPUs share.
pub proof fn lemma_reply_answers<K, V>(
    map: BatchedMap<K>,
    batch_size: u32,
    cursor: Option<u32>,
    keys: Seq<K>,
    vals: Seq<V>,
    count: u32,
    nkey: u32,
    outcome: Outcome,
    r: BatchResult<K, MapValue<V>>,
)
    requires
        map.answers_as_a_map(batch_size),
        is_reply(map, cursor, keys, count, nkey, outcome),
        r.items@ == batch_items(keys, vals, count as nat),
        r.next_key == batch_cursor(outcome, nkey),
        r.num_items == count,
    ensures
        map.answers(cursor, r),
{
    let p = place_of(cursor);
    assert(p + (map.count)(p) <= map.keys.len());
    assert forall|j: int| 0 <= j < count implies #[trigger] keys_of(r.items@)[j] == map.keys[p
        + count - 1 - j] by {
        assert(keys[count - 1 - j] == map.keys[p + (count - 1 - j)]);
    }
}

/// What `finish_lookup_batch` makes of the kernel's reply is what the map
/// answers, for a per-CPU map.
pub proof fn lemma_per_cpu_reply_answers<K, V: ByteAligned>(
    map: BatchedMap<K>,
    batch_size: u32,
    cursor: Option<u32>,
    keys: Seq<K>,
    flat: Seq<u8>,
    num_cpus: nat,
    value_size: nat,
    count: u32,
    nkey: u32,
    outcome: Outcome,
    r: BatchResult<K, MapValue<V>>,
)
    requires
        map.answers_as_a_map(batch_size),
        is_reply(map, cursor, keys, count, nkey, outcome),
        per_cpu_batch_items(r.items@, keys, flat, count as nat, num_cpus, value_size),
        r.next_key == batch_cursor(outcome, nkey),
        r.num_items == count,
    ensures
        map.answers(cursor, r),
{
    let p = place_of(cursor);
    assert(p + (map.count)(p) <= map.keys.len());
    assert forall|j: int| 0 <= j < count implies #[trigger] keys_of(r.items@)[j] == map.keys[p
        + count - 1 - j] by {
        assert(r.items@[j].key == keys[count - 1 - j]);
        assert(keys[count - 1 - j] == map.keys[p + (count - 1 - j)]);
    }
}

/// Where a chain stands: before its call number `i` the cursor stands for
/// the place that the map has come to after `i` lookups, which is no
/// further than the end of the map and no nearer than `i` elements from its
/// start.
pub proof fn lemma_chain_place<K, V>(
    map: BatchedMap<K>,
    batch_size: u32,
    results: Seq<BatchResult<K, MapValue<V>>>,
    i: int,
)
    requires
        map.answers_as_a_map(batch_size),
        is_chain(map, results),
        0 <= i < results.len(),
    ensures
        place_of(cursor_before(results, i)) == map.place(i as nat),
        i <= map.place(i as nat) <= map.keys.len(),
        map.place((i + 1) as nat) <= map.keys.len(),
        map.place((i + 1) as nat) == map.place(i as nat) + results[i].items@.len(),
        results[i].num_items == results[i].items@.len(),
        results[i].next_key is Some ==> map.place(i as nat) < map.keys.len(),
        results[i].next_key is None ==> map.place((i + 1) as nat) == map.keys.len(),
    decreases i,
{
    if i > 0 {
        lemma_chain_place(map, batch_size, results, i - 1);
        let before = map.place((i - 1) as nat);
        assert(map.answers(cursor_before(results, i - 1), results[i - 1]));
        assert(results[i - 1].next_key is Some);
        assert(!(map.ends)(before));
        assert(before + (map.count)(before) <= map.keys.len());
    }
    let p = map.place(i as nat);
    assert(map.answers(cursor_before(results, i), results[i]));
    assert(p + (map.count)(p) <= map.keys.len());
}

/// The chain ends: a caller who goes on only while there is a cursor has
/// made no more calls than the map has elements, and one; and every call
/// before the last has handed out at least one element.
pub proof fn lemma_chain_ends<K, V>(
    map: BatchedMap<K>,
    batch_size: u32,
    results: Seq<BatchResult<K, MapValue<V>>>,
)
    requires
        map.answers_as_a_map(batch_size),
        is_chain(map, results),
    ensures
        results.len() <= map.keys.len() + 1,
        forall|i: int|
            0 <= i < results.len() - 1 ==> (#[trigger] results[i]).items@.len() >= 1,
{
    if results.len() > 0 {
        lemma_chain_place(map, batch_size, results, results.len() - 1);
    }
    assert forall|i: int| 0 <= i < results.len() - 1 implies (#[trigger] results[i]).items@.len()
        >= 1 by {
        lemma_chain_place(map, batch_size, results, i);
        let p = map.place(i as nat);
        assert(p + (map.count)(p) <= map.keys.len());
    }
}

/// True if `key` is one of the first `n` keys.
pub open spec fn is_one_of<K>(key: K, keys: Seq<K>, n: nat) -> bool {
    exists|k: int| 0 <= k < n && #[trigger] keys[k] == key
}

/// True if every one of `found` is one of the first `n` keys.
pub open spec fn all_from<K>(found: Seq<K>, keys: Seq<K>, n: nat) -> bool {
    forall|t: int| 0 <= t < found.len() ==> is_one_of(#[trigger] found[t], keys, n)
}

/// True if every one of the first `n` keys is among `found`.
pub open spec fn all_there<K>(found: Seq<K>, keys: Seq<K>, n: nat) -> bool {
    forall|k: int| 0 <= k < n ==> found.contains(#[trigger] keys[k])
}

/// True if `found` are the first `n` keys of the map in some order: there
/// are `n` of them, every one of them is one of those keys, every one of
/// those keys is among them, and none comes twice.
pub open spec fn holds_each_once<K>(found: Seq<K>, map: BatchedMap<K>, n: nat) -> bool {
    &&& found.len() == n
    &&& all_from(found, map.keys, n)
    &&& all_there(found, map.keys, n)
    &&& keys_differ(found)
}

proof fn lemma_append_from<K>(before: Seq<K>, chunk: Seq<K>, keys: Seq<K>, p: nat, c: nat)
    requires
        before.len() == p,
        all_from(before, keys, p),
        is_chunk(chunk, keys, p, c),
    ensures
        all_from(before + chunk, keys, p + c),
{
    let all = before + chunk;
    assert forall|t: int| 0 <= t < all.len() implies is_one_of(#[trigger] all[t], keys, p + c) by {
        if t < p {
            assert(all[t] == before[t]);
            assert(is_one_of(before[t], keys, p));
            let k = choose|k: int| 0 <= k < p && #[trigger] keys[k] == before[t];
            assert(keys[k] == all[t]);
        } else {
            assert(all[t] == chunk[t - p]);
            assert(keys[p + c - 1 - (t - p)] == all[t]);
        }
    }
}

proof fn lemma_append_there<K>(before: Seq<K>, chunk: Seq<K>, keys: Seq<K>, p: nat, c: nat)
    requires
        before.len() == p,
        all_there(before, keys, p),
        is_chunk(chunk, keys, p, c),
    ensures
        all_there(before + chunk, keys, p + c),
{
    let all = before + chunk;
    assert forall|k: int| 0 <= k < p + c implies all.contains(#[trigger] keys[k]) by {
        if k < p {
            assert(before.contains(keys[k]));
            let t = choose|t: int| 0 <= t < before.len() && before[t] == keys[k];
            assert(all[t] == keys[k]);
        } else {
            let j = p + c - 1 - k;
            assert(chunk[j] == keys[p + c - 1 - j]);
            assert(all[p + j] == keys[k]);
        }
    }
}

proof fn lemma_append_differ<K>(before: Seq<K>, chunk: Seq<K>, keys: Seq<K>, p: nat, c: nat)
    requires
        before.len() == p,
        all_from(before, keys, p),
        keys_differ(before),
        keys_differ(keys),
        is_chunk(chunk, keys, p, c),
    ensures
        keys_differ(before + chunk),
{
    let all = before + chunk;
    assert forall|s: int, t: int| 0 <= s < t < all.len() implies #[trigger] all[s]
        != #[trigger] all[t] by {
        if t < p {
            assert(all[s] == before[s]);
            assert(all[t] == before[t]);
        } else {
            let kt = p + c - 1 - (t - p);
            assert(all[t] == chunk[t - p]);
            assert(all[t] == keys[kt]);
            if s < p {
                assert(all[s] == before[s]);
                assert(is_one_of(before[s], keys, p));
                let ks = choose|k: int| 0 <= k < p && #[trigger] keys[k] == before[s];
                assert(keys[ks] != keys[kt]);
            } else {
                let ks = p + c - 1 - (s - p);
                assert(all[s] == chunk[s - p]);
                assert(all[s] == keys[ks]);
                assert(keys[kt] != keys[ks]);
            }
        }
    }
}

proof fn lemma_chain_keys_upto<K, V>(
    map: BatchedMap<K>,
    batch_size: u32,
    results: Seq<BatchResult<K, MapValue<V>>>,
    n: int,
)
    requires
        map.answers_as_a_map(batch_size),
        is_chain(map, results),
        0 <= n <= results.len(),
    ensures
        holds_each_once(chain_keys(results, n), map, map.place(n as nat)),
        chain_count(results, n) == map.place(n as nat),
        map.place(n as nat) <= map.keys.len(),
    decreases n,
{
    if n > 0 {
        lemma_chain_keys_upto(map, batch_size, results, n - 1);
        lemma_chain_place(map, batch_size, results, n - 1);
        let p = map.place((n - 1) as nat);
        let c = (map.count)(p);
        let before = chain_keys(results, n - 1);
        let chunk = keys_of(results[n - 1].items@);
        assert(map.answers(cursor_before(results, n - 1), results[n - 1]));
        lemma_append_from(before, chunk, map.keys, p, c);
        lemma_append_there(before, chunk, map.keys, p, c);
        lemma_append_differ(before, chunk, map.keys, p, c);
    } else {
        assert(chain_keys(results, n).len() == 0);
        assert(map.place(0) == 0);
    }
}

/// A chain of batch lookups hands out every key once: when a caller has
/// looked up batch after batch, each from the cursor of the one before,
/// until a result came without a cursor, then the results together hold as
/// many items as the map has elements, every key of the map is the key of
/// one of them, every one of them has a key of the map, and no key comes
/// twice, neither in one batch nor in two of them. The counts that the
/// results report add up to the number of elements.
pub proof fn lemma_chain_hands_out_every_key_once<K, V>(
    map: BatchedMap<K>,
    batch_size: u32,
    results: Seq<BatchResult<K, MapValue<V>>>,
)
    requires
        map.answers_as_a_map(batch_size),
        is_chain(map, results),
        results.len() > 0,
        results.last().next_key is None,
    ensures
        results.len() <= map.keys.len() + 1,
        holds_each_once(chain_keys(results, results.len() as int), map, map.keys.len()),
        chain_count(results, results.len() as int) == map.keys.len(),
{
    lemma_chain_ends(map, batch_size, results);
    lemma_chain_keys_upto(map, batch_size, results, results.len() as int);
    lemma_chain_place(map, batch_size, results, results.len() - 1);
}

/// While there is a cursor there is more to come: a result of a chain that
/// comes without a cursor is the last, and with it all the elements of the
/// map have been handed out.
pub proof fn lemma_cursor_is_absent_at_the_end_only<K, V>(
    map: BatchedMap<K>,
    batch_size: u32,
    results: Seq<BatchResult<K, MapValue<V>>>,
    i: int,
)
    requires
        map.answers_as_a_map(batch_size),
        is_chain(map, results),
        0 <= i < results.len(),
    ensures
        results[i].next_key is None ==> chain_keys(results, i + 1).len() == map.keys.len(),
        results[i].next_key is None ==> i == results.len() - 1,
        results[i].next_key is Some ==> chain_keys(results, i + 1).len() <= map.keys.len(),
{
    lemma_chain_place(map, batch_size, results, i);
    lemma_chain_keys_upto(map, batch_size, results, i + 1);
}

/// True if `kernel` answers every batch that a walk asks for as `map` does.
pub open spec fn answers_by_map<K, V>(
    kernel: spec_fn(WalkStep<K>) -> WalkEvent<K, V>,
    map: BatchedMap<K>,
) -> bool {
    forall|cursor: Option<u32>|
        {
            let event = #[trigger] kernel(
                WalkStep::LookupBatch { batch_size: BATCH_SIZE, next_key: cursor },
            );
            &&& event is Batch
            &&& event->Batch_0 is Ok
            &&& map.answers(cursor, event->Batch_0->Ok_0)
        }
}

proof fn lemma_walk_from<K, V>(
    kernel: spec_fn(WalkStep<K>) -> WalkEvent<K, V>,
    map: BatchedMap<K>,
    walk: WalkView<K, V>,
    cursor: Option<u32>,
    fuel: nat,
)
    requires
        map.answers_as_a_map(BATCH_SIZE),
        answers_by_map(kernel, map),
        walk.step == (WalkStep::<K>::LookupBatch { batch_size: BATCH_SIZE, next_key: cursor }),
        walk.error is None,
        place_of(cursor) <= map.keys.len(),
        holds_each_once(keys_of(walk.items), map, place_of(cursor)),
        fuel >= map.keys.len() - place_of(cursor) + 1,
    ensures
        run(walk, kernel, fuel).step is Done,
        run(walk, kernel, fuel).error is None,
        holds_each_once(keys_of(run(walk, kernel, fuel).items), map, map.keys.len()),
    decreases map.keys.len() - place_of(cursor),
{
    let p = place_of(cursor);
    let c = (map.count)(p);
    let event = kernel(walk.step);
    let r = event->Batch_0->Ok_0;
    assert(map.answers(cursor, r));
    assert(p + c <= map.keys.len());
    let next = walk.advanced(event);
    assert(next.items == walk.items + r.items@);
    assert(keys_of(next.items) =~= keys_of(walk.items) + keys_of(r.items@));
    lemma_append_from(keys_of(walk.items), keys_of(r.items@), map.keys, p, c);
    lemma_append_there(keys_of(walk.items), keys_of(r.items@), map.keys, p, c);
    lemma_append_differ(keys_of(walk.items), keys_of(r.items@), map.keys, p, c);
    if (map.ends)(p) {
        assert(next.step is Done);
        assert(run(next, kernel, (fuel - 1) as nat) == next);
    } else {
        assert(p < map.keys.len());
        assert(place_of(r.next_key) == p + c);
        lemma_walk_from(kernel, map, next, r.next_key, (fuel - 1) as nat);
    }
}

/// A walk that goes batch by batch comes to an end of itself: over a map
/// that nothing else changes it asks for no more batches than the map has
/// elements, and one, and ends without an error with every key of the map
/// among its items, once.
pub proof fn lemma_batch_walk_ends<K, V>(
    kernel: spec_fn(WalkStep<K>) -> WalkEvent<K, V>,
    map: BatchedMap<K>,
)
    requires
        map.answers_as_a_map(BATCH_SIZE),
        answers_by_map(kernel, map),
    ensures
        ({
            let end = run(WalkView::bulk(), kernel, map.keys.len() + 1);
            &&& end.step is Done
            &&& end.error is None
            &&& holds_each_once(keys_of(end.items), map, map.keys.len())
        }),
{
    let start = WalkView::<K, V>::bulk();
    assert(all_from(keys_of(start.items), map.keys, 0));
    assert(all_there(keys_of(start.items), map.keys, 0));
    assert(keys_differ(keys_of(start.items)));
    lemma_walk_from(kernel, map, start, None, map.keys.len() + 1);
}

} // verus!
